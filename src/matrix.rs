//! The playing field: occupancy bitmap, collision tests, moving, rotating
//! and locking pieces, line clears and levels.
use crate::global::{
    ANCHOR_FLOOR, FIELD_HEIGHT, FIELD_WIDTH, LINES_PER_LEVEL, LOCK_OUT_ROW, MAX_FIELD_SIDE,
    MAX_LEVEL, START_X, START_Y,
};
use crate::position::MatrixPosition;
use crate::tetromino::{
    get_offset_data, is_grid_side, lemma_grid_split, offsets_for, rotated, square_side, Tetromino,
};
use vstd::arithmetic::mul::lemma_mul_inequality;
use vstd::prelude::*;

verus! {

/// The cell at (`c`, `r`) of a square grid of side `n` laid out row by row.
pub open spec fn grid_at(data: Seq<u8>, n: int, r: int, c: int) -> u8 {
    data[r * n + c]
}

/// `p` moved by `dx` columns and `dy` rows.
pub open spec fn shifted(p: MatrixPosition, dx: int, dy: int) -> MatrixPosition {
    MatrixPosition { x: (p.x + dx) as i32, y: (p.y + dy) as i32 }
}

/// Whether a piece with grid `data` of side `n` anchored at `p` has an
/// occupied cell at field column `x`, row `y`.
pub open spec fn covers(data: Seq<u8>, n: int, p: MatrixPosition, x: int, y: int) -> bool {
    &&& 0 <= x - p.x < n
    &&& 0 <= y - p.y < n
    &&& grid_at(data, n, y - p.y, x - p.x) != 0
}

/// Whether a grid `data` of side `n` anchored at `p` has an occupied cell in
/// row `row` or above it.
pub open spec fn reaches_row(data: Seq<u8>, n: int, p: MatrixPosition, row: int) -> bool {
    exists|r: int, c: int|
        0 <= r < n && 0 <= c < n && #[trigger] grid_at(data, n, r, c) != 0 && p.y + r <= row
}

/// Every cell of the row is occupied.
pub open spec fn row_full(row: Seq<u8>) -> bool {
    forall|i: int| 0 <= i < row.len() ==> #[trigger] row[i] != 0
}

/// Rows that a line clear keeps.
pub open spec fn row_kept(row: Seq<u8>) -> bool {
    !row_full(row)
}

/// An empty row of `w` cells.
pub open spec fn empty_row(w: int) -> Seq<u8> {
    Seq::new(w as nat, |i: int| 0u8)
}

/// The rows that are not full, in order.
pub open spec fn kept_rows(rows: Seq<Seq<u8>>) -> Seq<Seq<u8>> {
    rows.filter(|r: Seq<u8>| row_kept(r))
}

/// Number of full rows.
pub open spec fn full_count(rows: Seq<Seq<u8>>) -> int {
    rows.len() - kept_rows(rows).len()
}

/// The rows after a line clear: the full rows are gone, the others keep
/// their order and sink to the bottom, and empty rows fill the top.
pub open spec fn compacted(rows: Seq<Seq<u8>>, w: int) -> Seq<Seq<u8>> {
    Seq::new(full_count(rows) as nat, |i: int| empty_row(w)) + kept_rows(rows)
}

/// Indices of the full rows among rows `s` and below, bottom row first.
pub open spec fn full_rows_from(rows: Seq<Seq<u8>>, s: int) -> Seq<usize>
    decreases rows.len() - s,
{
    if s < 0 || s >= rows.len() {
        Seq::empty()
    } else {
        let rest = full_rows_from(rows, s + 1);
        if row_full(rows[s]) {
            rest.push(s as usize)
        } else {
            rest
        }
    }
}

/// Occupied cells in a row.
pub open spec fn row_count(row: Seq<u8>) -> int
    decreases row.len(),
{
    if row.len() == 0 {
        0
    } else {
        row_count(row.drop_last()) + if row.last() != 0 {
            1int
        } else {
            0int
        }
    }
}

/// Occupied cells in a sequence of rows.
pub open spec fn cells_count(rows: Seq<Seq<u8>>) -> int
    decreases rows.len(),
{
    if rows.len() == 0 {
        0
    } else {
        cells_count(rows.drop_last()) + row_count(rows.last())
    }
}

proof fn lemma_row_count_full(row: Seq<u8>)
    requires
        row_full(row),
    ensures
        row_count(row) == row.len(),
    decreases row.len(),
{
    if row.len() > 0 {
        assert(row.last() != 0);
        lemma_row_count_full(row.drop_last());
    }
}

proof fn lemma_row_count_empty(w: int)
    requires
        w >= 0,
    ensures
        row_count(empty_row(w)) == 0,
    decreases w,
{
    if w > 0 {
        assert(empty_row(w).drop_last() =~= empty_row(w - 1));
        lemma_row_count_empty(w - 1);
    }
}

proof fn lemma_cells_count_append(a: Seq<Seq<u8>>, b: Seq<Seq<u8>>)
    ensures
        cells_count(a + b) == cells_count(a) + cells_count(b),
    decreases b.len(),
{
    if b.len() > 0 {
        assert((a + b).drop_last() =~= a + b.drop_last());
        lemma_cells_count_append(a, b.drop_last());
    } else {
        assert(a + b =~= a);
    }
}

proof fn lemma_cells_count_empty_rows(k: int, w: int)
    requires
        k >= 0,
        w >= 0,
    ensures
        cells_count(Seq::new(k as nat, |i: int| empty_row(w))) == 0,
    decreases k,
{
    if k > 0 {
        assert(Seq::new(k as nat, |i: int| empty_row(w)).drop_last() =~= Seq::new(
            (k - 1) as nat,
            |i: int| empty_row(w),
        ));
        lemma_row_count_empty(w);
        lemma_cells_count_empty_rows(k - 1, w);
    }
}

proof fn lemma_cells_count_kept(rows: Seq<Seq<u8>>, w: int)
    requires
        forall|i: int| 0 <= i < rows.len() ==> (#[trigger] rows[i]).len() == w,
    ensures
        cells_count(rows) == cells_count(kept_rows(rows)) + w * full_count(rows),
    decreases rows.len(),
{
    if rows.len() == 0 {
        assert(kept_rows(rows) =~= Seq::<Seq<u8>>::empty());
        assert(full_count(rows) == 0);
        assert(w * full_count(rows) == 0) by (nonlinear_arith)
            requires
                full_count(rows) == 0,
        ;
    } else {
        let init = rows.drop_last();
        let last = rows.last();
        assert(init.push(last) =~= rows);
        init.lemma_filter_push(last, |r: Seq<u8>| row_kept(r));
        lemma_cells_count_kept(init, w);
        assert(last.len() == w);
        if row_kept(last) {
            let kept = kept_rows(init).push(last);
            assert(kept_rows(rows) == kept);
            assert(kept.drop_last() =~= kept_rows(init));
            assert(cells_count(kept) == cells_count(kept_rows(init)) + row_count(last));
            assert(full_count(rows) == full_count(init));
        } else {
            assert(kept_rows(rows) == kept_rows(init));
            lemma_row_count_full(last);
            assert(w * full_count(rows) == w * full_count(init) + w) by (nonlinear_arith)
                requires
                    full_count(rows) == full_count(init) + 1,
            ;
        }
    }
}

/// A line clear takes away exactly the cells of the full rows: the field
/// holds `w` occupied cells fewer for each full row, and no other cell comes
/// or goes.
pub proof fn lemma_clear_removes_full_rows(rows: Seq<Seq<u8>>, w: int)
    requires
        w >= 0,
        forall|i: int| 0 <= i < rows.len() ==> (#[trigger] rows[i]).len() == w,
    ensures
        cells_count(compacted(rows, w)) == cells_count(rows) - w * full_count(rows),
{
    rows.lemma_filter_len(|r: Seq<u8>| row_kept(r));
    lemma_cells_count_kept(rows, w);
    lemma_cells_count_append(
        Seq::new(full_count(rows) as nat, |i: int| empty_row(w)),
        kept_rows(rows),
    );
    lemma_cells_count_empty_rows(full_count(rows), w);
}

/// A cell index in row `y` lies in no other row.
pub proof fn lemma_rows_disjoint(i: int, y: int, d: int, w: int)
    requires
        y * w <= i < y * w + w,
        d * w <= i < d * w + w,
    ensures
        y == d,
{
    lemma_index_unique(y, i - y * w, d, i - d * w, w);
}

/// Two row-major indices into rows of `w` cells are equal only for the same
/// row and column.
pub proof fn lemma_index_unique(a1: int, b1: int, a2: int, b2: int, w: int)
    requires
        0 <= b1 < w,
        0 <= b2 < w,
        a1 * w + b1 == a2 * w + b2,
    ensures
        a1 == a2,
        b1 == b2,
{
    if a1 < a2 {
        lemma_mul_inequality(a1 + 1, a2, w);
        assert((a1 + 1) * w == a1 * w + w) by (nonlinear_arith);
    } else if a1 > a2 {
        lemma_mul_inequality(a2 + 1, a1, w);
        assert((a2 + 1) * w == a2 * w + w) by (nonlinear_arith);
    }
}

/// The index `y * w + x` of a cell in the field lies inside the bitmap.
pub proof fn lemma_cell_in_range(x: int, y: int, w: int, h: int)
    requires
        0 <= x < w,
        0 <= y < h,
    ensures
        0 <= y * w + x < w * h,
        0 <= y * w,
{
    lemma_mul_inequality(y + 1, h, w);
    assert((y + 1) * w == y * w + w) by (nonlinear_arith);
    assert(h * w == w * h) by (nonlinear_arith);
    assert(0 <= y * w) by (nonlinear_arith)
        requires
            0 <= y,
            0 <= x < w,
    ;
}

/// The playing field. `occupation` holds one entry per cell, row by row,
/// 0 for empty and 1 for occupied; `start_pos` is the anchor of the piece in
/// play; `lines_cleared` counts the lines cleared since the last level-up.
pub struct Matrix {
    pub field_width: usize,
    pub field_height: usize,
    pub occupation: Vec<u8>,
    pub create: bool,
    pub hard_dropping: bool,
    pub level: usize,
    pub game_over: bool,
    pub lines_cleared: usize,
    pub start_pos: MatrixPosition,
}

impl Matrix {
    pub open spec fn width(&self) -> int {
        self.field_width as int
    }

    pub open spec fn height(&self) -> int {
        self.field_height as int
    }

    /// Anchors that can be stored: a few cells around the field sideways and
    /// below, and up to `ANCHOR_FLOOR` above it.
    pub open spec fn anchor_ok(&self, p: MatrixPosition) -> bool {
        &&& -8 <= p.x <= self.width() + 8
        &&& ANCHOR_FLOOR <= p.y <= self.height() + 8
    }

    pub open spec fn wf(&self) -> bool {
        &&& 1 <= self.field_width <= MAX_FIELD_SIDE
        &&& 1 <= self.field_height <= MAX_FIELD_SIDE
        &&& self.occupation@.len() == self.width() * self.height()
        &&& forall|i: int| 0 <= i < self.occupation@.len() ==> #[trigger] self.occupation@[i] <= 1
        &&& 1 <= self.level <= MAX_LEVEL
        &&& self.anchor_ok(self.start_pos)
    }

    /// The bitmap entry of field column `x`, row `y`.
    pub open spec fn cell(&self, x: int, y: int) -> u8 {
        self.occupation@[y * self.width() + x]
    }

    /// Left, right and bottom walls and occupied cells collide; rows above
    /// the top of the field are open.
    pub open spec fn collides(&self, x: int, y: int) -> bool {
        x < 0 || x >= self.width() || y >= self.height() || (y >= 0 && self.cell(x, y) != 0)
    }

    /// A grid `data` of side `n` anchored at `p` has no occupied cell that
    /// collides, and the anchor can be stored.
    pub open spec fn fits(&self, data: Seq<u8>, n: int, p: MatrixPosition) -> bool {
        &&& self.anchor_ok(p)
        &&& forall|r: int, c: int|
            0 <= r < n && 0 <= c < n && #[trigger] grid_at(data, n, r, c) != 0 ==> !self.collides(
                p.x + c,
                p.y + r,
            )
    }

    /// The state of a field at the start of a game.
    pub open spec fn is_new_game(&self) -> bool {
        &&& self.field_width == FIELD_WIDTH
        &&& self.field_height == FIELD_HEIGHT
        &&& self.occupation@ == Seq::new((FIELD_WIDTH * FIELD_HEIGHT) as nat, |i: int| 0u8)
        &&& self.create
        &&& !self.hard_dropping
        &&& self.level == 1
        &&& !self.game_over
        &&& self.lines_cleared == 0
        &&& self.start_pos == MatrixPosition { x: START_X, y: START_Y }
    }

    /// The first kick, from pair `i` of the offset tables on, that makes the
    /// grid fit: pair `k` moves the anchor by `origin[k] - target[k]`.
    pub open spec fn first_kick(
        &self,
        data: Seq<u8>,
        n: int,
        p: MatrixPosition,
        origin: Seq<i8>,
        target: Seq<i8>,
        i: int,
    ) -> Option<MatrixPosition>
        decreases origin.len() - i,
    {
        if i < 0 || 2 * i + 1 >= origin.len() {
            None
        } else {
            let q = shifted(
                p,
                origin[2 * i] - target[2 * i],
                origin[2 * i + 1] - target[2 * i + 1],
            );
            if self.fits(data, n, q) {
                Some(q)
            } else {
                self.first_kick(data, n, p, origin, target, i + 1)
            }
        }
    }

    /// Where a rotation of `piece` (clockwise for `direction >= 0`) puts the
    /// anchor: in place if the turned grid fits there, else at the first kick
    /// that fits; `None` when nothing fits.
    pub open spec fn rotation_target(&self, piece: Tetromino, direction: i32) -> Option<
        MatrixPosition,
    > {
        let cw = direction >= 0;
        let n = piece.side();
        let data = rotated(piece.pieces_data@, n, cw);
        if self.fits(data, n, self.start_pos) {
            Some(self.start_pos)
        } else {
            self.first_kick(
                data,
                n,
                self.start_pos,
                offsets_for(piece.rotation, piece.ty),
                offsets_for(piece.rotation.turned(cw), piece.ty),
                0,
            )
        }
    }

    /// Row `y` of the bitmap.
    pub open spec fn row(&self, y: int) -> Seq<u8> {
        self.occupation@.subrange(y * self.width(), y * self.width() + self.width())
    }

    /// The bitmap as a sequence of rows, top row first.
    pub open spec fn rows(&self) -> Seq<Seq<u8>> {
        Seq::new(self.field_height as nat, |y: int| self.row(y))
    }

    /// The same field with another anchor.
    pub open spec fn with_anchor(self, p: MatrixPosition) -> Matrix {
        Matrix { start_pos: p, ..self }
    }

    /// Puts the anchor back where new pieces enter.
    pub fn reset_start_pos(&mut self)
        ensures
            *final(self) == old(self).with_anchor(MatrixPosition { x: START_X, y: START_Y }),
    {
        self.start_pos = MatrixPosition { x: START_X, y: START_Y };
    }

    /// Bitmap index of a cell inside the field.
    pub fn get_index(&self, pos: &MatrixPosition) -> (r: usize)
        requires
            self.wf(),
            0 <= pos.x < self.width(),
            0 <= pos.y < self.height(),
        ensures
            r == pos.y * self.width() + pos.x,
            r < self.occupation@.len(),
    {
        proof {
            lemma_cell_in_range(pos.x as int, pos.y as int, self.width(), self.height());
            assert(self.width() * self.height() <= MAX_FIELD_SIDE * MAX_FIELD_SIDE) by (nonlinear_arith)
                requires
                    1 <= self.width() <= MAX_FIELD_SIDE,
                    1 <= self.height() <= MAX_FIELD_SIDE,
            ;
        }
        pos.y as usize * self.field_width + pos.x as usize
    }

    /// Whether a cell collides: outside the walls or the floor, or occupied.
    pub fn check_collision(&self, pos: &MatrixPosition) -> (r: bool)
        requires
            self.wf(),
        ensures
            r == self.collides(pos.x as int, pos.y as int),
    {
        if pos.x < 0 || pos.x as i64 > self.field_width as i64 - 1 || pos.y as i64
            > self.field_height as i64 - 1 {
            return true;
        }
        if pos.y < 0 {
            return false;
        }
        let index = self.get_index(pos);
        self.occupation[index] != 0
    }

    /// Resets the field to the start of a new game.
    pub fn renew(&mut self)
        ensures
            final(self).is_new_game(),
            final(self).wf(),
    {
        *self = Matrix::default();
    }

    /// Whether a piece's grid anchored at `anchor` fits.
    pub fn piece_fits(&self, piece: &Tetromino, anchor: MatrixPosition) -> (r: bool)
        requires
            self.wf(),
            piece.wf(),
        ensures
            r == self.fits(piece.pieces_data@, piece.side(), anchor),
    {
        if (anchor.x as i64) < -8 || anchor.x as i64 > self.field_width as i64 + 8 || anchor.y
            < ANCHOR_FLOOR || anchor.y as i64 > self.field_height as i64 + 8 {
            return false;
        }
        let n = piece.ty.side();
        let ghost data = piece.pieces_data@;
        let mut r: usize = 0;
        while r < n
            invariant
                self.wf(),
                piece.wf(),
                data == piece.pieces_data@,
                n == piece.side(),
                self.anchor_ok(anchor),
                r <= n,
                forall|r2: int, c: int|
                    0 <= r2 < r && 0 <= c < n && #[trigger] grid_at(data, n as int, r2, c) != 0
                        ==> !self.collides(anchor.x + c, anchor.y + r2),
            decreases n - r,
        {
            let mut c: usize = 0;
            while c < n
                invariant
                    self.wf(),
                    piece.wf(),
                    data == piece.pieces_data@,
                    n == piece.side(),
                    self.anchor_ok(anchor),
                    r < n,
                    c <= n,
                    forall|r2: int, c2: int|
                        0 <= r2 < r && 0 <= c2 < n && #[trigger] grid_at(data, n as int, r2, c2)
                            != 0 ==> !self.collides(anchor.x + c2, anchor.y + r2),
                    forall|c2: int|
                        0 <= c2 < c && #[trigger] grid_at(data, n as int, r as int, c2) != 0
                            ==> !self.collides(anchor.x + c2, anchor.y + r),
                decreases n - c,
            {
                proof {
                    lemma_grid_split(r as int, c as int, n as int);
                }
                if piece.pieces_data[r * n + c] != 0 {
                    let pos = MatrixPosition { x: anchor.x + c as i32, y: anchor.y + r as i32 };
                    if self.check_collision(&pos) {
                        assert(grid_at(data, n as int, r as int, c as int) != 0);
                        return false;
                    }
                }
                c += 1;
            }
            r += 1;
        }
        true
    }

    /// Turns a square grid a quarter turn, clockwise or counter-clockwise,
    /// by remapping indices.
    pub fn rotate(&self, pieces_data: &[u8], clockwise: bool) -> (r: Vec<u8>)
        requires
            exists|n: int| #[trigger] is_grid_side(n, pieces_data@.len() as int),
        ensures
            forall|n: int|
                #[trigger] is_grid_side(n, pieces_data@.len() as int) ==> r@ == rotated(
                    pieces_data@,
                    n,
                    clockwise,
                ),
    {
        let ghost s = pieces_data@;
        let len = pieces_data.len();
        let row = square_side(len);
        proof {
            assert forall|m: int| #[trigger] is_grid_side(m, s.len() as int) implies m == row by {
                if m < row {
                    assert((m + 1) * (m + 1) <= row * row) by (nonlinear_arith)
                        requires
                            0 <= m < row,
                    ;
                    assert((m + 1) * (m + 1) == m * m + 2 * m + 1) by (nonlinear_arith);
                } else if m > row {
                    assert((row + 1) * (row + 1) <= m * m) by (nonlinear_arith)
                        requires
                            0 <= row < m,
                    ;
                }
            }
            let m = choose|m: int| #[trigger] is_grid_side(m, s.len() as int);
            assert(row * row == len);
        }
        let ghost goal = rotated(s, row as int, clockwise);
        let mut new_arr: Vec<u8> = Vec::new();
        let mut i: usize = 0;
        while i < row
            invariant
                s == pieces_data@,
                len == s.len(),
                row * row == len,
                goal == rotated(s, row as int, clockwise),
                i <= row,
                new_arr@ == goal.take(i * row),
            decreases row - i,
        {
            let mut j: usize = 0;
            while j < row
                invariant
                    s == pieces_data@,
                    len == s.len(),
                    row * row == len,
                    goal == rotated(s, row as int, clockwise),
                    i < row,
                    j <= row,
                    new_arr@ == goal.take(i * row + j),
                decreases row - j,
            {
                proof {
                    lemma_grid_split(i as int, j as int, row as int);
                    lemma_grid_split((row - 1 - j) as int, i as int, row as int);
                    lemma_grid_split(j as int, (row - 1 - i) as int, row as int);
                }
                let index = if clockwise {
                    (row - 1 - j) * row + i
                } else {
                    j * row + (row - 1 - i)
                };
                new_arr.push(pieces_data[index]);
                assert(new_arr@ =~= goal.take(i * row + j + 1));
                j += 1;
            }
            assert((i + 1) * row == i * row + row) by (nonlinear_arith);
            i += 1;
        }
        assert(goal.take(row * row) =~= goal);
        new_arr
    }

    /// Tries to turn the piece in play a quarter turn, clockwise for
    /// `direction >= 0`. The turned grid is tried at the current anchor, then
    /// at each kick of the piece's offset table in order; the first that fits
    /// wins and becomes the anchor. When none fits the field is unchanged and
    /// nothing is returned.
    pub fn can_rotate(&mut self, direction: i32, current_tetromino: &Tetromino) -> (r: Option<
        Tetromino,
    >)
        requires
            old(self).wf(),
            current_tetromino.wf(),
        ensures
            final(self).wf(),
            r.is_some() == old(self).rotation_target(*current_tetromino, direction).is_some(),
            r is None ==> *final(self) == *old(self),
            r matches Some(t) ==> {
                &&& old(self).rotation_target(*current_tetromino, direction) == Some(
                    final(self).start_pos,
                )
                &&& *final(self) == old(self).with_anchor(final(self).start_pos)
                &&& t.wf()
                &&& t.ty == current_tetromino.ty
                &&& t.rotation == current_tetromino.rotation.turned(direction >= 0)
                &&& t.pieces_data@ == rotated(
                    current_tetromino.pieces_data@,
                    current_tetromino.side(),
                    direction >= 0,
                )
                &&& t.position == final(self).start_pos
            },
    {
        let clockwise = direction >= 0;
        let new_rotation = if clockwise {
            current_tetromino.rotation.clockwise()
        } else {
            current_tetromino.rotation.counter_clockwise()
        };
        let ghost n = current_tetromino.side();
        assert(is_grid_side(n, current_tetromino.pieces_data@.len() as int));
        let new_pieces_data = self.rotate(current_tetromino.pieces_data.as_slice(), clockwise);
        let ghost data = new_pieces_data@;
        let mut new_tetromino = Tetromino {
            position: self.start_pos,
            ty: current_tetromino.ty,
            rotation: new_rotation,
            pieces_data: new_pieces_data,
        };
        assert(data == rotated(current_tetromino.pieces_data@, n, clockwise)) by {
            assert(is_grid_side(n, current_tetromino.pieces_data@.len() as int));
        }
        if self.piece_fits(&new_tetromino, self.start_pos) {
            return Some(new_tetromino);
        }
        let origin_offsets = get_offset_data(current_tetromino.rotation, current_tetromino.ty);
        let new_offsets = get_offset_data(new_rotation, current_tetromino.ty);
        let ghost o = origin_offsets@;
        let ghost t = new_offsets@;
        let ghost start = *self;
        let mut k: usize = 0;
        while 2 * k + 1 < origin_offsets.len()
            invariant
                *self == start,
                start == *old(self),
                start.wf(),
                new_tetromino.wf(),
                new_tetromino.pieces_data@ == data,
                new_tetromino.side() == n,
                new_tetromino.ty == current_tetromino.ty,
                new_tetromino.rotation == current_tetromino.rotation.turned(direction >= 0),
                data == rotated(current_tetromino.pieces_data@, n, direction >= 0),
                n == current_tetromino.side(),
                o == origin_offsets@,
                t == new_offsets@,
                o.len() == t.len(),
                o.len() <= 10,
                k <= 5,
                start.rotation_target(*current_tetromino, direction) == start.first_kick(
                    data,
                    n,
                    start.start_pos,
                    o,
                    t,
                    k as int,
                ),
            decreases o.len() - k,
        {
            let dx = origin_offsets[2 * k] as i32 - new_offsets[2 * k] as i32;
            let dy = origin_offsets[2 * k + 1] as i32 - new_offsets[2 * k + 1] as i32;
            let new_start_pos = MatrixPosition { x: self.start_pos.x + dx, y: self.start_pos.y + dy };
            assert(new_start_pos == shifted(
                start.start_pos,
                o[2 * k as int] - t[2 * k as int],
                o[2 * k + 1] - t[2 * k + 1],
            ));
            if self.piece_fits(&new_tetromino, new_start_pos) {
                assert(start.first_kick(data, n, start.start_pos, o, t, k as int) == Some(
                    new_start_pos,
                ));
                self.start_pos = new_start_pos;
                new_tetromino.position = new_start_pos;
                return Some(new_tetromino);
            }
            k += 1;
        }
        None
    }

    /// The bitmap has at most `MAX_FIELD_SIDE` squared cells.
    pub proof fn lemma_size(&self)
        requires
            self.wf(),
        ensures
            self.width() * self.height() <= MAX_FIELD_SIDE * MAX_FIELD_SIDE,
    {
        assert(self.width() * self.height() <= MAX_FIELD_SIDE * MAX_FIELD_SIDE) by (nonlinear_arith)
            requires
                1 <= self.width() <= MAX_FIELD_SIDE,
                1 <= self.height() <= MAX_FIELD_SIDE,
        ;
    }

    /// Whether every cell of row `y` is occupied.
    pub fn is_row_full(&self, y: usize) -> (r: bool)
        requires
            self.wf(),
            y < self.height(),
        ensures
            r == row_full(self.row(y as int)),
    {
        let w = self.field_width;
        proof {
            lemma_cell_in_range(w - 1, y as int, w as int, self.height());
            self.lemma_size();
        }
        let row_start = y * w;
        let mut x: usize = 0;
        while x < w
            invariant
                self.wf(),
                w == self.width(),
                y < self.height(),
                y * w + w <= self.occupation@.len(),
                0 <= y * w,
                row_start == y * w,
                self.occupation@.len() <= MAX_FIELD_SIDE * MAX_FIELD_SIDE,
                x <= w,
                forall|i: int| 0 <= i < x ==> #[trigger] self.row(y as int)[i] != 0,
            decreases w - x,
        {
            if self.occupation[row_start + x] == 0 {
                assert(self.row(y as int)[x as int] == 0);
                return false;
            }
            x += 1;
        }
        true
    }

    /// Copies row `from` onto row `to`; every other row stays.
    fn copy_row(&mut self, from: usize, to: usize)
        requires
            old(self).wf(),
            from < old(self).height(),
            to < old(self).height(),
        ensures
            final(self).wf(),
            *final(self) == (Matrix { occupation: final(self).occupation, ..*old(self) }),
            final(self).occupation@.len() == old(self).occupation@.len(),
            final(self).row(to as int) == old(self).row(from as int),
            forall|y: int|
                0 <= y < old(self).height() && y != to ==> #[trigger] final(self).row(y) == old(
                    self,
                ).row(y),
    {
        let w = self.field_width;
        let ghost h = self.height();
        let ghost start = *self;
        proof {
            lemma_cell_in_range(w - 1, from as int, w as int, h);
            lemma_cell_in_range(w - 1, to as int, w as int, h);
            self.lemma_size();
        }
        let from_start = from * w;
        let to_start = to * w;
        let mut x: usize = 0;
        while x < w
            invariant
                self.wf(),
                start.wf(),
                *self == (Matrix { occupation: self.occupation, ..start }),
                w == start.width(),
                h == start.height(),
                from < h,
                to < h,
                from * w + w <= start.occupation@.len(),
                to * w + w <= start.occupation@.len(),
                0 <= from * w,
                0 <= to * w,
                from_start == from * w,
                to_start == to * w,
                start.occupation@.len() <= MAX_FIELD_SIDE * MAX_FIELD_SIDE,
                x <= w,
                self.occupation@.len() == start.occupation@.len(),
                forall|i: int|
                    0 <= i < start.occupation@.len() ==> #[trigger] self.occupation@[i] == if to * w
                        <= i < to * w + x {
                        start.occupation@[i - to * w + from * w]
                    } else {
                        start.occupation@[i]
                    },
            decreases w - x,
        {
            let v = self.occupation[from_start + x];
            assert(v == start.occupation@[from * w + x]) by {
                if to * w <= from * w + x < to * w + x {
                    lemma_rows_disjoint(from * w + x, from as int, to as int, w as int);
                }
            }
            self.occupation.set(to_start + x, v);
            x += 1;
        }
        assert(self.row(to as int) =~= start.row(from as int));
        assert forall|y: int| 0 <= y < h && y != to implies #[trigger] self.row(y) == start.row(y) by {
            lemma_cell_in_range(w - 1, y, w as int, h);
            assert forall|i: int| y * w <= i < y * w + w implies self.occupation@[i]
                == start.occupation@[i] by {
                if to * w <= i < to * w + w {
                    lemma_rows_disjoint(i, y, to as int, w as int);
                }
            }
            assert(self.row(y) =~= start.row(y));
        }
    }

    /// Removes every full row at once. The rows that stay keep their order
    /// and sink past the removed ones in a single pass; the rows freed at the
    /// top are emptied. Returns the indices of the removed rows, bottom row
    /// first.
    pub fn clear_full_rows(&mut self) -> (r: Vec<usize>)
        requires
            old(self).wf(),
        ensures
            final(self).wf(),
            *final(self) == (Matrix { occupation: final(self).occupation, ..*old(self) }),
            final(self).rows() == compacted(old(self).rows(), old(self).width()),
            r@ == full_rows_from(old(self).rows(), 0),
            r@.len() == full_count(old(self).rows()),
    {
        let ghost start = *self;
        let ghost old_rows = start.rows();
        let ghost keep = |row: Seq<u8>| row_kept(row);
        let w = self.field_width;
        let h = self.field_height;
        let mut full_rows: Vec<usize> = Vec::new();
        let mut s: usize = h;
        let mut d: usize = h;
        assert(old_rows.subrange(h as int, h as int).filter(keep) =~= Seq::empty());
        assert(self.rows().subrange(h as int, h as int) =~= Seq::empty());
        while s > 0
            invariant
                self.wf(),
                start.wf(),
                *self == (Matrix { occupation: self.occupation, ..start }),
                old_rows == start.rows(),
                keep == (|row: Seq<u8>| row_kept(row)),
                w == start.width(),
                h == start.height(),
                s <= d <= h,
                forall|y: int| 0 <= y < s ==> #[trigger] self.row(y) == start.row(y),
                self.rows().subrange(d as int, h as int) == old_rows.subrange(s as int, h as int).filter(keep),
                full_rows@ == full_rows_from(old_rows, s as int),
                full_rows@.len() == d - s,
            decreases s,
        {
            s -= 1;
            let ghost before = *self;
            let ghost tail = old_rows.subrange(s + 1, h as int);
            assert(old_rows.subrange(s as int, h as int) =~= seq![old_rows[s as int]] + tail);
            proof {
                tail.lemma_filter_prepend(old_rows[s as int], keep);
            }
            assert(self.row(s as int) == old_rows[s as int]);
            if self.is_row_full(s) {
                full_rows.push(s);
            } else {
                d -= 1;
                self.copy_row(s, d);
                assert forall|y: int| 0 <= y < s implies #[trigger] self.row(y) == start.row(y) by {
                    assert(before.row(y) == start.row(y));
                }
                assert(self.rows().subrange(d as int, h as int) =~= seq![old_rows[s as int]]
                    + before.rows().subrange(d + 1, h as int)) by {
                    assert forall|y: int| d < y < h implies #[trigger] self.row(y) == before.row(y) by {}
                }
            }
        }
        assert(old_rows.subrange(0, h as int) =~= old_rows);
        let ghost kept = kept_rows(old_rows);
        assert(kept.len() == h - d);
        let ghost mid = *self;
        proof {
            self.lemma_size();
            assert(d * w <= w * h) by (nonlinear_arith)
                requires
                    d <= h,
                    w >= 0,
            ;
        }
        let top = d * w;
        let mut i: usize = 0;
        while i < top
            invariant
                self.wf(),
                mid.wf(),
                *self == (Matrix { occupation: self.occupation, ..mid }),
                top <= mid.occupation@.len(),
                i <= top,
                self.occupation@.len() == mid.occupation@.len(),
                forall|k: int|
                    0 <= k < mid.occupation@.len() ==> #[trigger] self.occupation@[k] == if k < i {
                        0u8
                    } else {
                        mid.occupation@[k]
                    },
            decreases top - i,
        {
            self.occupation.set(i, 0);
            i += 1;
        }
        assert forall|y: int| 0 <= y < h implies #[trigger] self.rows()[y] == compacted(
            old_rows,
            w as int,
        )[y] by {
            lemma_cell_in_range(w - 1, y, w as int, h as int);
            if y < d {
                assert((y + 1) * w <= d * w) by (nonlinear_arith)
                    requires
                        y + 1 <= d,
                        w >= 0,
                ;
                assert((y + 1) * w == y * w + w) by (nonlinear_arith);
                assert(self.row(y) =~= empty_row(w as int));
            } else {
                assert(y * w >= d * w) by (nonlinear_arith)
                    requires
                        y >= d,
                        w >= 0,
                ;
                assert(self.row(y) =~= mid.row(y));
                assert(mid.rows().subrange(d as int, h as int)[y - d] == mid.row(y));
            }
        }
        assert(self.rows() =~= compacted(old_rows, w as int));
        full_rows
    }

    /// Moves up a level once the lines cleared since the last level-up
    /// reach ten times the level: the level grows by one, up to `MAX_LEVEL`,
    /// and the count starts again from zero.
    pub fn advance_level_if_needed(&mut self)
        requires
            old(self).wf(),
        ensures
            final(self).wf(),
            old(self).lines_cleared >= old(self).level * LINES_PER_LEVEL ==> *final(self) == (
            Matrix {
                level: if old(self).level < MAX_LEVEL {
                    (old(self).level + 1) as usize
                } else {
                    MAX_LEVEL
                },
                lines_cleared: 0,
                ..*old(self)
            }),
            old(self).lines_cleared < old(self).level * LINES_PER_LEVEL ==> *final(self) == *old(
                self,
            ),
    {
        if self.lines_cleared >= self.level * LINES_PER_LEVEL {
            self.level = if self.level < MAX_LEVEL {
                self.level + 1
            } else {
                MAX_LEVEL
            };
            self.lines_cleared = 0;
        }
    }

    /// Whether the piece anchored at `start_pos` has a cell in the lock-out
    /// row or above it; locking such a piece ends the game.
    pub fn locks_out(&self, piece: &Tetromino) -> (r: bool)
        requires
            self.wf(),
            piece.wf(),
        ensures
            r == reaches_row(piece.pieces_data@, piece.side(), self.start_pos, LOCK_OUT_ROW as int),
    {
        let n = piece.ty.side();
        let ghost data = piece.pieces_data@;
        let mut r: usize = 0;
        while r < n
            invariant
                self.wf(),
                piece.wf(),
                data == piece.pieces_data@,
                n == piece.side(),
                r <= n,
                forall|r2: int, c: int|
                    0 <= r2 < r && 0 <= c < n && #[trigger] grid_at(data, n as int, r2, c) != 0
                        ==> self.start_pos.y + r2 > LOCK_OUT_ROW,
            decreases n - r,
        {
            let mut c: usize = 0;
            while c < n
                invariant
                    self.wf(),
                    piece.wf(),
                    data == piece.pieces_data@,
                    n == piece.side(),
                    r < n,
                    c <= n,
                    forall|r2: int, c2: int|
                        0 <= r2 < r && 0 <= c2 < n && #[trigger] grid_at(data, n as int, r2, c2)
                            != 0 ==> self.start_pos.y + r2 > LOCK_OUT_ROW,
                    forall|c2: int|
                        0 <= c2 < c && #[trigger] grid_at(data, n as int, r as int, c2) != 0
                            ==> self.start_pos.y + r > LOCK_OUT_ROW,
                decreases n - c,
            {
                proof {
                    lemma_grid_split(r as int, c as int, n as int);
                }
                if piece.pieces_data[r * n + c] != 0 && self.start_pos.y as i64 + r as i64
                    <= LOCK_OUT_ROW as i64 {
                    assert(grid_at(data, n as int, r as int, c as int) != 0);
                    return true;
                }
                c += 1;
            }
            r += 1;
        }
        false
    }

    /// Moves the anchor by (`dx`, `dy`) if the piece fits there; otherwise
    /// leaves the field as it is.
    pub fn try_move(&mut self, piece: &Tetromino, dx: i32, dy: i32) -> (r: bool)
        requires
            old(self).wf(),
            piece.wf(),
            -1 <= dx <= 1,
            -1 <= dy <= 1,
        ensures
            r == old(self).fits(
                piece.pieces_data@,
                piece.side(),
                shifted(old(self).start_pos, dx as int, dy as int),
            ),
            r ==> *final(self) == old(self).with_anchor(
                shifted(old(self).start_pos, dx as int, dy as int),
            ),
            !r ==> *final(self) == *old(self),
            final(self).wf(),
    {
        let target = MatrixPosition { x: self.start_pos.x + dx, y: self.start_pos.y + dy };
        if self.piece_fits(piece, target) {
            self.start_pos = target;
            true
        } else {
            false
        }
    }

    /// Rows a piece can fall from its anchor before it is blocked.
    pub fn drop_distance(&self, piece: &Tetromino) -> (d: i32)
        requires
            self.wf(),
            piece.wf(),
            self.fits(piece.pieces_data@, piece.side(), self.start_pos),
        ensures
            d >= 0,
            self.start_pos.y + d <= self.height() + 8,
            forall|k: int|
                0 <= k <= d ==> #[trigger] self.fits(
                    piece.pieces_data@,
                    piece.side(),
                    shifted(self.start_pos, 0, k),
                ),
            !self.fits(
                piece.pieces_data@,
                piece.side(),
                shifted(self.start_pos, 0, d + 1),
            ),
    {
        let mut d: i32 = 0;
        loop
            invariant
                self.wf(),
                piece.wf(),
                0 <= d,
                self.start_pos.y + d <= self.height() + 8,
                forall|k: int|
                    0 <= k <= d ==> #[trigger] self.fits(
                        piece.pieces_data@,
                        piece.side(),
                        shifted(self.start_pos, 0, k),
                    ),
            decreases self.height() + 8 - self.start_pos.y - d,
        {
            let below = MatrixPosition { x: self.start_pos.x, y: self.start_pos.y + d + 1 };
            if !self.piece_fits(piece, below) {
                return d;
            }
            d += 1;
        }
    }

    /// Writes the occupied cells of a piece anchored at `start_pos` into the
    /// bitmap. Cells above the top of the field have no entry and are left
    /// out.
    pub fn lock(&mut self, piece: &Tetromino)
        requires
            old(self).wf(),
            piece.wf(),
            old(self).fits(piece.pieces_data@, piece.side(), old(self).start_pos),
        ensures
            final(self).wf(),
            final(self).field_width == old(self).field_width,
            final(self).field_height == old(self).field_height,
            final(self).create == old(self).create,
            final(self).hard_dropping == old(self).hard_dropping,
            final(self).level == old(self).level,
            final(self).game_over == old(self).game_over,
            final(self).lines_cleared == old(self).lines_cleared,
            final(self).start_pos == old(self).start_pos,
            forall|x: int, y: int|
                0 <= x < old(self).width() && 0 <= y < old(self).height() ==> #[trigger] final(self).cell(x, y) == if covers(
                    piece.pieces_data@,
                    piece.side(),
                    old(self).start_pos,
                    x,
                    y,
                ) {
                    1u8
                } else {
                    old(self).cell(x, y)
                },
    {
        let n = piece.ty.side();
        let ghost data = piece.pieces_data@;
        let ghost nn = n as int;
        let ghost w = self.width();
        let ghost h = self.height();
        let ghost p = self.start_pos;
        let ghost start = *self;
        let mut r: usize = 0;
        while r < n
            invariant
                self.wf(),
                piece.wf(),
                data == piece.pieces_data@,
                n == piece.side(),
                nn == n,
                w == self.width(),
                h == self.height(),
                p == self.start_pos,
                start.wf(),
                start.fits(data, nn, p),
                start.width() == w,
                start.height() == h,
                self.field_width == start.field_width,
                self.field_height == start.field_height,
                self.create == start.create,
                self.hard_dropping == start.hard_dropping,
                self.level == start.level,
                self.game_over == start.game_over,
                self.lines_cleared == start.lines_cleared,
                self.start_pos == start.start_pos,
                r <= n,
                forall|x: int, y: int|
                    0 <= x < w && 0 <= y < h ==> #[trigger] self.cell(x, y) == if covers(
                        data,
                        nn,
                        p,
                        x,
                        y,
                    ) && (y - p.y) * nn + (x - p.x) < r * nn {
                        1u8
                    } else {
                        start.cell(x, y)
                    },
            decreases n - r,
        {
            let mut c: usize = 0;
            while c < n
                invariant
                    self.wf(),
                    piece.wf(),
                    data == piece.pieces_data@,
                    n == piece.side(),
                    nn == n,
                    w == self.width(),
                    h == self.height(),
                    p == self.start_pos,
                    start.wf(),
                    start.fits(data, nn, p),
                    start.width() == w,
                    start.height() == h,
                    self.field_width == start.field_width,
                    self.field_height == start.field_height,
                    self.create == start.create,
                    self.hard_dropping == start.hard_dropping,
                    self.level == start.level,
                    self.game_over == start.game_over,
                    self.lines_cleared == start.lines_cleared,
                    self.start_pos == start.start_pos,
                    r < n,
                    c <= n,
                    forall|x: int, y: int|
                        0 <= x < w && 0 <= y < h ==> #[trigger] self.cell(x, y) == if covers(
                            data,
                            nn,
                            p,
                            x,
                            y,
                        ) && (y - p.y) * nn + (x - p.x) < r * nn + c {
                            1u8
                        } else {
                            start.cell(x, y)
                        },
                decreases n - c,
            {
                proof {
                    lemma_grid_split(r as int, c as int, nn);
                }
                let t = r * n + c;
                let ghost before = *self;
                if piece.pieces_data[t] != 0 && self.start_pos.y + r as i32 >= 0 {
                    assert(grid_at(data, nn, r as int, c as int) != 0);
                    let pos = MatrixPosition {
                        x: self.start_pos.x + c as i32,
                        y: self.start_pos.y + r as i32,
                    };
                    let index = self.get_index(&pos);
                    self.occupation.set(index, 1);
                    assert forall|x: int, y: int| 0 <= x < w && 0 <= y < h implies #[trigger] self.cell(
                        x,
                        y,
                    ) == if covers(data, nn, p, x, y) && (y - p.y) * nn + (x - p.x) < r * nn + c
                        + 1 {
                        1u8
                    } else {
                        start.cell(x, y)
                    } by {
                        lemma_cell_in_range(x, y, w, h);
                        if x == pos.x && y == pos.y {
                        } else {
                            if y * w + x == pos.y * w + pos.x {
                                lemma_index_unique(y, x, pos.y as int, pos.x as int, w);
                            }
                            assert(self.cell(x, y) == before.cell(x, y));
                            if 0 <= x - p.x < nn && 0 <= y - p.y < nn && (y - p.y) * nn + (x
                                - p.x) == r * nn + c {
                                lemma_index_unique(y - p.y, x - p.x, r as int, c as int, nn);
                            }
                        }
                    }
                } else {
                    assert forall|x: int, y: int| 0 <= x < w && 0 <= y < h implies #[trigger] self.cell(
                        x,
                        y,
                    ) == if covers(data, nn, p, x, y) && (y - p.y) * nn + (x - p.x) < r * nn + c
                        + 1 {
                        1u8
                    } else {
                        start.cell(x, y)
                    } by {
                        if 0 <= x - p.x < nn && 0 <= y - p.y < nn && (y - p.y) * nn + (x - p.x)
                            == r * nn + c {
                            lemma_index_unique(y - p.y, x - p.x, r as int, c as int, nn);
                        }
                    }
                }
                c += 1;
            }
            assert((r + 1) * nn == r * nn + nn) by (nonlinear_arith);
            r += 1;
        }
        assert forall|x: int, y: int| 0 <= x < w && 0 <= y < h && covers(data, nn, p, x, y) implies (
        y - p.y) * nn + (x - p.x) < nn * nn by {
            lemma_grid_split(y - p.y, x - p.x, nn);
        }
    }
}

impl Default for Matrix {
    fn default() -> (r: Matrix)
        ensures
            r.is_new_game(),
            r.wf(),
    {
        let mut occupation: Vec<u8> = Vec::new();
        let mut i: usize = 0;
        while i < FIELD_WIDTH * FIELD_HEIGHT
            invariant
                i <= FIELD_WIDTH * FIELD_HEIGHT,
                occupation@ == Seq::new(i as nat, |k: int| 0u8),
            decreases FIELD_WIDTH * FIELD_HEIGHT - i,
        {
            occupation.push(0u8);
            assert(occupation@ =~= Seq::new((i + 1) as nat, |k: int| 0u8));
            i += 1;
        }
        Matrix {
            field_width: FIELD_WIDTH,
            field_height: FIELD_HEIGHT,
            occupation,
            create: true,
            hard_dropping: false,
            level: 1,
            game_over: false,
            lines_cleared: 0,
            start_pos: MatrixPosition { x: START_X, y: START_Y },
        }
    }
}

} // verus!
