//! Shape catalog: the seven piece types, their base occupancy grids, the
//! wall-kick offset tables, grid rotation, and the piece value itself.
use crate::position::MatrixPosition;
use rand::Rng;
use vstd::arithmetic::div_mod::{lemma_fundamental_div_mod, lemma_fundamental_div_mod_converse};
use vstd::prelude::*;

verus! {

/// The seven piece types.
#[derive(Debug, Clone, Copy, PartialEq, Eq, Structural, Hash, PartialOrd, Ord)]
pub enum TetrominoType {
    I,
    J,
    L,
    S,
    Z,
    T,
    O,
}

impl TetrominoType {
    /// Position of the type in the order I, J, L, S, Z, T, O.
    pub open spec fn index_spec(self) -> nat {
        match self {
            TetrominoType::I => 0,
            TetrominoType::J => 1,
            TetrominoType::L => 2,
            TetrominoType::S => 3,
            TetrominoType::Z => 4,
            TetrominoType::T => 5,
            TetrominoType::O => 6,
        }
    }

    /// The type at position `i` of the order I, J, L, S, Z, T, O; any
    /// position past the last one names the O piece.
    pub open spec fn from_index_spec(i: int) -> TetrominoType {
        if i == 0 {
            TetrominoType::I
        } else if i == 1 {
            TetrominoType::J
        } else if i == 2 {
            TetrominoType::L
        } else if i == 3 {
            TetrominoType::S
        } else if i == 4 {
            TetrominoType::Z
        } else if i == 5 {
            TetrominoType::T
        } else {
            TetrominoType::O
        }
    }

    /// Side of the square grid holding the shape: 4 for the long piece, 3
    /// for the others.
    pub open spec fn side_spec(self) -> nat {
        if self is I {
            4
        } else {
            3
        }
    }

    pub fn index(&self) -> (r: usize)
        ensures
            r == self.index_spec(),
    {
        match self {
            TetrominoType::I => 0,
            TetrominoType::J => 1,
            TetrominoType::L => 2,
            TetrominoType::S => 3,
            TetrominoType::Z => 4,
            TetrominoType::T => 5,
            TetrominoType::O => 6,
        }
    }

    pub fn from_index(i: usize) -> (r: TetrominoType)
        ensures
            r == Self::from_index_spec(i as int),
            i < 7 ==> r.index_spec() == i,
    {
        match i {
            0 => TetrominoType::I,
            1 => TetrominoType::J,
            2 => TetrominoType::L,
            3 => TetrominoType::S,
            4 => TetrominoType::Z,
            5 => TetrominoType::T,
            _ => TetrominoType::O,
        }
    }

    pub fn side(&self) -> (r: usize)
        ensures
            r == self.side_spec(),
    {
        match self {
            TetrominoType::I => 4,
            _ => 3,
        }
    }

    /// A piece type drawn uniformly at random.
    pub fn random() -> (r: TetrominoType) {
        TetrominoType::from_index(random_type_index())
    }
}

/// Relies on `rand::Rng::gen_range` over `rand::thread_rng()`: the value is
/// drawn from the half-open range `0..7`.
#[verifier::external_body]
fn random_type_index() -> (r: usize)
    ensures
        r < 7,
{
    rand::thread_rng().gen_range(0..7)
}

/// Rotation state of a piece: 0, 90, 180 or 270 degrees clockwise.
#[derive(Debug, Clone, Copy, PartialEq, Eq, Structural, Hash)]
pub enum Rotation {
    R0,
    R1,
    R2,
    R3,
}

impl Rotation {
    pub open spec fn index_spec(self) -> nat {
        match self {
            Rotation::R0 => 0,
            Rotation::R1 => 1,
            Rotation::R2 => 2,
            Rotation::R3 => 3,
        }
    }

    /// The state after a quarter turn in the given direction.
    pub open spec fn turned(self, clockwise: bool) -> Rotation {
        match self {
            Rotation::R0 => if clockwise { Rotation::R1 } else { Rotation::R3 },
            Rotation::R1 => if clockwise { Rotation::R2 } else { Rotation::R0 },
            Rotation::R2 => if clockwise { Rotation::R3 } else { Rotation::R1 },
            Rotation::R3 => if clockwise { Rotation::R0 } else { Rotation::R2 },
        }
    }

    pub fn index(&self) -> (r: usize)
        ensures
            r == self.index_spec(),
    {
        match self {
            Rotation::R0 => 0,
            Rotation::R1 => 1,
            Rotation::R2 => 2,
            Rotation::R3 => 3,
        }
    }

    /// The next state in the cycle 0, 1, 2, 3, 0.
    pub fn clockwise(&self) -> (r: Rotation)
        ensures
            r.index_spec() == (self.index_spec() + 1) % 4,
            r == self.turned(true),
    {
        match *self {
            Rotation::R0 => Rotation::R1,
            Rotation::R1 => Rotation::R2,
            Rotation::R2 => Rotation::R3,
            Rotation::R3 => Rotation::R0,
        }
    }

    /// The previous state in the cycle 0, 1, 2, 3, 0.
    pub fn counter_clockwise(&self) -> (r: Rotation)
        ensures
            r.index_spec() == (self.index_spec() + 3) % 4,
            r == self.turned(false),
    {
        match *self {
            Rotation::R0 => Rotation::R3,
            Rotation::R1 => Rotation::R0,
            Rotation::R2 => Rotation::R1,
            Rotation::R3 => Rotation::R2,
        }
    }
}

/// The base occupancy grid of each type, row by row, 1 for an occupied cell.
pub open spec fn base_shape(ty: TetrominoType) -> Seq<u8> {
    match ty {
        TetrominoType::I => seq![1u8, 1, 1, 1, 0, 0, 0, 0, 0, 0, 0, 0, 0, 0, 0, 0],
        TetrominoType::J => seq![1u8, 0, 0, 1, 1, 1, 0, 0, 0],
        TetrominoType::L => seq![0u8, 0, 1, 1, 1, 1, 0, 0, 0],
        TetrominoType::S => seq![0u8, 1, 1, 1, 1, 0, 0, 0, 0],
        TetrominoType::Z => seq![1u8, 1, 0, 0, 1, 1, 0, 0, 0],
        TetrominoType::T => seq![0u8, 1, 0, 1, 1, 1, 0, 0, 0],
        TetrominoType::O => seq![0u8, 1, 1, 0, 1, 1, 0, 0, 0],
    }
}

/// Rows laid end to end.
pub open spec fn flatten_rows(rows: Seq<Seq<u8>>) -> Seq<u8>
    decreases rows.len(),
{
    if rows.len() == 0 {
        Seq::empty()
    } else {
        flatten_rows(rows.drop_last()) + rows.last()
    }
}

pub open spec fn grid_rows<const R: usize>(array: [[u8; R]; R]) -> Seq<Seq<u8>> {
    array@.map_values(|row: [u8; R]| row@)
}

/// Lays the rows of a square grid end to end.
pub fn array_to_vec<const R: usize>(array: [[u8; R]; R]) -> (r: Vec<u8>)
    ensures
        r@ == flatten_rows(grid_rows(array)),
{
    let ghost rows = grid_rows(array);
    let mut v: Vec<u8> = Vec::new();
    for i in 0..R
        invariant
            rows == grid_rows(array),
            rows.len() == R,
            v@ == flatten_rows(rows.take(i as int)),
    {
        let ghost before = v@;
        for j in 0..R
            invariant
                rows == grid_rows(array),
                rows.len() == R,
                i < R,
                rows[i as int].len() == R,
                v@ == before + rows[i as int].take(j as int),
        {
            v.push(array[i][j]);
            assert(v@ =~= before + rows[i as int].take(j + 1));
        }
        assert(rows.take(i + 1).drop_last() =~= rows.take(i as int));
        assert(rows[i as int].take(R as int) =~= rows[i as int]);
    }
    assert(rows.take(R as int) =~= rows);
    v
}

/// The base occupancy grid of a type, row by row.
pub fn get_pieces_data(ty: TetrominoType) -> (r: Vec<u8>)
    ensures
        r@ == base_shape(ty),
        r@.len() == ty.side_spec() * ty.side_spec(),
{
    let r = match ty {
        TetrominoType::I => array_to_vec([[1, 1, 1, 1], [0, 0, 0, 0], [0, 0, 0, 0], [0, 0, 0, 0]]),
        TetrominoType::J => array_to_vec([[1, 0, 0], [1, 1, 1], [0, 0, 0]]),
        TetrominoType::L => array_to_vec([[0, 0, 1], [1, 1, 1], [0, 0, 0]]),
        TetrominoType::S => array_to_vec([[0, 1, 1], [1, 1, 0], [0, 0, 0]]),
        TetrominoType::Z => array_to_vec([[1, 1, 0], [0, 1, 1], [0, 0, 0]]),
        TetrominoType::T => array_to_vec([[0, 1, 0], [1, 1, 1], [0, 0, 0]]),
        TetrominoType::O => array_to_vec([[0, 1, 1], [0, 1, 1], [0, 0, 0]]),
    };
    proof {
        reveal_with_fuel(flatten_rows, 5);
    }
    assert(r@ =~= base_shape(ty));
    r
}

/// Kick offsets of the J, L, S, T and Z pieces: for each rotation state, five
/// (x, y) pairs in priority order.
pub open spec fn offsets_jlstz() -> Seq<i8> {
    seq![0i8, 0i8, 0i8, 0i8, 0i8, 0i8, 0i8, 0i8, 0i8, 0i8, 0i8, 0i8, 1i8, 0i8, 1i8, -1i8, 0i8, 2i8, 1i8, 2i8, 0i8, 0i8, 0i8, 0i8, 0i8, 0i8, 0i8, 0i8, 0i8, 0i8, 0i8, 0i8, -1i8, 0i8, -1i8, -1i8, 0i8, 2i8, -1i8, 2i8]
}

/// Kick offsets of the long piece: for each rotation state, five (x, y) pairs.
pub open spec fn offsets_i() -> Seq<i8> {
    seq![0i8, 0i8, -1i8, 0i8, 2i8, 0i8, -1i8, 0i8, 2i8, 0i8, -1i8, 0i8, 0i8, 0i8, 0i8, 0i8, 0i8, 1i8, 0i8, -2i8, -1i8, 1i8, 1i8, 1i8, -2i8, 1i8, 1i8, 0i8, -2i8, 0i8, 0i8, 1i8, 0i8, 1i8, 0i8, 1i8, 0i8, -1i8, 0i8, 2i8]
}

/// Kick offsets of the square piece: for each rotation state, one (x, y) pair.
pub open spec fn offsets_o() -> Seq<i8> {
    seq![0i8, 0i8, 0i8, -1i8, -1i8, -1i8, -1i8, 0i8]
}

/// The whole offset table that a type uses.
pub open spec fn offset_table(ty: TetrominoType) -> Seq<i8> {
    match ty {
        TetrominoType::I => offsets_i(),
        TetrominoType::O => offsets_o(),
        _ => offsets_jlstz(),
    }
}

/// Number of table entries per rotation state: two per (x, y) pair.
pub open spec fn offset_stride(ty: TetrominoType) -> nat {
    if ty is O {
        2
    } else {
        10
    }
}

/// The offset pairs of one rotation state, flattened as x0, y0, x1, y1, ...
pub open spec fn offsets_for(rotation: Rotation, ty: TetrominoType) -> Seq<i8> {
    let k = offset_stride(ty) as int;
    let r = rotation.index_spec() as int;
    offset_table(ty).subrange(k * r, k * (r + 1))
}

fn offset_table_vec(ty: TetrominoType) -> (r: Vec<i8>)
    ensures
        r@ == offset_table(ty),
        r@.len() == 4 * offset_stride(ty),
{
    match ty {
        TetrominoType::I => vec![0, 0, -1, 0, 2, 0, -1, 0, 2, 0, -1, 0, 0, 0, 0, 0, 0, 1, 0, -2, -1, 1, 1, 1, -2, 1, 1, 0, -2, 0, 0, 1, 0, 1, 0, 1, 0, -1, 0, 2],
        TetrominoType::O => vec![0, 0, 0, -1, -1, -1, -1, 0],
        _ => vec![0, 0, 0, 0, 0, 0, 0, 0, 0, 0, 0, 0, 1, 0, 1, -1, 0, 2, 1, 2, 0, 0, 0, 0, 0, 0, 0, 0, 0, 0, 0, 0, -1, 0, -1, -1, 0, 2, -1, 2],
    }
}

/// The kick offsets of a type in a rotation state, in priority order.
pub fn get_offset_data(rotation: Rotation, ty: TetrominoType) -> (r: Vec<i8>)
    ensures
        r@ == offsets_for(rotation, ty),
        r@.len() == offset_stride(ty),
{
    let table = offset_table_vec(ty);
    let stride: usize = if matches!(ty, TetrominoType::O) { 2 } else { 10 };
    let start: usize = stride * rotation.index();
    let mut r: Vec<i8> = Vec::new();
    let mut i: usize = start;
    while i < start + stride
        invariant
            stride == offset_stride(ty),
            start == stride * rotation.index_spec(),
            table@ == offset_table(ty),
            table@.len() == 4 * stride,
            start <= i <= start + stride,
            r@ == table@.subrange(start as int, i as int),
        decreases start + stride - i,
    {
        r.push(table[i]);
        assert(r@ =~= table@.subrange(start as int, i + 1));
        i += 1;
    }
    r
}

/// The grid turned a quarter turn: clockwise, new cell (i, j) is old cell
/// (n - 1 - j, i); counter-clockwise, it is old cell (j, n - 1 - i).
pub open spec fn rotated(s: Seq<u8>, n: int, clockwise: bool) -> Seq<u8> {
    Seq::new(
        s.len(),
        |k: int|
            if clockwise {
                s[(n - 1 - k % n) * n + k / n]
            } else {
                s[(k % n) * n + (n - 1 - k / n)]
            },
    )
}

pub proof fn lemma_grid_split(i: int, j: int, n: int)
    requires
        0 <= i < n,
        0 <= j < n,
    ensures
        (i * n + j) / n == i,
        (i * n + j) % n == j,
        0 <= i * n + j < n * n,
{
    lemma_fundamental_div_mod_converse(i * n + j, n, i, j);
    assert(0 <= i * n + j < n * n) by (nonlinear_arith)
        requires
            0 <= i < n,
            0 <= j < n,
    ;
}

pub proof fn lemma_grid_index(k: int, n: int)
    requires
        n > 0,
        0 <= k < n * n,
    ensures
        0 <= k / n < n,
        0 <= k % n < n,
        k == (k / n) * n + k % n,
{
    lemma_fundamental_div_mod(k, n);
    assert(n * (k / n) == (k / n) * n) by (nonlinear_arith);
    let q = k / n;
    let r = k % n;
    assert(0 <= q < n) by (nonlinear_arith)
        requires
            k == n * q + r,
            0 <= r < n,
            0 <= k < n * n,
    ;
}

proof fn lemma_rotated_twice(s: Seq<u8>, n: int, clockwise: bool)
    requires
        n > 0,
        s.len() == n * n,
    ensures
        rotated(rotated(s, n, clockwise), n, clockwise) =~= Seq::new(
            s.len(),
            |k: int| s[n * n - 1 - k],
        ),
{
    let r1 = rotated(s, n, clockwise);
    let r2 = rotated(r1, n, clockwise);
    assert forall|k: int| 0 <= k < s.len() implies r2[k] == s[n * n - 1 - k] by {
        lemma_grid_index(k, n);
        let i = k / n;
        let j = k % n;
        let k2 = if clockwise {
            (n - 1 - j) * n + i
        } else {
            j * n + (n - 1 - i)
        };
        if clockwise {
            lemma_grid_split(n - 1 - j, i, n);
        } else {
            lemma_grid_split(j, n - 1 - i, n);
        }
        lemma_grid_split(n - 1 - i, n - 1 - j, n);
        assert((n - 1 - i) * n + (n - 1 - j) == n * n - 1 - k) by (nonlinear_arith)
            requires
                k == i * n + j,
        ;
        assert(r2[k] == r1[k2]);
    }
}

/// Four quarter turns in the same direction give back the grid, bit for bit.
pub proof fn lemma_rotate_four_times(s: Seq<u8>, n: int, clockwise: bool)
    requires
        n > 0,
        s.len() == n * n,
    ensures
        rotated(rotated(rotated(rotated(s, n, clockwise), n, clockwise), n, clockwise), n, clockwise)
            == s,
{
    let half = rotated(rotated(s, n, clockwise), n, clockwise);
    lemma_rotated_twice(s, n, clockwise);
    lemma_rotated_twice(half, n, clockwise);
    let back = rotated(rotated(half, n, clockwise), n, clockwise);
    assert forall|k: int| 0 <= k < s.len() implies back[k] == s[k] by {
        assert(n * n - 1 - (n * n - 1 - k) == k);
    }
    assert(back =~= s);
}

/// Whether a grid of `len` cells is square with side `n`.
pub open spec fn is_grid_side(n: int, len: int) -> bool {
    0 <= n && n * n == len
}

/// Whether `n` is the whole square root of `len`, rounded down.
pub open spec fn is_square_side(n: int, len: int) -> bool {
    0 <= n && n * n <= len < (n + 1) * (n + 1)
}

/// Whole square root, rounded down.
pub fn square_side(len: usize) -> (r: usize)
    ensures
        is_square_side(r as int, len as int),
{
    let mut r: usize = 0;
    let mut done = false;
    while !done
        invariant
            r <= len,
            r * r <= len,
            done ==> len < (r + 1) * (r + 1),
        decreases len - r + (if done { 0int } else { 1int }),
    {
        if r >= len {
            assert(len < (r + 1) * (r + 1)) by (nonlinear_arith)
                requires
                    r >= len,
                    r >= 0,
            ;
            done = true;
        } else {
            assert((r as u128 + 1) * (r as u128 + 1) <= 0xffff_ffff_ffff_ffff_ffff_ffff_ffff_ffffu128)
                by (nonlinear_arith)
                requires
                    r < len,
                    len <= 0xffff_ffff_ffff_ffffu128,
            ;
            let next = (r as u128 + 1) * (r as u128 + 1);
            if next <= len as u128 {
                r = r + 1;
            } else {
                done = true;
            }
        }
    }
    r
}

/// Splits a grid laid out row by row into rows, as many whole rows of the
/// rounded-down square root of its length as it holds.
pub fn vec_to_array(vec: Vec<u8>) -> (r: Vec<Vec<u8>>)
    requires
        vec.len() > 0,
    ensures
        exists|n: int|
            #![trigger is_square_side(n, vec@.len() as int)]
            is_square_side(n, vec@.len() as int) && n > 0 && r.len() == (vec@.len() as int) / n && forall|
                i: int,
            |
                0 <= i < r.len() ==> #[trigger] r[i]@ == vec@.subrange(i * n, i * n + n),
{
    let len = vec.len();
    let n = square_side(len);
    assert(n > 0) by (nonlinear_arith)
        requires
            len < (n + 1) * (n + 1),
            len > 0,
            n >= 0,
    ;
    let count = len / n;
    let mut rows: Vec<Vec<u8>> = Vec::new();
    let mut i: usize = 0;
    while i < count
        invariant
            n > 0,
            count == len / n,
            len == vec@.len(),
            i <= count,
            rows.len() == i,
            forall|k: int| 0 <= k < i ==> #[trigger] rows[k]@ == vec@.subrange(k * n, k * n + n),
        decreases count - i,
    {
        assert(i * n + n <= len) by (nonlinear_arith)
            requires
                i < count,
                count == len / n,
                n > 0,
        {
            vstd::arithmetic::div_mod::lemma_fundamental_div_mod(len as int, n as int);
        }
        let start = i * n;
        let mut row: Vec<u8> = Vec::new();
        let mut j: usize = 0;
        while j < n
            invariant
                n > 0,
                len == vec@.len(),
                start == i * n,
                start + n <= len,
                j <= n,
                row@ == vec@.subrange(start as int, start + j),
            decreases n - j,
        {
            row.push(vec[start + j]);
            assert(row@ =~= vec@.subrange(start as int, start + j + 1));
            j += 1;
        }
        rows.push(row);
        i += 1;
    }
    assert(is_square_side(n as int, len as int));
    rows
}

/// One piece: its type, rotation state, current occupancy grid (already
/// rotated, row by row) and the anchor it was placed at.
#[derive(Debug, Clone)]
pub struct Tetromino {
    pub position: MatrixPosition,
    pub ty: TetrominoType,
    pub rotation: Rotation,
    pub pieces_data: Vec<u8>,
}

/// The occupied cells among the first `k` cells of a grid of side `n`, in
/// row-major order, each as (column, row) inside the grid.
pub open spec fn blocks_upto(data: Seq<u8>, n: int, k: int) -> Seq<MatrixPosition>
    decreases k,
{
    if k <= 0 {
        Seq::empty()
    } else {
        let prev = blocks_upto(data, n, k - 1);
        if data[k - 1] != 0 {
            prev.push(MatrixPosition { x: ((k - 1) % n) as i32, y: ((k - 1) / n) as i32 })
        } else {
            prev
        }
    }
}

impl Tetromino {
    /// Side of the piece's grid.
    pub open spec fn side(&self) -> int {
        self.ty.side_spec() as int
    }

    /// The grid is square, of the side its type has.
    pub open spec fn wf(&self) -> bool {
        self.pieces_data@.len() == self.side() * self.side()
    }

    /// A piece of type `ty` as it enters play: base shape, rotation 0.
    pub open spec fn is_fresh(&self, position: MatrixPosition, ty: TetrominoType) -> bool {
        &&& self.position == position
        &&& self.ty == ty
        &&& self.rotation == Rotation::R0
        &&& self.pieces_data@ == base_shape(ty)
    }

    /// A piece of the given type in its base shape.
    pub fn with_type(position: MatrixPosition, ty: TetrominoType) -> (r: Tetromino)
        ensures
            r.is_fresh(position, ty),
            r.wf(),
    {
        Tetromino { position, ty, rotation: Rotation::R0, pieces_data: get_pieces_data(ty) }
    }

    /// A piece of a randomly drawn type in its base shape.
    pub fn new(position: MatrixPosition) -> (r: Tetromino)
        ensures
            r.is_fresh(position, r.ty),
            r.wf(),
    {
        Tetromino::with_type(position, TetrominoType::random())
    }

    /// The occupied cells of the grid, row by row, as (column, row) inside
    /// the grid.
    pub fn get_blocks_position(&self) -> (r: Vec<MatrixPosition>)
        requires
            self.wf(),
        ensures
            r@ == blocks_upto(self.pieces_data@, self.side(), self.pieces_data@.len() as int),
    {
        let n = self.ty.side();
        let mut r: Vec<MatrixPosition> = Vec::new();
        let mut k: usize = 0;
        while k < self.pieces_data.len()
            invariant
                self.wf(),
                n == self.side(),
                k <= self.pieces_data@.len(),
                r@ == blocks_upto(self.pieces_data@, n as int, k as int),
            decreases self.pieces_data@.len() - k,
        {
            if self.pieces_data[k] != 0 {
                r.push(MatrixPosition { x: (k % n) as i32, y: (k / n) as i32 });
            }
            k += 1;
        }
        r
    }
}

} // verus!
