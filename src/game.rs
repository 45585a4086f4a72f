//! The per-tick simulation step: one intent and the elapsed time in, moves,
//! rotations, drops, locking, line clears, scoring, levels and spawning out.
use crate::global::{
    fall_period, get_falling_speed, score_of, LINES_PER_LEVEL, LOCK_OUT_ROW, MAX_LEVEL, START_X,
    START_Y,
};
use crate::matrix::{
    compacted, covers, full_count, grid_at, reaches_row, shifted, Matrix,
};
use crate::position::MatrixPosition;
use crate::queue::HoldOnQueueResoure;
use crate::score::{capped_sum, Score, ScoreAction, ScoreEvent};
use crate::tetromino::{rotated, Rotation, Tetromino, TetrominoType};
use crate::timer::SoftDropTimer;
use vstd::prelude::*;

verus! {

/// What the player asks for in one tick.
#[derive(Debug, Clone, Copy, PartialEq, Eq, Structural)]
pub enum Intent {
    Idle,
    MoveLeft,
    MoveRight,
    RotateCW,
    RotateCCW,
    SoftDrop,
    HardDrop,
}

/// The anchor at which new pieces enter the field.
pub open spec fn spawn_anchor() -> MatrixPosition {
    MatrixPosition { x: START_X, y: START_Y }
}

/// The anchor, grid and rotation state of the piece in play after one
/// intent; moves and rotations that do not fit change nothing.
pub open spec fn after_intent(m: Matrix, piece: Tetromino, intent: Intent) -> (
    MatrixPosition,
    Seq<u8>,
    Rotation,
) {
    let a = m.start_pos;
    let n = piece.side();
    let data = piece.pieces_data@;
    match intent {
        Intent::MoveLeft => (
            if m.fits(data, n, shifted(a, -1, 0)) {
                shifted(a, -1, 0)
            } else {
                a
            },
            data,
            piece.rotation,
        ),
        Intent::MoveRight => (
            if m.fits(data, n, shifted(a, 1, 0)) {
                shifted(a, 1, 0)
            } else {
                a
            },
            data,
            piece.rotation,
        ),
        Intent::RotateCW => match m.rotation_target(piece, 1i32) {
            Some(p) => (p, rotated(data, n, true), piece.rotation.turned(true)),
            None => (a, data, piece.rotation),
        },
        Intent::RotateCCW => match m.rotation_target(piece, -1i32) {
            Some(p) => (p, rotated(data, n, false), piece.rotation.turned(false)),
            None => (a, data, piece.rotation),
        },
        _ => (a, data, piece.rotation),
    }
}

/// A fall of `d` rows from `a`: every row on the way fits, one more does not.
pub open spec fn is_drop_distance(m: Matrix, data: Seq<u8>, n: int, a: MatrixPosition, d: int) -> bool {
    &&& d >= 0
    &&& a.y + d <= m.height() + 8
    &&& forall|k: int| 0 <= k <= d ==> #[trigger] m.fits(data, n, shifted(a, 0, k))
    &&& !m.fits(data, n, shifted(a, 0, d + 1))
}

/// A piece that falls with nothing below it in its columns comes to rest on
/// the floor: after a fall of `d` rows no cell is below the last row, and its
/// lowest cell is on it, so `d` is the last row less the row of that cell.
pub proof fn lemma_unobstructed_drop(m: Matrix, data: Seq<u8>, n: int, a: MatrixPosition, d: int)
    requires
        m.wf(),
        is_drop_distance(m, data, n, a, d),
        exists|r: int, c: int| 0 <= r < n && 0 <= c < n && #[trigger] grid_at(data, n, r, c) != 0,
        forall|r: int, c: int, y: int|
            0 <= r < n && 0 <= c < n && #[trigger] grid_at(data, n, r, c) != 0 && 0 <= y < m.height()
                && a.y + r <= y ==> #[trigger] m.cell(a.x + c, y) == 0,
    ensures
        forall|r: int, c: int|
            0 <= r < n && 0 <= c < n && #[trigger] grid_at(data, n, r, c) != 0 ==> a.y + d + r
                <= m.height() - 1,
        exists|r: int, c: int|
            0 <= r < n && 0 <= c < n && #[trigger] grid_at(data, n, r, c) != 0 && a.y + d + r
                == m.height() - 1,
{
    let at = shifted(a, 0, d);
    let next = shifted(a, 0, d + 1);
    assert(m.fits(data, n, at));
    let (r0, c0) = choose|r: int, c: int| 0 <= r < n && 0 <= c < n && #[trigger] grid_at(data, n, r, c) != 0;
    assert(!m.collides(at.x + c0, at.y + r0));
    assert(m.anchor_ok(next));
    let (r1, c1) = choose|r: int, c: int|
        0 <= r < n && 0 <= c < n && #[trigger] grid_at(data, n, r, c) != 0 && m.collides(
            next.x + c,
            next.y + r,
        );
    assert(!m.collides(at.x + c1, at.y + r1));
    if a.y + d + 1 + r1 < m.height() {
        assert(m.cell(a.x + c1, a.y + d + 1 + r1) == 0);
    }
    assert(a.y + d + r1 == m.height() - 1);
}

/// `new` is `old` with the grid `data` locked in at anchor `p`: its cells
/// are occupied, and the game is over when one of them reaches the lock-out
/// row; otherwise the field waits for the next piece.
pub open spec fn locked_at(old: Matrix, new: Matrix, data: Seq<u8>, n: int, p: MatrixPosition) -> bool {
    &&& new.field_width == old.field_width
    &&& new.field_height == old.field_height
    &&& new.level == old.level
    &&& new.lines_cleared == old.lines_cleared
    &&& new.start_pos == p
    &&& !new.hard_dropping
    &&& new.game_over == reaches_row(data, n, p, LOCK_OUT_ROW as int)
    &&& new.create == !new.game_over
    &&& forall|x: int, y: int|
        0 <= x < old.width() && 0 <= y < old.height() ==> #[trigger] new.cell(x, y) == if covers(
            data,
            n,
            p,
            x,
            y,
        ) {
            1u8
        } else {
            old.cell(x, y)
        }
}

/// `new` is `old` after recording `events` (none or one) at `level`.
pub open spec fn records(old: Score, new: Score, level: int, events: Seq<ScoreEvent>) -> bool {
    if events.len() == 0 {
        new.value == old.value && new.cleared_lines@ == old.cleared_lines@
    } else {
        let e = events[0];
        let k = e.action.kind_spec() as int;
        &&& events.len() == 1
        &&& new.value == capped_sum(old.value as int, score_of(level, e.action))
        &&& new.cleared_lines@ == old.cleared_lines@.update(
            k,
            capped_sum(old.cleared_lines@[k] as int, e.cleared_lines as int) as usize,
        )
    }
}

/// The whole game: the field, the queue of upcoming pieces, the piece in
/// play, the gravity timer and the score.
pub struct Game {
    pub matrix: Matrix,
    pub queue: HoldOnQueueResoure,
    pub current: Option<Tetromino>,
    pub timer: SoftDropTimer,
    pub score: Score,
}

impl Game {
    pub open spec fn wf(&self) -> bool {
        &&& self.matrix.wf()
        &&& self.queue.wf()
        &&& self.timer.wf()
        &&& self.score.wf()
        &&& self.queue.start_pos == spawn_anchor()
        &&& self.matrix.lines_cleared < self.matrix.level * LINES_PER_LEVEL
        &&& self.matrix.game_over ==> self.current is None
        &&& self.current is None && !self.matrix.game_over ==> self.matrix.create
        &&& self.current matches Some(p) ==> {
            &&& p.wf()
            &&& self.matrix.fits(p.pieces_data@, p.side(), self.matrix.start_pos)
            &&& p.position == self.matrix.start_pos
            &&& !self.matrix.create
        }
    }

    /// A tick with no piece in play: clear full rows, score them, count
    /// them toward the level, then bring in the front piece of the queue,
    /// refilled with a piece of type `ty`. The game is over when that piece
    /// does not fit at the entry anchor.
    pub open spec fn spawn_step(self, new: Game, ty: TetrominoType, events: Seq<ScoreEvent>) -> bool {
        let m = self.matrix;
        let rows = m.rows();
        let k = full_count(rows);
        let lines = m.lines_cleared + k;
        let up = lines >= m.level * LINES_PER_LEVEL;
        let level = if !up {
            m.level as int
        } else if m.level < MAX_LEVEL {
            m.level + 1
        } else {
            MAX_LEVEL as int
        };
        let piece = self.queue.values@[0];
        &&& new.matrix.field_width == m.field_width
        &&& new.matrix.field_height == m.field_height
        &&& new.matrix.rows() == compacted(rows, m.width())
        &&& new.matrix.level == level
        &&& new.matrix.lines_cleared == if up {
            0
        } else {
            lines
        }
        &&& new.matrix.start_pos == spawn_anchor()
        &&& !new.matrix.create
        &&& !new.matrix.hard_dropping
        &&& new.matrix.game_over == !new.matrix.fits(
            piece.pieces_data@,
            piece.side(),
            spawn_anchor(),
        )
        &&& new.current == if new.matrix.game_over {
            None
        } else {
            Some(piece)
        }
        &&& events == match ScoreAction::for_lines_spec(k) {
            Some(a) => seq![ScoreEvent { action: a, cleared_lines: k as usize }],
            None => Seq::<ScoreEvent>::empty(),
        }
        &&& records(self.score, new.score, m.level as int, events)
        &&& new.queue.start_pos == self.queue.start_pos
        &&& new.queue.values@.len() == self.queue.values@.len()
        &&& new.queue.values@.drop_last() == self.queue.values@.drop_first()
        &&& new.queue.values@.last().is_fresh(self.queue.start_pos, ty)
        &&& new.timer.duration == fall_period(level)
        &&& new.timer.elapsed == 0
    }

    /// A tick with a piece in play. The timer advances by `delta`. A hard
    /// drop moves the piece down until blocked, scores the rows it fell and
    /// locks it. Otherwise the intent moves or turns the piece when it fits;
    /// then, on a soft drop or when the timer fires, the piece moves down a
    /// row, or locks if it cannot; only a soft drop scores that row.
    pub open spec fn fall_step(self, new: Game, delta: u64, intent: Intent, events: Seq<
        ScoreEvent,
    >) -> bool {
        let piece = self.current->0;
        let n = piece.side();
        let m = self.matrix;
        let fired = self.timer.elapsed + delta >= self.timer.duration;
        &&& new.queue == self.queue
        &&& new.timer.duration == self.timer.duration
        &&& new.timer.elapsed == (self.timer.elapsed + delta) % (self.timer.duration as int)
        &&& if intent is HardDrop {
            let data = piece.pieces_data@;
            let d = events[0].action->HardDrop_0 as int;
            &&& events.len() == 1
            &&& events[0].action is HardDrop
            &&& events[0].cleared_lines == 0
            &&& is_drop_distance(m, data, n, m.start_pos, d)
            &&& locked_at(m, new.matrix, data, n, shifted(m.start_pos, 0, d))
            &&& new.current is None
            &&& records(self.score, new.score, m.level as int, events)
        } else {
            let (a1, d1, r1) = after_intent(m, piece, intent);
            let soft = intent is SoftDrop;
            let down = soft || fired;
            if down && !m.fits(d1, n, shifted(a1, 0, 1)) {
                &&& locked_at(m, new.matrix, d1, n, a1)
                &&& new.current is None
                &&& events.len() == 0
                &&& new.score == self.score
            } else {
                let a2 = if down {
                    shifted(a1, 0, 1)
                } else {
                    a1
                };
                &&& new.matrix == m.with_anchor(a2)
                &&& new.current matches Some(t) && t.ty == piece.ty && t.rotation == r1
                    && t.pieces_data@ == d1 && t.position == a2
                &&& events == if soft {
                    seq![ScoreEvent { action: ScoreAction::SoftDrop(1), cleared_lines: 0 }]
                } else {
                    Seq::<ScoreEvent>::empty()
                }
                &&& records(self.score, new.score, m.level as int, events)
            }
        }
    }

    /// One tick: once the game is over nothing changes; with no piece in
    /// play a piece is brought in; otherwise the piece in play falls.
    pub open spec fn step_spec(
        self,
        new: Game,
        delta: u64,
        intent: Intent,
        ty: TetrominoType,
        events: Seq<ScoreEvent>,
    ) -> bool {
        if self.matrix.game_over {
            new == self && events.len() == 0
        } else if self.current is None {
            self.spawn_step(new, ty, events)
        } else {
            self.fall_step(new, delta, intent, events)
        }
    }

    /// A new game: empty field, level 1, a full queue, no piece in play yet.
    pub fn new() -> (r: Game)
        ensures
            r.wf(),
            r.matrix.is_new_game(),
            r.current is None,
            r.score.value == 0,
    {
        Game {
            matrix: Matrix::default(),
            queue: HoldOnQueueResoure::new(MatrixPosition { x: START_X, y: START_Y }),
            current: None,
            timer: SoftDropTimer::default(),
            score: Score::new(),
        }
    }

    /// Starts over with a new game.
    pub fn renew(&mut self)
        ensures
            final(self).wf(),
            final(self).matrix.is_new_game(),
            final(self).current is None,
            final(self).score.value == 0,
    {
        *self = Game::new();
    }

    /// Writes the piece into the field at the current anchor and ends the
    /// game, or waits for the next piece.
    fn lock_piece(&mut self, piece: &Tetromino)
        requires
            old(self).matrix.wf(),
            piece.wf(),
            old(self).matrix.fits(piece.pieces_data@, piece.side(), old(self).matrix.start_pos),
        ensures
            final(self).matrix.wf(),
            locked_at(
                old(self).matrix,
                final(self).matrix,
                piece.pieces_data@,
                piece.side(),
                old(self).matrix.start_pos,
            ),
            final(self).queue == old(self).queue,
            final(self).current == old(self).current,
            final(self).timer == old(self).timer,
            final(self).score == old(self).score,
    {
        let out = self.matrix.locks_out(piece);
        self.matrix.lock(piece);
        let ghost after_lock = self.matrix;
        if out {
            self.matrix.game_over = true;
            self.matrix.create = false;
        } else {
            self.matrix.game_over = false;
            self.matrix.create = true;
        }
        self.matrix.hard_dropping = false;
        assert forall|x: int, y: int|
            0 <= x < after_lock.width() && 0 <= y < after_lock.height() implies #[trigger] self.matrix.cell(
            x,
            y,
        ) == after_lock.cell(x, y) by {}
    }

    fn spawn(&mut self, ty: TetrominoType) -> (events: Vec<ScoreEvent>)
        requires
            old(self).wf(),
            !old(self).matrix.game_over,
            old(self).current is None,
        ensures
            final(self).wf(),
            old(self).spawn_step(*final(self), ty, events@),
    {
        let ghost rows = self.matrix.rows();
        let rows_cleared = self.matrix.clear_full_rows();
        let k = rows_cleared.len();
        proof {
            rows.lemma_filter_len(|r: Seq<u8>| crate::matrix::row_kept(r));
        }
        let level = self.matrix.level;
        let mut events: Vec<ScoreEvent> = Vec::new();
        match ScoreAction::for_lines(k) {
            Some(action) => {
                let ev = ScoreEvent { action, cleared_lines: k };
                self.score.record(level, &ev);
                events.push(ev);
            },
            None => {},
        }
        self.matrix.lines_cleared = self.matrix.lines_cleared + k;
        self.matrix.advance_level_if_needed();
        self.timer.reset_with(get_falling_speed(self.matrix.level));
        self.matrix.reset_start_pos();
        self.matrix.create = false;
        self.matrix.hard_dropping = false;
        let piece = self.queue.pop_push_with(ty);
        if self.matrix.piece_fits(&piece, self.matrix.start_pos) {
            self.current = Some(piece);
        } else {
            self.matrix.game_over = true;
        }
        let ghost o = *old(self);
        let ghost m = o.matrix;
        let ghost rows0 = m.rows();
        let ghost k0 = full_count(rows0);
        assert(k == k0);
        assert(self.matrix.rows() == compacted(rows0, m.width()));
        assert(events@ == match ScoreAction::for_lines_spec(k0) {
            Some(a) => seq![ScoreEvent { action: a, cleared_lines: k0 as usize }],
            None => Seq::<ScoreEvent>::empty(),
        });
        assert(records(o.score, self.score, m.level as int, events@));
        assert(self.current == if self.matrix.game_over {
            None
        } else {
            Some(o.queue.values@[0])
        });
        events
    }

    fn fall(&mut self, delta: u64, intent: Intent) -> (events: Vec<ScoreEvent>)
        requires
            old(self).wf(),
            !old(self).matrix.game_over,
            old(self).current is Some,
        ensures
            final(self).wf(),
            old(self).fall_step(*final(self), delta, intent, events@),
    {
        let piece = self.current.take().unwrap();
        let fired = self.timer.tick(delta);
        let mut events: Vec<ScoreEvent> = Vec::new();
        if matches!(intent, Intent::HardDrop) {
            let d = self.matrix.drop_distance(&piece);
            assert(self.matrix.fits(
                piece.pieces_data@,
                piece.side(),
                shifted(self.matrix.start_pos, 0, d as int),
            ));
            self.matrix.hard_dropping = true;
            self.matrix.start_pos = MatrixPosition {
                x: self.matrix.start_pos.x,
                y: self.matrix.start_pos.y + d,
            };
            let ev = ScoreEvent::hard_drop(d as u32);
            self.score.record(self.matrix.level, &ev);
            events.push(ev);
            self.lock_piece(&piece);
            return events;
        }
        let mut piece = apply_intent(&mut self.matrix, piece, intent);
        let soft = matches!(intent, Intent::SoftDrop);
        if soft || fired {
            if self.matrix.try_move(&piece, 0, 1) {
                if soft {
                    let ev = ScoreEvent::soft_drop();
                    self.score.record(self.matrix.level, &ev);
                    events.push(ev);
                }
                piece.position = self.matrix.start_pos;
                self.current = Some(piece);
            } else {
                self.lock_piece(&piece);
            }
        } else {
            piece.position = self.matrix.start_pos;
            self.current = Some(piece);
        }
        events
    }

    /// One tick, with `ty` as the type of the piece that refills the queue
    /// should a piece be brought in.
    pub fn step_with(&mut self, delta: u64, intent: Intent, ty: TetrominoType) -> (events: Vec<
        ScoreEvent,
    >)
        requires
            old(self).wf(),
        ensures
            final(self).wf(),
            old(self).step_spec(*final(self), delta, intent, ty, events@),
    {
        if self.matrix.game_over {
            return Vec::new();
        }
        if self.current.is_none() {
            return self.spawn(ty);
        }
        self.fall(delta, intent)
    }

    /// One tick: `delta` microseconds passed and the player asked for
    /// `intent`. Returns the score events of the tick.
    pub fn step(&mut self, delta: u64, intent: Intent) -> (events: Vec<ScoreEvent>)
        requires
            old(self).wf(),
        ensures
            final(self).wf(),
            exists|ty: TetrominoType| #[trigger]
                old(self).step_spec(*final(self), delta, intent, ty, events@),
    {
        let ty = TetrominoType::random();
        self.step_with(delta, intent, ty)
    }
}

/// A piece that does not fit where it enters, among the cells already
/// locked, ends the game; from then on a tick changes nothing and scores
/// nothing, whatever the intent and the time.
pub proof fn lemma_blocked_spawn_latches_game_over(
    g0: Game,
    g1: Game,
    g2: Game,
    delta1: u64,
    intent1: Intent,
    ty1: TetrominoType,
    events1: Seq<ScoreEvent>,
    delta2: u64,
    intent2: Intent,
    ty2: TetrominoType,
    events2: Seq<ScoreEvent>,
)
    requires
        g0.wf(),
        !g0.matrix.game_over,
        g0.current is None,
        g0.step_spec(g1, delta1, intent1, ty1, events1),
        !g1.matrix.fits(
            g0.queue.values@[0].pieces_data@,
            g0.queue.values@[0].side(),
            spawn_anchor(),
        ),
        g1.step_spec(g2, delta2, intent2, ty2, events2),
    ensures
        g1.matrix.game_over,
        g1.current is None,
        g2 == g1,
        events2.len() == 0,
{
}

/// The first kick that a rotation settles on fits.
pub proof fn lemma_first_kick_fits(
    m: Matrix,
    data: Seq<u8>,
    n: int,
    p: MatrixPosition,
    origin: Seq<i8>,
    target: Seq<i8>,
    i: int,
)
    ensures
        m.first_kick(data, n, p, origin, target, i) matches Some(q) ==> m.fits(data, n, q),
    decreases origin.len() - i,
{
    if !(i < 0 || 2 * i + 1 >= origin.len()) {
        lemma_first_kick_fits(m, data, n, p, origin, target, i + 1);
    }
}

/// Applies one intent to the piece in play: a move or a rotation that fits
/// takes effect, anything else leaves the piece as it is.
fn apply_intent(matrix: &mut Matrix, piece: Tetromino, intent: Intent) -> (r: Tetromino)
    requires
        old(matrix).wf(),
        piece.wf(),
        old(matrix).fits(piece.pieces_data@, piece.side(), old(matrix).start_pos),
    ensures
        final(matrix).wf(),
        *final(matrix) == old(matrix).with_anchor(after_intent(*old(matrix), piece, intent).0),
        r.wf(),
        r.ty == piece.ty,
        r.rotation == after_intent(*old(matrix), piece, intent).2,
        r.pieces_data@ == after_intent(*old(matrix), piece, intent).1,
        final(matrix).fits(r.pieces_data@, r.side(), final(matrix).start_pos),
{
    match intent {
        Intent::MoveLeft => {
            matrix.try_move(&piece, -1, 0);
            piece
        },
        Intent::MoveRight => {
            matrix.try_move(&piece, 1, 0);
            piece
        },
        Intent::RotateCW | Intent::RotateCCW => {
            let direction: i32 = if matches!(intent, Intent::RotateCW) {
                1
            } else {
                -1
            };
            let ghost before = *matrix;
            match matrix.can_rotate(direction, &piece) {
                Some(t) => {
                    proof {
                        let cw = direction >= 0;
                        lemma_first_kick_fits(
                            before,
                            rotated(piece.pieces_data@, piece.side(), cw),
                            piece.side(),
                            before.start_pos,
                            crate::tetromino::offsets_for(piece.rotation, piece.ty),
                            crate::tetromino::offsets_for(piece.rotation.turned(cw), piece.ty),
                            0,
                        );
                    }
                    t
                },
                None => piece,
            }
        },
        _ => piece,
    }
}

} // verus!
