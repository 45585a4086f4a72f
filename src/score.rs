//! Score actions and events, the running score, and the asset names of the
//! piece types.
use crate::global::{calculate_score, score_of};
use crate::tetromino::TetrominoType;
use vstd::prelude::*;

verus! {

/// What a score event was awarded for. The drop variants carry the number
/// of cells the piece moved.
#[derive(Debug, Clone, Copy, PartialEq, Eq, Structural, Hash)]
pub enum ScoreAction {
    Single,
    Double,
    Triple,
    Tetris,
    MiniTSpin,
    MiniTSpinSingle,
    TSpin,
    TSpinSingle,
    TSpinDouble,
    TSpinTriple,
    BackToBackBonus,
    SoftDrop(u32),
    HardDrop(u32),
}

/// Number of kinds of score actions; the running score keeps one line
/// counter per kind.
pub const ACTION_KINDS: usize = 13;

impl ScoreAction {
    /// The line-clear action for a number of rows cleared at once.
    pub open spec fn for_lines_spec(n: int) -> Option<ScoreAction> {
        if n == 1 {
            Some(ScoreAction::Single)
        } else if n == 2 {
            Some(ScoreAction::Double)
        } else if n == 3 {
            Some(ScoreAction::Triple)
        } else if n == 4 {
            Some(ScoreAction::Tetris)
        } else {
            None
        }
    }

    /// Position of the action's kind in declaration order; the drop kinds
    /// ignore the cell count they carry.
    pub open spec fn kind_spec(self) -> nat {
        match self {
            ScoreAction::Single => 0,
            ScoreAction::Double => 1,
            ScoreAction::Triple => 2,
            ScoreAction::Tetris => 3,
            ScoreAction::MiniTSpin => 4,
            ScoreAction::MiniTSpinSingle => 5,
            ScoreAction::TSpin => 6,
            ScoreAction::TSpinSingle => 7,
            ScoreAction::TSpinDouble => 8,
            ScoreAction::TSpinTriple => 9,
            ScoreAction::BackToBackBonus => 10,
            ScoreAction::SoftDrop(_) => 11,
            ScoreAction::HardDrop(_) => 12,
        }
    }

    /// The line-clear action for `n` rows cleared at once: one to four rows
    /// give Single, Double, Triple and Tetris; any other count has none.
    pub fn for_lines(n: usize) -> (r: Option<ScoreAction>)
        ensures
            r == Self::for_lines_spec(n as int),
    {
        match n {
            1 => Some(ScoreAction::Single),
            2 => Some(ScoreAction::Double),
            3 => Some(ScoreAction::Triple),
            4 => Some(ScoreAction::Tetris),
            _ => None,
        }
    }

    pub fn kind(&self) -> (r: usize)
        ensures
            r == self.kind_spec(),
            r < ACTION_KINDS,
    {
        match self {
            ScoreAction::Single => 0,
            ScoreAction::Double => 1,
            ScoreAction::Triple => 2,
            ScoreAction::Tetris => 3,
            ScoreAction::MiniTSpin => 4,
            ScoreAction::MiniTSpinSingle => 5,
            ScoreAction::TSpin => 6,
            ScoreAction::TSpinSingle => 7,
            ScoreAction::TSpinDouble => 8,
            ScoreAction::TSpinTriple => 9,
            ScoreAction::BackToBackBonus => 10,
            ScoreAction::SoftDrop(_) => 11,
            ScoreAction::HardDrop(_) => 12,
        }
    }
}

/// An action that scored, with the number of lines it cleared (0 for drops).
#[derive(Debug, Clone, Copy, PartialEq, Eq, Structural)]
pub struct ScoreEvent {
    pub action: ScoreAction,
    pub cleared_lines: usize,
}

impl ScoreEvent {
    /// One cell of soft drop.
    pub fn soft_drop() -> (r: ScoreEvent)
        ensures
            r == (ScoreEvent { action: ScoreAction::SoftDrop(1), cleared_lines: 0 }),
    {
        ScoreEvent { action: ScoreAction::SoftDrop(1), cleared_lines: 0 }
    }

    /// A hard drop over `lines` cells.
    pub fn hard_drop(lines: u32) -> (r: ScoreEvent)
        ensures
            r == (ScoreEvent { action: ScoreAction::HardDrop(lines), cleared_lines: 0 }),
    {
        ScoreEvent { action: ScoreAction::HardDrop(lines), cleared_lines: 0 }
    }
}

/// `a + b`, held at `usize::MAX`.
pub open spec fn capped_sum(a: int, b: int) -> int {
    if a + b > usize::MAX {
        usize::MAX as int
    } else {
        a + b
    }
}

/// The running score and, for each action kind, the lines cleared by it.
pub struct Score {
    pub value: usize,
    pub cleared_lines: Vec<usize>,
}

impl Score {
    pub open spec fn wf(&self) -> bool {
        self.cleared_lines@.len() == ACTION_KINDS
    }

    /// A score of zero with every line counter at zero.
    pub fn new() -> (r: Score)
        ensures
            r.wf(),
            r.value == 0,
            forall|i: int| 0 <= i < ACTION_KINDS ==> #[trigger] r.cleared_lines@[i] == 0,
    {
        let mut cleared_lines: Vec<usize> = Vec::new();
        let mut i: usize = 0;
        while i < ACTION_KINDS
            invariant
                i <= ACTION_KINDS,
                cleared_lines@.len() == i,
                forall|k: int| 0 <= k < i ==> #[trigger] cleared_lines@[k] == 0,
            decreases ACTION_KINDS - i,
        {
            cleared_lines.push(0);
            i += 1;
        }
        Score { value: 0, cleared_lines }
    }

    /// Adds what an event is worth at `level` to the score, and its lines to
    /// the counter of its kind; both stop at `usize::MAX`.
    pub fn record(&mut self, level: usize, event: &ScoreEvent)
        requires
            old(self).wf(),
            score_of(level as int, event.action) <= usize::MAX,
        ensures
            final(self).wf(),
            final(self).value == capped_sum(
                old(self).value as int,
                score_of(level as int, event.action),
            ),
            final(self).cleared_lines@ == old(self).cleared_lines@.update(
                event.action.kind_spec() as int,
                capped_sum(
                    old(self).cleared_lines@[event.action.kind_spec() as int] as int,
                    event.cleared_lines as int,
                ) as usize,
            ),
    {
        let points = calculate_score(level, event.action);
        self.value = self.value.saturating_add(points);
        let k = event.action.kind();
        let lines = self.cleared_lines[k].saturating_add(event.cleared_lines);
        self.cleared_lines.set(k, lines);
    }
}

impl Default for Score {
    fn default() -> (r: Score)
        ensures
            r.wf(),
            r.value == 0,
            forall|i: int| 0 <= i < ACTION_KINDS ==> #[trigger] r.cleared_lines@[i] == 0,
    {
        Score::new()
    }
}

/// The image asset each piece type is drawn with.
pub open spec fn image_path(ty: TetrominoType) -> Seq<char> {
    match ty {
        TetrominoType::I => "red.png"@,
        TetrominoType::J => "orange.png"@,
        TetrominoType::L => "yellow.png"@,
        TetrominoType::S => "green.png"@,
        TetrominoType::T => "cyan.png"@,
        TetrominoType::Z => "blue.png"@,
        TetrominoType::O => "purple.png"@,
    }
}

/// The table of image assets, one per piece type.
pub struct ImagePathResources;

impl ImagePathResources {
    pub fn new() -> (r: ImagePathResources) {
        ImagePathResources
    }

    /// The image asset of a piece type.
    pub fn get_path(&self, ty: TetrominoType) -> (r: &'static str)
        ensures
            r@ == image_path(ty),
    {
        match ty {
            TetrominoType::I => "red.png",
            TetrominoType::J => "orange.png",
            TetrominoType::L => "yellow.png",
            TetrominoType::S => "green.png",
            TetrominoType::T => "cyan.png",
            TetrominoType::Z => "blue.png",
            TetrominoType::O => "purple.png",
        }
    }
}

} // verus!
