//! Fixed configuration of the game, and the scoring and gravity formulas.
use crate::score::ScoreAction;
use vstd::prelude::*;

verus! {

/// Columns of the playing field.
pub const FIELD_WIDTH: usize = 10;

/// Rows of the playing field.
pub const FIELD_HEIGHT: usize = 22;

/// Highest level a game reaches.
pub const MAX_LEVEL: usize = 10;

/// Largest number of columns, or of rows, that a field may have.
pub const MAX_FIELD_SIDE: usize = 1024;

/// Column of the anchor at which new pieces enter the field.
pub const START_X: i32 = 3;

/// Row of the anchor at which new pieces enter the field.
pub const START_Y: i32 = 0;

/// Number of upcoming pieces held in the queue.
pub const QUEUE_SIZE: usize = 5;

/// A piece that locks with a cell in this row, or above it, ends the game.
pub const LOCK_OUT_ROW: i32 = 1;

/// The highest row an anchor may take; a piece pushed above it by wall
/// kicks is treated as blocked, which keeps every coordinate an `i32`.
pub const ANCHOR_FLOOR: i32 = -1000000000;

/// Gravity period at level 1, in microseconds.
pub const BASE_FALL_PERIOD: u64 = 800000;

/// Amount the gravity period shortens per level, in microseconds.
pub const FALL_PERIOD_STEP: u64 = 7000;

/// Lines a level asks for, per level number.
pub const LINES_PER_LEVEL: usize = 10;

/// Points a line-clear or spin action is worth at level 1.
pub open spec fn base_points(action: ScoreAction) -> int {
    match action {
        ScoreAction::Single => 100,
        ScoreAction::Double => 300,
        ScoreAction::Triple => 500,
        ScoreAction::Tetris => 800,
        ScoreAction::MiniTSpin => 100,
        ScoreAction::MiniTSpinSingle => 200,
        ScoreAction::TSpin => 400,
        ScoreAction::TSpinSingle => 800,
        ScoreAction::TSpinDouble => 1200,
        ScoreAction::TSpinTriple => 1600,
        ScoreAction::BackToBackBonus => 5400,
        ScoreAction::SoftDrop(_) => 0,
        ScoreAction::HardDrop(_) => 0,
    }
}

/// Points an action is worth: drops score one point per cell (soft) or two
/// (hard), whatever the level; everything else is the level times its base.
pub open spec fn score_of(level: int, action: ScoreAction) -> int {
    match action {
        ScoreAction::SoftDrop(n) => n as int,
        ScoreAction::HardDrop(m) => 2 * m,
        _ => level * base_points(action),
    }
}

/// Points an action is worth at a level.
pub fn calculate_score(level: usize, action: ScoreAction) -> (r: usize)
    requires
        score_of(level as int, action) <= usize::MAX,
    ensures
        r == score_of(level as int, action),
{
    match action {
        ScoreAction::Single => level * 100,
        ScoreAction::Double => level * 300,
        ScoreAction::Triple => level * 500,
        ScoreAction::Tetris => level * 800,
        ScoreAction::MiniTSpin => level * 100,
        ScoreAction::MiniTSpinSingle => level * 200,
        ScoreAction::TSpin => level * 400,
        ScoreAction::TSpinSingle => level * 800,
        ScoreAction::TSpinDouble => level * 1200,
        ScoreAction::TSpinTriple => level * 1600,
        ScoreAction::BackToBackBonus => level * 5400,
        ScoreAction::SoftDrop(n) => n as usize,
        ScoreAction::HardDrop(m) => m as usize * 2,
    }
}

/// Gravity period at a level, in microseconds: 0.8 s, less 7 ms for each
/// level past the first.
pub open spec fn fall_period(level: int) -> int {
    BASE_FALL_PERIOD - (level - 1) * FALL_PERIOD_STEP
}

/// Gravity period at a level, in microseconds.
pub fn get_falling_speed(level: usize) -> (r: u64)
    requires
        1 <= level <= MAX_LEVEL,
    ensures
        r == fall_period(level as int),
        r > 0,
{
    BASE_FALL_PERIOD - (level as u64 - 1) * FALL_PERIOD_STEP
}

} // verus!
