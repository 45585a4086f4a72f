//! Cell coordinates on the playing field.
use vstd::prelude::*;

verus! {

/// A cell position: `x` is the column (growing rightward), `y` the row
/// (growing downward, row 0 at the top).
#[derive(Debug, Clone, Copy, PartialEq, Eq, Structural)]
pub struct MatrixPosition {
    pub x: i32,
    pub y: i32,
}

impl MatrixPosition {
    /// Componentwise sum of two positions.
    pub fn add(self, rhs: MatrixPosition) -> (r: MatrixPosition)
        requires
            i32::MIN <= self.x + rhs.x <= i32::MAX,
            i32::MIN <= self.y + rhs.y <= i32::MAX,
        ensures
            r.x == self.x + rhs.x,
            r.y == self.y + rhs.y,
    {
        MatrixPosition { x: self.x + rhs.x, y: self.y + rhs.y }
    }
}

} // verus!
