use vstd::prelude::*;

use crate::snake::Point;

verus! {

/// The one food cell on the board, in grid units.
#[derive(Clone, Copy, Debug, PartialEq, Eq, Structural)]
pub struct Food {
    pub x: i32,
    pub y: i32,
}

impl Food {
    pub fn new(x: i32, y: i32) -> (r: Food)
        ensures
            r.x == x,
            r.y == y,
    {
        Food { x, y }
    }

    pub fn x(&self) -> (r: i32)
        ensures
            r == self.x,
    {
        self.x
    }

    pub fn y(&self) -> (r: i32)
        ensures
            r == self.y,
    {
        self.y
    }

    pub open spec fn from_cell(p: Point) -> Food {
        Food { x: p.x, y: p.y }
    }

    /// The cell the food lies on.
    pub open spec fn cell(self) -> Point {
        Point { x: self.x, y: self.y }
    }
}

} // verus!
