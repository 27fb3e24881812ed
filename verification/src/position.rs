use vstd::prelude::*;

verus! {

/// An unbounded 2D lattice point, held as a pair of signed coordinates.
#[derive(Clone, Copy, Debug)]
pub struct Position {
    x: i32,
    y: i32,
}

impl Position {
    /// The x coordinate, as a mathematical integer.
    pub closed spec fn spec_x(&self) -> int {
        self.x as int
    }

    /// The y coordinate, as a mathematical integer.
    pub closed spec fn spec_y(&self) -> int {
        self.y as int
    }

    /// Makes the point (x, y). Total: every coordinate pair is a position.
    pub fn new(x: i32, y: i32) -> (p: Position)
        ensures
            p.spec_x() == x as int,
            p.spec_y() == y as int,
    {
        Position { x, y }
    }

    /// Reads the x coordinate.
    pub fn x(&self) -> (r: i32)
        ensures
            r as int == self.spec_x(),
    {
        self.x
    }

    /// Reads the y coordinate.
    pub fn y(&self) -> (r: i32)
        ensures
            r as int == self.spec_y(),
    {
        self.y
    }

    /// Replaces the x coordinate; only the rover's movement operation uses
    /// this.
    pub(crate) fn set_x(&mut self, x: i32)
        ensures
            final(self).spec_x() == x as int,
            final(self).spec_y() == old(self).spec_y(),
    {
        self.x = x;
    }

    /// Replaces the y coordinate; only the rover's movement operation uses
    /// this.
    pub(crate) fn set_y(&mut self, y: i32)
        ensures
            final(self).spec_x() == old(self).spec_x(),
            final(self).spec_y() == y as int,
    {
        self.y = y;
    }
}

} // verus!
