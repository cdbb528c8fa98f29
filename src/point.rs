//! Grid coordinates and the two index mappings used by the engine.
use vstd::prelude::*;

verus! {

/// A cell position with unsigned coordinates.
#[derive(Debug, Copy, Clone, PartialEq, Eq, Structural)]
pub struct UPoint {
    pub x: usize,
    pub y: usize,
}

/// Row-major index of `(x, y)` on a grid of the given width.
pub open spec fn spec_xy_to_idx(x: int, y: int, width: int) -> int {
    x + y * width
}

/// Read-back of a local shape index: `x` is the quotient and `y` the remainder
/// by the shape's width. This is deliberately not the inverse of
/// `spec_xy_to_idx`; shapes are authored against this exact mapping.
pub open spec fn spec_idx_to_xy(idx: int, width: int) -> (int, int) {
    (idx / width, idx % width)
}

impl UPoint {
    pub fn new(x: usize, y: usize) -> (r: Self)
        ensures
            r.x == x,
            r.y == y,
    {
        Self { x, y }
    }

    pub fn as_idx(&self, width: usize) -> (r: usize)
        requires
            self.x + self.y * width <= usize::MAX,
        ensures
            r == spec_xy_to_idx(self.x as int, self.y as int, width as int),
    {
        xy_to_idx(self.x, self.y, width)
    }
}

pub fn idx_to_xy(idx: usize, width: usize) -> (r: UPoint)
    requires
        width > 0,
    ensures
        (r.x as int, r.y as int) == spec_idx_to_xy(idx as int, width as int),
{
    UPoint { x: idx / width, y: idx % width }
}

pub fn xy_to_idx(x: usize, y: usize, width: usize) -> (r: usize)
    requires
        x + y * width <= usize::MAX,
    ensures
        r == spec_xy_to_idx(x as int, y as int, width as int),
{
    proof {
        assert(0 <= y * width) by (nonlinear_arith);
    }
    x + y * width
}

} // verus!
