//! Integer plane geometry: pixel positions and axis-aligned rectangles.

use vstd::prelude::*;

verus! {

/// A pixel position (or migration waypoint) on the integer plane.
#[derive(Clone, Copy, PartialEq, Eq, Structural, Debug)]
pub struct Vec2 {
    pub x: i32,
    pub y: i32,
}

/// An axis-aligned rectangle: top-left corner plus extent.
#[derive(Clone, Copy, PartialEq, Eq, Structural, Debug)]
pub struct Rect {
    pub x: i32,
    pub y: i32,
    pub w: u32,
    pub h: u32,
}

/// Squared Euclidean distance between two positions.
pub open spec fn dist_sq(a: Vec2, b: Vec2) -> int {
    (a.x - b.x) * (a.x - b.x) + (a.y - b.y) * (a.y - b.y)
}

impl Vec2 {
    pub fn new(x: i32, y: i32) -> (r: Vec2)
        ensures
            r == (Vec2 { x, y }),
    {
        Vec2 { x, y }
    }

    /// Squared Euclidean distance from `self` to `other`.
    pub fn dist_sq_to(&self, other: &Vec2) -> (r: i128)
        ensures
            r == dist_sq(*self, *other),
    {
        let dx: i64 = self.x as i64 - other.x as i64;
        let dy: i64 = self.y as i64 - other.y as i64;
        proof {
            assert((dx as i128) * (dx as i128) + (dy as i128) * (dy as i128)
                == (self.x - other.x) * (self.x - other.x)
                    + (self.y - other.y) * (self.y - other.y));
            assert(0 <= (dx as i128) * (dx as i128) < 0x4_0000_0000_0000_0000) by (nonlinear_arith)
                requires -0x2_0000_0000 < dx < 0x2_0000_0000;
            assert(0 <= (dy as i128) * (dy as i128) < 0x4_0000_0000_0000_0000) by (nonlinear_arith)
                requires -0x2_0000_0000 < dy < 0x2_0000_0000;
        }
        (dx as i128) * (dx as i128) + (dy as i128) * (dy as i128)
    }
}

impl Rect {
    pub fn new(x: i32, y: i32, w: u32, h: u32) -> (r: Rect)
        ensures
            r == (Rect { x, y, w, h }),
    {
        Rect { x, y, w, h }
    }
}

} // verus!
