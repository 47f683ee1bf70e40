//! Rectangles in integer pixel units, with the origin at the top left and `y`
//! growing downward.
use vstd::prelude::*;

verus! {

/// A width and a height.
#[derive(Clone, Copy, Debug, PartialEq, Eq, Structural)]
pub struct Dimensions {
    pub w: u32,
    pub h: u32,
}

/// An axis-aligned rectangle: left edge `x`, top edge `y`, width `w`, height `h`.
#[derive(Clone, Copy, Debug, PartialEq, Eq, Structural)]
pub struct Rect {
    pub x: i64,
    pub y: i64,
    pub w: i64,
    pub h: i64,
}

/// Whether the point `(px, py)` lies inside `r` (left and top edges inclusive,
/// right and bottom edges exclusive).
pub open spec fn spec_contains(r: Rect, px: int, py: int) -> bool {
    r.x <= px < r.x + r.w && r.y <= py < r.y + r.h
}

impl Rect {
    /// The rectangle with the given left/top corner and dimensions.
    pub fn new(x: i64, y: i64, w: i64, h: i64) -> (r: Rect)
        ensures
            r == (Rect { x, y, w, h }),
    {
        Rect { x, y, w, h }
    }

    /// The right edge, `x + w`.
    pub fn right(&self) -> (r: i128)
        ensures
            r == self.x + self.w,
    {
        self.x as i128 + self.w as i128
    }

    /// The bottom edge, `y + h`.
    pub fn bottom(&self) -> (r: i128)
        ensures
            r == self.y + self.h,
    {
        self.y as i128 + self.h as i128
    }

    /// Whether the point lies inside the rectangle.
    pub fn contains(&self, px: i64, py: i64) -> (r: bool)
        ensures
            r == spec_contains(*self, px as int, py as int),
    {
        let px = px as i128;
        let py = py as i128;
        self.x as i128 <= px && px < self.right() && self.y as i128 <= py && py < self.bottom()
    }
}

} // verus!
