use vstd::prelude::*;

verus! {

/// An axis-aligned rectangle in whole pixels: origin `(x, y)`, width `w`, height `h`.
#[derive(Clone, Copy, Debug, PartialEq, Eq, Structural)]
pub struct Rect {
    pub x: i32,
    pub y: i32,
    pub w: i32,
    pub h: i32,
}

/// Whether the point `(px, py)` lies in the closed rectangle `r`.
pub open spec fn spec_contains(r: Rect, px: int, py: int) -> bool {
    &&& r.x <= px <= r.x + r.w
    &&& r.y <= py <= r.y + r.h
}

impl Rect {
    pub fn new(x: i32, y: i32, w: i32, h: i32) -> (r: Rect)
        ensures
            r == (Rect { x, y, w, h }),
    {
        Rect { x, y, w, h }
    }

    /// Closed-interval containment of a point.
    pub fn contains(&self, px: i32, py: i32) -> (b: bool)
        ensures
            b == spec_contains(*self, px as int, py as int),
    {
        let right: i64 = self.x as i64 + self.w as i64;
        let bottom: i64 = self.y as i64 + self.h as i64;
        self.x <= px && self.y <= py && (px as i64) <= right && (py as i64) <= bottom
    }
}

} // verus!

verus! {

/// A colour as 8-bit red, green, blue and alpha channels.
#[derive(Clone, Copy, Debug, PartialEq, Eq, Structural)]
pub struct Rgba {
    pub r: u8,
    pub g: u8,
    pub b: u8,
    pub a: u8,
}

impl Rgba {
    pub fn new(r: u8, g: u8, b: u8, a: u8) -> (c: Rgba)
        ensures
            c == (Rgba { r, g, b, a }),
    {
        Rgba { r, g, b, a }
    }
}

} // verus!
