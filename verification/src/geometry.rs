//! Points and colored points on the drawing surface.

use vstd::prelude::*;

verus! {

/// A coordinate on the drawing surface, in pixels.
///
/// The buffer addresses its cells with `0 <= x < width` and
/// `0 <= y < height`; the linear storage index of `(x, y)` is
/// `y * width + x` (row-major).
#[derive(Clone, Copy, PartialEq, Eq, Structural, Debug)]
pub struct Point {
    pub x: i32,
    pub y: i32,
}

impl Point {
    /// Builds the point `(x, y)`.
    pub fn new(x: i32, y: i32) -> (p: Point)
        ensures
            p.x == x,
            p.y == y,
    {
        Point { x, y }
    }
}

/// A colored coordinate: one element of a bulk draw stream, and one element
/// of the pixel iteration that flushes a buffer to a display.
#[derive(Clone, Copy, Debug)]
pub struct Pixel<C>(pub Point, pub C);

} // verus!
