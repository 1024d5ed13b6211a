//! Axis-aligned extents.

use vstd::prelude::*;

verus! {

/// The minimum and maximum values of some quantity.
#[derive(Clone, Copy, Debug, PartialEq)]
pub struct Bounds<T> {
    /// Minimum value.
    pub min: T,
    /// Maximum value.
    pub max: T,
}

/// A pixel position, counted from the top-left corner of an image.
#[derive(Clone, Copy, Debug, PartialEq, Eq, Structural)]
pub struct Coord {
    pub x: u32,
    pub y: u32,
}

/// A rectangle of pixels: `min` is its top-left pixel, `max` the position
/// just past its bottom-right pixel.
pub type Region = Bounds<Coord>;

impl Bounds<Coord> {
    /// `min` does not lie past `max` on either axis.
    pub open spec fn wf(&self) -> bool {
        self.min.x <= self.max.x && self.min.y <= self.max.y
    }

    /// Number of pixel columns in the rectangle.
    pub open spec fn spec_width(&self) -> int {
        self.max.x - self.min.x
    }

    /// Number of pixel rows in the rectangle.
    pub open spec fn spec_height(&self) -> int {
        self.max.y - self.min.y
    }

    /// Whether the pixel `(x, y)` lies in the rectangle.
    pub open spec fn covers(&self, x: int, y: int) -> bool {
        self.min.x <= x < self.max.x && self.min.y <= y < self.max.y
    }

    /// Whether the rectangle lies inside an image of the given size.
    pub open spec fn within(&self, width: int, height: int) -> bool {
        self.wf() && self.max.x <= width && self.max.y <= height
    }

    /// Whether two rectangles have no pixel in common.
    pub open spec fn disjoint(&self, other: &Region) -> bool {
        forall|x: int, y: int| !(#[trigger] self.covers(x, y) && other.covers(x, y))
    }
}

} // verus!
