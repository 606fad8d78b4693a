//! Points, sizes and rectangles on the integer grid of the host's layout.

use vstd::prelude::*;

verus! {

/// A position.
#[derive(Debug, Clone, Copy, PartialEq, Eq, Structural)]
pub struct Point {
    /// The horizontal coordinate, growing to the right.
    pub x: i64,
    /// The vertical coordinate, growing downwards.
    pub y: i64,
}

/// The extent of an area.
#[derive(Debug, Clone, Copy, PartialEq, Eq, Structural)]
pub struct Size {
    /// The horizontal extent.
    pub width: u32,
    /// The vertical extent.
    pub height: u32,
}

/// An axis-aligned rectangle.
#[derive(Debug, Clone, Copy, PartialEq, Eq, Structural)]
pub struct Rectangle {
    /// The horizontal coordinate of the top-left corner.
    pub x: i64,
    /// The vertical coordinate of the top-left corner.
    pub y: i64,
    /// The horizontal extent.
    pub width: u32,
    /// The vertical extent.
    pub height: u32,
}

impl Size {
    /// Whether the area holds no point at all.
    pub open spec fn is_empty(self) -> bool {
        self.width == 0 || self.height == 0
    }
}

impl Rectangle {
    /// Whether `point` lies in the rectangle. The left and top edges belong
    /// to it, the right and bottom edges do not, so a rectangle without
    /// width or height holds no point.
    pub open spec fn holds(self, point: Point) -> bool {
        &&& self.x <= point.x < self.x + self.width
        &&& self.y <= point.y < self.y + self.height
    }

    /// Whether `point` lies in the rectangle.
    pub fn contains(&self, point: Point) -> (out: bool)
        ensures
            out == self.holds(point),
    {
        self.x <= point.x && (point.x as i128) < self.x as i128 + self.width as i128 && self.y
            <= point.y && (point.y as i128) < self.y as i128 + self.height as i128
    }

    /// The top-left corner.
    pub fn position(&self) -> (out: Point)
        ensures
            out == (Point { x: self.x, y: self.y }),
    {
        Point { x: self.x, y: self.y }
    }

    /// The extent.
    pub fn size(&self) -> (out: Size)
        ensures
            out == (Size { width: self.width, height: self.height }),
    {
        Size { width: self.width, height: self.height }
    }
}

} // verus!
