//! Geometry of structuring elements: extents, tap offsets, and the mask
//! elements a structuring element is declared with.

use vstd::prelude::*;

verus! {

/// A 2-D extent: the width and height of a structuring element.
#[derive(Clone, Copy, PartialEq, Eq, Structural, Debug)]
pub struct Size {
    pub width: usize,
    pub height: usize,
}

impl Size {
    pub fn new(width: usize, height: usize) -> (r: Size)
        ensures
            r.width == width,
            r.height == height,
    {
        Size { width, height }
    }
}

/// A tap offset within a structuring element, measured from its top-left
/// cell: `x` columns right, `y` rows down.
#[derive(Clone, Copy, PartialEq, Eq, Structural, Debug)]
pub struct Point {
    pub x: usize,
    pub y: usize,
}

impl Point {
    pub fn new(x: usize, y: usize) -> (r: Point)
        ensures
            r.x == x,
            r.y == y,
    {
        Point { x, y }
    }
}

/// An element of a structuring-element mask: a cell is an active tap exactly
/// when `to_bool` holds of it.
pub trait Element: Sized + Copy {
    spec fn to_bool_spec(self) -> bool;

    fn to_bool(self) -> (r: bool)
        ensures
            r == self.to_bool_spec(),
    ;
}

impl Element for bool {
    open spec fn to_bool_spec(self) -> bool {
        self
    }

    fn to_bool(self) -> bool {
        self
    }
}

impl Element for u8 {
    open spec fn to_bool_spec(self) -> bool {
        self != 0
    }

    fn to_bool(self) -> bool {
        self != 0
    }
}

impl Element for i32 {
    open spec fn to_bool_spec(self) -> bool {
        self != 0
    }

    fn to_bool(self) -> bool {
        self != 0
    }
}

} // verus!
