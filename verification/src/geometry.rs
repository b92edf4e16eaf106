//! Points, sizes and rectangles on the integer grid.

use vstd::prelude::*;

verus! {

#[derive(Clone, Copy, PartialEq, Eq, Structural, Debug)]
pub struct Point {
    pub x: i32,
    pub y: i32,
}

#[derive(Clone, Copy, PartialEq, Eq, Structural, Debug)]
pub struct Size {
    pub width: i32,
    pub height: i32,
}

#[derive(Clone, Copy, PartialEq, Eq, Structural, Debug)]
pub struct Rectangle {
    pub loc: Point,
    pub size: Size,
}

/// A display mode: the size in pixels and the refresh rate in millihertz.
#[derive(Clone, Copy, PartialEq, Eq, Structural, Debug)]
pub struct Mode {
    pub size: Size,
    pub refresh: i32,
}

} // verus!
