//! Points, sizes and font metrics, in layout units.

use vstd::prelude::*;
use crate::attrs::UNITS_PER_PIXEL;

verus! {

/// A point of the view: `x` grows to the right, `y` grows downwards.
#[derive(Clone, Copy, Debug, PartialEq, Eq, Structural)]
pub struct Point {
    pub x: i64,
    pub y: i64,
}

impl Point {
    pub fn new(x: i64, y: i64) -> (p: Point)
        ensures
            p == (Point { x, y }),
    {
        Point { x, y }
    }
}

/// Width and height of an area.
#[derive(Clone, Copy, Debug, PartialEq, Eq, Structural)]
pub struct Size {
    pub width: i64,
    pub height: i64,
}

impl Size {
    pub fn new(width: i64, height: i64) -> (s: Size)
        ensures
            s == (Size { width, height }),
    {
        Size { width, height }
    }
}

/// `value` times `scale`, where `scale` counts 64ths: the product is
/// divided by 64 and rounded towards 0, and kept within the range of `i32`.
pub open spec fn scaled(value: i32, scale: i32) -> int {
    let product = value * scale;
    let quotient = if product >= 0 {
        product / 64
    } else {
        -((-product) / 64)
    };
    if quotient > i32::MAX {
        i32::MAX as int
    } else if quotient < i32::MIN {
        i32::MIN as int
    } else {
        quotient
    }
}

/// Size of a font and height of its lines.
#[derive(Clone, Copy, Debug, PartialEq, Eq, Structural)]
pub struct Metrics {
    /// Font size in layout units.
    pub font_size: i32,
    /// Line height in layout units.
    pub line_height: i32,
}

impl Metrics {
    pub fn new(font_size: i32, line_height: i32) -> (m: Metrics)
        ensures
            m == (Metrics { font_size, line_height }),
    {
        Metrics { font_size, line_height }
    }

    /// The metrics with both lengths multiplied by `scale`, which counts 64ths.
    pub fn scale(self, scale: i32) -> (m: Metrics)
        ensures
            m.font_size == scaled(self.font_size, scale),
            m.line_height == scaled(self.line_height, scale),
    {
        Metrics {
            font_size: scale_length(self.font_size, scale),
            line_height: scale_length(self.line_height, scale),
        }
    }
}

/// Multiplies a length by a scale that counts 64ths.
fn scale_length(value: i32, scale: i32) -> (r: i32)
    ensures
        r == scaled(value, scale),
{
    assert(-0x4000_0000_0000_0000 <= value * scale <= 0x4000_0000_0000_0000) by (nonlinear_arith)
        requires
            -0x8000_0000 <= value <= 0x7fff_ffff,
            -0x8000_0000 <= scale <= 0x7fff_ffff,
    ;
    let product: i64 = value as i64 * scale as i64;
    let quotient: i64 = product / UNITS_PER_PIXEL as i64;
    if quotient > i32::MAX as i64 {
        i32::MAX
    } else if quotient < i32::MIN as i64 {
        i32::MIN
    } else {
        quotient as i32
    }
}

} // verus!
