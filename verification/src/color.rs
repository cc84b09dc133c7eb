//! Iteration-count-to-color mapping.
//!
//! A pixel whose count reached the cap is painted black; any other
//! count is colored through an HSV-to-RGB conversion. The conversion's
//! hexagonal-sector structure — which of the six hue sectors applies,
//! and into which channel each of the three quantized components goes —
//! is decided here; the caller computes the three components (chroma,
//! the sector-interpolated value, and the base offset), each already
//! quantized to an eight-bit channel by the same affine transform.

use vstd::prelude::*;

verus! {

/// One pixel's color, eight bits per channel.
#[derive(Clone, Copy, PartialEq, Eq, Structural, Debug)]
pub struct Rgb {
    pub r: u8,
    pub g: u8,
    pub b: u8,
}

/// The color of a pixel that never escaped.
pub open spec fn black() -> Rgb {
    Rgb { r: 0, g: 0, b: 0 }
}

/// The color of a pixel with iteration count `iteration`: black at the
/// cap, otherwise the HSV-derived color the caller computed for it.
pub fn colorize(iteration: u32, max_iter: u32, hsv_color: Rgb) -> (c: Rgb)
    requires
        iteration <= max_iter,
    ensures
        iteration == max_iter ==> c == black(),
        iteration < max_iter ==> c == hsv_color,
{
    if iteration == max_iter {
        Rgb { r: 0, g: 0, b: 0 }
    } else {
        hsv_color
    }
}

/// Which of the six hexagonal sectors a hue (in whole degrees, already
/// reduced modulo three hundred sixty by the caller) falls in. Hues
/// below the first boundary — including any negative input — share the
/// first sector, and hues of three hundred degrees or more the last,
/// exactly as the conversion's chained comparisons decide it.
pub fn hue_sector(hue: i32) -> (s: u8)
    ensures
        s < 6,
        hue < 60 ==> s == 0,
        60 <= hue < 120 ==> s == 1,
        120 <= hue < 180 ==> s == 2,
        180 <= hue < 240 ==> s == 3,
        240 <= hue < 300 ==> s == 4,
        300 <= hue ==> s == 5,
{
    if hue < 60 {
        0
    } else if hue < 120 {
        1
    } else if hue < 180 {
        2
    } else if hue < 240 {
        3
    } else if hue < 300 {
        4
    } else {
        5
    }
}

/// Distributes the three quantized HSV components over the red, green
/// and blue channels according to the sector: `chroma` and `xval` trade
/// places clockwise around the hue hexagon while `base` fills the
/// remaining channel.
pub fn arrange_by_sector(sector: u8, chroma: u8, xval: u8, base: u8) -> (c: Rgb)
    requires
        sector < 6,
    ensures
        sector == 0 ==> c == (Rgb { r: chroma, g: xval, b: base }),
        sector == 1 ==> c == (Rgb { r: xval, g: chroma, b: base }),
        sector == 2 ==> c == (Rgb { r: base, g: chroma, b: xval }),
        sector == 3 ==> c == (Rgb { r: base, g: xval, b: chroma }),
        sector == 4 ==> c == (Rgb { r: xval, g: base, b: chroma }),
        sector == 5 ==> c == (Rgb { r: chroma, g: base, b: xval }),
{
    if sector == 0 {
        Rgb { r: chroma, g: xval, b: base }
    } else if sector == 1 {
        Rgb { r: xval, g: chroma, b: base }
    } else if sector == 2 {
        Rgb { r: base, g: chroma, b: xval }
    } else if sector == 3 {
        Rgb { r: base, g: xval, b: chroma }
    } else if sector == 4 {
        Rgb { r: xval, g: base, b: chroma }
    } else {
        Rgb { r: chroma, g: base, b: xval }
    }
}

} // verus!
