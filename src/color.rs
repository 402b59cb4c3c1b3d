//! The color value type and its parse error.

use vstd::prelude::*;

verus! {

/// Alpha of a fully opaque color: alpha is held in millionths.
pub const OPAQUE: u32 = 1_000_000;

/// An RGB color with alpha (`a` in millionths, at most `OPAQUE`).
#[derive(Clone, Copy, Debug, PartialEq, Eq, Structural)]
pub struct ColorData {
    pub r: u8,
    pub g: u8,
    pub b: u8,
    pub a: u32,
}

/// An OKLCH color as written: lightness in millionths of a percent, chroma
/// in millionths, hue in millionths of a degree, alpha in millionths.
#[derive(Clone, Copy, Debug, PartialEq, Eq, Structural)]
pub struct Oklch {
    pub l: u64,
    pub c: u64,
    pub h: u64,
    pub a: u32,
}

/// What a color notation denotes: RGB bytes for hex, `rgb()` and `hsl()`;
/// the OKLCH coordinates themselves for `oklch()`.
#[derive(Clone, Copy, Debug, PartialEq, Eq, Structural)]
pub enum ParsedColor {
    Rgb(ColorData),
    Oklch(Oklch),
}

/// A color with the identity and label that its owner attaches to it.
#[derive(Clone, Debug)]
pub struct Color {
    pub id: i64,
    pub r: u8,
    pub g: u8,
    pub b: u8,
    pub a: u32,
    pub label: String,
}

/// No notation matched; holds the trimmed input.
#[derive(Clone, Debug)]
pub enum ColorParseError {
    InvalidFormat(String),
}

impl ColorData {
    pub open spec fn wf(self) -> bool {
        self.a <= OPAQUE
    }

    pub open spec fn new_spec(r: u8, g: u8, b: u8, a: u32) -> ColorData {
        ColorData { r, g, b, a: if a <= OPAQUE { a } else { OPAQUE } }
    }

    /// A color with alpha clamped to `OPAQUE`.
    pub fn new(r: u8, g: u8, b: u8, a: u32) -> (res: ColorData)
        ensures
            res == ColorData::new_spec(r, g, b, a),
            res.wf(),
    {
        ColorData { r, g, b, a: if a <= OPAQUE { a } else { OPAQUE } }
    }
}

impl Color {
    /// A color with id 0 and alpha clamped to `OPAQUE`.
    pub fn new(r: u8, g: u8, b: u8, a: u32, label: String) -> (res: Color)
        ensures
            res.id == 0,
            res.r == r && res.g == g && res.b == b,
            res.a == if a <= OPAQUE { a } else { OPAQUE },
            res.label == label,
    {
        Color { id: 0, r, g, b, a: if a <= OPAQUE { a } else { OPAQUE }, label }
    }

    pub open spec fn data(&self) -> ColorData {
        ColorData { r: self.r, g: self.g, b: self.b, a: self.a }
    }

    pub fn to_data(&self) -> (res: ColorData)
        ensures
            res == self.data(),
    {
        ColorData { r: self.r, g: self.g, b: self.b, a: self.a }
    }
}

} // verus!
