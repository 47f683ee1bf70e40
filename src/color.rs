//! Colors as 8-bit RGBA, and the theme that supplies default style values.
use vstd::prelude::*;

verus! {

/// A color: red, green, blue and alpha channels, each 0 to 255.
#[derive(Clone, Copy, Debug, PartialEq, Eq, Structural)]
pub struct Color {
    pub r: u8,
    pub g: u8,
    pub b: u8,
    pub a: u8,
}


/// Whether the mean of the color channels lies above half intensity.
pub open spec fn is_light(c: Color) -> bool {
    2 * (c.r + c.g + c.b) > 3 * 255
}

/// Opaque black on a light color, opaque white on a dark one, keeping alpha.
pub open spec fn contrast(c: Color) -> Color {
    if is_light(c) {
        Color { r: 0, g: 0, b: 0, a: c.a }
    } else {
        Color { r: 255, g: 255, b: 255, a: c.a }
    }
}

impl Color {
    /// Fully transparent black.
    pub fn transparent() -> (r: Color)
        ensures
            r == (Color { r: 0, g: 0, b: 0, a: 0 }),
    {
        Color { r: 0, g: 0, b: 0, a: 0 }
    }

    /// Opaque black, or opaque white, whichever contrasts with this color;
    /// the alpha channel is kept.
    pub fn plain_contrast(&self) -> (r: Color)
        ensures
            r == contrast(*self),
    {
        let sum: u32 = self.r as u32 + self.g as u32 + self.b as u32;
        if 2 * sum > 3 * 255 {
            Color { r: 0, g: 0, b: 0, a: self.a }
        } else {
            Color { r: 255, g: 255, b: 255, a: self.a }
        }
    }

    /// The same color with alpha channel `a`.
    pub fn alpha(&self, a: u8) -> (r: Color)
        ensures
            r == (Color { a, ..*self }),
    {
        Color { a, ..*self }
    }
}

/// Default style values shared by all widgets.
#[derive(Clone, Copy, Debug, PartialEq, Eq, Structural)]
pub struct Theme {
    /// Default fill color of shapes.
    pub shape_color: Color,
    /// Default medium font size, in points.
    pub font_size_medium: u32,
}

} // verus!
