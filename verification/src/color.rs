use vstd::prelude::*;

verus! {

/// An RGBA colour with eight bits per channel; `a == 255` is fully opaque.
#[derive(Debug, Copy, Clone, PartialEq, Eq, Structural, Hash)]
pub struct Color {
    pub r: u8,
    pub g: u8,
    pub b: u8,
    pub a: u8,
}

impl Color {
    /// The opaque colour with the given red, green and blue channels.
    pub open spec fn opaque(r: u8, g: u8, b: u8) -> Color {
        Color { r, g, b, a: 255 }
    }

    pub fn new(r: u8, g: u8, b: u8, a: u8) -> (c: Color)
        ensures
            c == (Color { r, g, b, a }),
    {
        Color { r, g, b, a }
    }

    pub fn red() -> (c: Color)
        ensures
            c == Color::opaque(255, 0, 0),
    {
        Color { r: 255, g: 0, b: 0, a: 255 }
    }

    pub fn green() -> (c: Color)
        ensures
            c == Color::opaque(0, 255, 0),
    {
        Color { r: 0, g: 255, b: 0, a: 255 }
    }

    pub fn blue() -> (c: Color)
        ensures
            c == Color::opaque(0, 0, 255),
    {
        Color { r: 0, g: 0, b: 255, a: 255 }
    }

    pub fn white() -> (c: Color)
        ensures
            c == Color::opaque(255, 255, 255),
    {
        Color { r: 255, g: 255, b: 255, a: 255 }
    }

    pub fn black() -> (c: Color)
        ensures
            c == Color::opaque(0, 0, 0),
    {
        Color { r: 0, g: 0, b: 0, a: 255 }
    }

    pub fn yellow() -> (c: Color)
        ensures
            c == Color::opaque(255, 255, 0),
    {
        Color { r: 255, g: 255, b: 0, a: 255 }
    }
}

impl Default for Color {
    /// The colour a frame is cleared to when none was set: opaque black.
    fn default() -> (c: Color)
        ensures
            c == Color::opaque(0, 0, 0),
    {
        Color::black()
    }
}

} // verus!
