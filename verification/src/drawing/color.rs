//! Colors as four unsigned 8-bit channels.

use vstd::prelude::*;

verus! {

/// An RGBA color, one unsigned byte per channel.
#[derive(Debug, Clone, Copy, PartialEq, Eq, Structural)]
pub struct Color {
    pub r: u8,
    pub g: u8,
    pub b: u8,
    pub a: u8,
}

impl Color {
    /// Builds a color from its four channels.
    pub fn new(r: u8, g: u8, b: u8, a: u8) -> (c: Self)
        ensures
            c == (Color { r, g, b, a }),
    {
        Self { r, g, b, a }
    }

    /// Opaque black, the canvas clearing color.
    pub fn black() -> (c: Self)
        ensures
            c == (Color { r: 0u8, g: 0u8, b: 0u8, a: 255u8 }),
    {
        Self { r: 0, g: 0, b: 0, a: 255 }
    }

    /// Opaque white, the default color of a fragment.
    pub fn white() -> (c: Self)
        ensures
            c == (Color { r: 255u8, g: 255u8, b: 255u8, a: 255u8 }),
    {
        Self { r: 255, g: 255, b: 255, a: 255 }
    }
}

} // verus!
