//! Colors as four unsigned 8-bit channels, with simple mixing.

use vstd::prelude::*;

verus! {

/// An RGBA color, one unsigned byte per channel.
#[derive(Debug, Clone, Copy, PartialEq, Eq, Structural)]
pub struct Color {
    pub r: u8,
    pub g: u8,
    pub b: u8,
    pub a: u8,
}

impl Color {
    /// Builds a color from its four channels.
    pub fn new(r: u8, g: u8, b: u8, a: u8) -> (c: Self)
        ensures
            c == (Color { r, g, b, a }),
    {
        Self { r, g, b, a }
    }

    /// The average of two colors, channel by channel; each channel is
    /// halved first, so the result floors twice rather than once.
    pub fn avg_with(self, other: Self) -> (c: Self)
        ensures
            c.r == self.r / 2 + other.r / 2,
            c.g == self.g / 2 + other.g / 2,
            c.b == self.b / 2 + other.b / 2,
            c.a == self.a / 2 + other.a / 2,
    {
        Self::new(
            self.r / 2 + other.r / 2,
            self.g / 2 + other.g / 2,
            self.b / 2 + other.b / 2,
            self.a / 2 + other.a / 2,
        )
    }
}

} // verus!
