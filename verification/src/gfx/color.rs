//! 24-bit colors and their blending.

use vstd::prelude::*;

verus! {

/// An RGB color with 8 bits per channel.
#[derive(Clone, Copy, Debug, PartialEq, Eq, Structural)]
pub struct Color {
    pub r: u8,
    pub g: u8,
    pub b: u8,
}

/// The arithmetic mean of two channel values, rounded down.
pub open spec fn mean(a: u8, b: u8) -> u8 {
    ((a + b) / 2) as u8
}

impl Color {
    pub fn new(r: u8, g: u8, b: u8) -> (color: Color)
        ensures
            color == (Color { r, g, b }),
    {
        Color { r, g, b }
    }

    /// The channel-wise mean of two colors.
    pub open spec fn blend(self, other: Color) -> Color {
        Color { r: mean(self.r, other.r), g: mean(self.g, other.g), b: mean(self.b, other.b) }
    }

    /// Averages this color with `other`, channel by channel.
    pub fn avg_with(self, other: Color) -> (color: Color)
        ensures
            color == self.blend(other),
    {
        Color {
            r: ((self.r as u16 + other.r as u16) / 2) as u8,
            g: ((self.g as u16 + other.g as u16) / 2) as u8,
            b: ((self.b as u16 + other.b as u16) / 2) as u8,
        }
    }
}

} // verus!
