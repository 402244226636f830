//! Flat RGB colours.

use vstd::prelude::*;

verus! {

/// An opaque RGB triple, one byte per channel.
#[derive(Clone, Copy, Debug, PartialEq, Eq, Structural)]
pub struct Color {
    pub r: u8,
    pub g: u8,
    pub b: u8,
}

impl Color {
    /// Builds the colour with the given channels.
    pub fn new(r: u8, g: u8, b: u8) -> (res: Color)
        ensures
            res.r == r,
            res.g == g,
            res.b == b,
    {
        Color { r, g, b }
    }
}

} // verus!
