//! Colours as triples of 8-bit channels.

use vstd::prelude::*;

verus! {

/// An RGB colour with one byte per channel.
#[derive(Clone, Copy, Debug, PartialEq, Eq, Structural)]
pub struct Color {
    pub r: u8,
    pub g: u8,
    pub b: u8,
}

impl Color {
    /// The three channels in the order in which they are written out:
    /// red, green, blue.
    pub open spec fn channels(self) -> Seq<u8> {
        seq![self.r, self.g, self.b]
    }

    /// The colour with the given red, green and blue channels.
    pub fn new(r: u8, g: u8, b: u8) -> (color: Color)
        ensures
            color == (Color { r, g, b }),
    {
        Color { r, g, b }
    }

    /// The grey whose three channels all equal `level`.
    pub fn grey_shade(level: u8) -> (color: Color)
        ensures
            color == (Color { r: level, g: level, b: level }),
    {
        Color { r: level, g: level, b: level }
    }
}

/// The colour of a pixel whose ray was tested against two shapes of the
/// same colour: `shape` when the ray hit either of them, `background`
/// when it missed both.
pub fn shade(hit_first: bool, hit_second: bool, shape: Color, background: Color) -> (color: Color)
    ensures
        color == if hit_first || hit_second {
            shape
        } else {
            background
        },
{
    if hit_first {
        shape
    } else if hit_second {
        shape
    } else {
        background
    }
}

} // verus!
