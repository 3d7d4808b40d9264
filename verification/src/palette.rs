//! The colours in which the four cell states are drawn.

use vstd::prelude::*;

verus! {

/// A colour of four channels, eight bits each.
#[derive(Clone, Copy, Debug, PartialEq, Eq, Structural)]
pub struct Rgba {
    pub r: u8,
    pub g: u8,
    pub b: u8,
    pub a: u8,
}

/// The colour of a cell in the given state: black for a dead cell, white for
/// a live one, and two distinct greys, the second darker, for the two stages
/// of its decay. Every colour is opaque.
pub open spec fn palette(state: u8) -> Rgba {
    if state == 0 {
        Rgba { r: 0, g: 0, b: 0, a: 255 }
    } else if state == 1 {
        Rgba { r: 255, g: 255, b: 255, a: 255 }
    } else if state == 2 {
        Rgba { r: 128, g: 128, b: 128, a: 255 }
    } else {
        Rgba { r: 80, g: 80, b: 80, a: 255 }
    }
}

/// The channel of a colour that stands at offset `k` of a pixel: red, green,
/// blue, alpha.
pub open spec fn channel(colour: Rgba, k: int) -> u8 {
    if k == 0 {
        colour.r
    } else if k == 1 {
        colour.g
    } else if k == 2 {
        colour.b
    } else {
        colour.a
    }
}

/// The colour in which a cell in the given state is drawn.
pub fn colour_of(state: u8) -> (colour: Rgba)
    requires
        state <= 3,
    ensures
        colour == palette(state),
{
    if state == 0 {
        Rgba { r: 0, g: 0, b: 0, a: 255 }
    } else if state == 1 {
        Rgba { r: 255, g: 255, b: 255, a: 255 }
    } else if state == 2 {
        Rgba { r: 128, g: 128, b: 128, a: 255 }
    } else {
        Rgba { r: 80, g: 80, b: 80, a: 255 }
    }
}

} // verus!
