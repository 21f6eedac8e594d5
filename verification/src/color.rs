//! The logical color triplet produced by the animation, in source channel
//! order (red, green, blue). Conversion to the device's channel order is the
//! frame composer's concern.

use vstd::prelude::*;

verus! {

/// One pixel's logical color: three 8-bit channels in red, green, blue order.
#[derive(Clone, Copy, PartialEq, Eq, Structural, Debug)]
pub struct Color {
    pub r: u8,
    pub g: u8,
    pub b: u8,
}

impl Color {
    /// The all-zero color, emitted while a pixel is idle.
    pub open spec fn black() -> Color {
        Color { r: 0, g: 0, b: 0 }
    }

    pub fn new(r: u8, g: u8, b: u8) -> (c: Color)
        ensures
            c == (Color { r, g, b }),
    {
        Color { r, g, b }
    }
}

} // verus!
