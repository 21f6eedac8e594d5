//! The frame composer: a pure, stateless transform that permutes each
//! logical color into the device's channel order (green first) and applies
//! the fixed gamma-correction mapping to every channel.

use vstd::prelude::*;
use crate::color::Color;
use smart_leds::RGB8;

verus! {

/// The gamma-correction table of `smart_leds` as a function: the corrected
/// output byte for one linear input byte.
pub uninterp spec fn gamma8(x: u8) -> u8;

/// Relies on `smart_leds::gamma`: every channel is mapped through its fixed
/// 256-entry gamma table, whose entry for 0 is 0.
#[verifier::external_body]
fn gamma_correct(c: Color) -> (r: Color)
    ensures
        r.r == gamma8(c.r),
        r.g == gamma8(c.g),
        r.b == gamma8(c.b),
        c.r == 0 ==> r.r == 0,
        c.g == 0 ==> r.g == 0,
        c.b == 0 ==> r.b == 0,
{
    let mut corrected = smart_leds::gamma([RGB8 { r: c.r, g: c.g, b: c.b }].into_iter());
    let out = corrected.next().unwrap();
    Color { r: out.r, g: out.g, b: out.b }
}

/// One composed output color: the logical color with its red and green
/// channels swapped into the device's order, each channel gamma-corrected.
pub open spec fn composed_color(c: Color) -> Color {
    Color { r: gamma8(c.g), g: gamma8(c.r), b: gamma8(c.b) }
}

/// Composes logical frames into device-ready frames. Stateless: it reads
/// only the immutable gamma table, so identical input frames always yield
/// identical output frames.
pub struct FrameComposer;

impl FrameComposer {
    pub fn new() -> Self {
        Self
    }

    /// Compose one frame: total over every input frame, order-preserving,
    /// and pointwise — each output color depends only on the input color at
    /// the same index.
    pub fn compose(&self, frame: &Vec<Color>) -> (out: Vec<Color>)
        ensures
            out@ == frame@.map_values(|c: Color| composed_color(c)),
            out@.len() == frame@.len(),
            forall|i: int| 0 <= i < frame@.len() ==> out@[i] == composed_color(frame@[i]),
    {
        let mut out: Vec<Color> = Vec::new();
        let mut i: usize = 0;
        while i < frame.len()
            invariant
                0 <= i <= frame@.len(),
                out@.len() == i,
                forall|j: int| 0 <= j < i ==> out@[j] == composed_color(frame@[j]),
            decreases frame@.len() - i,
        {
            let c = frame[i];
            let reordered = Color::new(c.g, c.r, c.b);
            out.push(gamma_correct(reordered));
            i = i + 1;
        }
        proof {
            assert(out@ =~= frame@.map_values(|c: Color| composed_color(c)));
        }
        out
    }
}

} // verus!
