//! The per-pixel fade state machine. Each pixel owns a `Node`: idle while its
//! `rate` is zero, fading while it is nonzero. A fade adopts the shared
//! target hue and saturation, draws a bounded random rate once, and then
//! advances a 16-bit fixed-point phase until it would overflow, emitting a
//! brightness interpolated from the curve table at every step.

use vstd::prelude::*;
use crate::color::Color;
use crate::rng::RandomSource;
use crate::rng::chacha_word;
use crate::tables::CURVE_MAX_STEP;
use crate::tables::CURVE_PEAK_INDEX;
use crate::tables::curve_at;
use crate::tables::curve_lookup;
use smart_leds::hsv::Hsv;
use smart_leds::hsv::hsv2rgb;

verus! {

/// The red, green and blue bytes that `smart_leds`' integer HSV conversion
/// produces for one hue/saturation/value triplet: a pure function of the
/// three bytes.
pub uninterp spec fn hsv_rgb(hue: u8, sat: u8, val: u8) -> (u8, u8, u8);

/// `hsv_rgb` as a `Color`.
pub open spec fn hsv_color(hue: u8, sat: u8, val: u8) -> Color {
    Color { r: hsv_rgb(hue, sat, val).0, g: hsv_rgb(hue, sat, val).1, b: hsv_rgb(hue, sat, val).2 }
}

/// Relies on `smart_leds::hsv::hsv2rgb`: the result depends on the three
/// input bytes alone, and a zero value yields black (every match arm scales
/// by the value).
#[verifier::external_body]
fn hsv_to_color(hue: u8, sat: u8, val: u8) -> (c: Color)
    ensures
        (c.r, c.g, c.b) == hsv_rgb(hue, sat, val),
        val == 0 ==> c == Color::black(),
{
    let rgb = hsv2rgb(Hsv { hue, sat, val });
    Color { r: rgb.r, g: rgb.g, b: rgb.b }
}

/// Brightness of the interpolation curve at a fixed-point `phase` in
/// `[0, 65536)`: the curve entry at the phase's high byte and at the next
/// (wrapping) entry, blended linearly by the low byte.
pub open spec fn brightness_at(phase: int) -> int {
    let hi = phase / 256;
    let lo = phase % 256;
    (curve_at(hi) * (256 - lo) + curve_at((hi + 1) % 256) * lo) / 256
}

/// The fade rate drawn from one random word: its low ten bits, floored at
/// 128, so that a nonzero rate always lies in `[128, 1023]`.
pub open spec fn drawn_rate(word: u32) -> u16 {
    if word & 0x3FF < 128 {
        128u16
    } else {
        (word & 0x3FF) as u16
    }
}

/// Interpolated brightness for `phase`, by table lookup and an 8.8
/// fixed-point blend.
pub fn interpolate_brightness(phase: u16) -> (r: u8)
    ensures
        r == brightness_at(phase as int),
{
    proof {
        assert(phase >> 8 == phase / 256) by (bit_vector);
        assert(phase & 0xFF == phase % 256) by (bit_vector);
        assert(phase / 256 < 256 && phase % 256 < 256) by (bit_vector);
    }
    let idx_now: u16 = phase >> 8;
    let idx_nxt: u16 = if idx_now == 255 { 0 } else { idx_now + 1 };
    assert(idx_nxt == (phase / 256 + 1) % 256);
    let base_val: u32 = curve_lookup(idx_now as u8) as u32;
    let next_val: u32 = curve_lookup(idx_nxt as u8) as u32;
    let off: u32 = (phase & 0xFF) as u32;
    assert(base_val * (256 - off) + next_val * off <= 255 * 256) by (nonlinear_arith)
        requires
            base_val <= 255,
            next_val <= 255,
            off <= 255,
    ;
    let num: u32 = base_val * (256 - off) + next_val * off;
    (num / 256) as u8
}

/// One pixel's fade automaton: idle while `rate == 0`, fading otherwise.
/// While fading, `hue` and `sat` are fixed and `phase` advances by `rate`
/// each step until it would overflow 16 bits.
#[derive(Clone, Copy, PartialEq, Eq, Structural, Debug)]
pub struct Node {
    pub hue: u8,
    pub sat: u8,
    pub phase: u16,
    pub rate: u16,
}

impl Node {
    /// A nonzero rate was drawn from the bounded random range.
    pub open spec fn well_formed(self) -> bool {
        self.rate == 0 || (128 <= self.rate && self.rate <= 1023)
    }

    pub open spec fn is_idle(self) -> bool {
        self.rate == 0
    }

    /// Random words one `step` consumes: one to draw a rate when idle, none
    /// while fading.
    pub open spec fn draws(self) -> nat {
        if self.rate == 0 {
            1nat
        } else {
            0nat
        }
    }

    /// The state after one step, given the random word `word` that would be
    /// drawn, and the shared target hue and saturation.
    pub open spec fn step_state(self, word: u32, new_hue: u8, new_sat: u8) -> Node {
        if self.rate == 0 {
            Node { hue: new_hue, sat: new_sat, phase: 0, rate: drawn_rate(word) }
        } else if self.phase + self.rate <= 0xFFFF {
            Node { hue: self.hue, sat: self.sat, phase: (self.phase + self.rate) as u16, rate: self.rate }
        } else {
            Node { hue: self.hue, sat: self.sat, phase: self.phase, rate: 0 }
        }
    }

    /// The color one step emits: black on the idle-to-fading transition and
    /// on fade completion, the interpolated brightness at the advanced phase
    /// otherwise.
    pub open spec fn step_color(self, word: u32, new_hue: u8, new_sat: u8) -> Color {
        if self.rate == 0 {
            Color::black()
        } else if self.phase + self.rate <= 0xFFFF {
            hsv_color(self.hue, self.sat, brightness_at(self.phase + self.rate) as u8)
        } else {
            Color::black()
        }
    }

    /// A fresh pixel: idle, black, with no target adopted yet.
    pub fn new() -> (n: Self)
        ensures
            n == (Node { hue: 0u8, sat: 0u8, phase: 0u16, rate: 0u16 }),
    {
        Self { hue: 0, sat: 0, phase: 0, rate: 0 }
    }

    /// Advance this pixel by one scheduler step: adopt the shared target and
    /// draw a fresh bounded rate when idle, otherwise advance the fade phase
    /// and emit the interpolated color, returning to idle on overflow.
    pub fn step(&mut self, rng: &mut RandomSource, new_hue: u8, new_sat: u8) -> (c: Color)
        ensures
            *final(self) == old(self).step_state(
                chacha_word(old(rng).seed_bytes(), old(rng).words_drawn()),
                new_hue,
                new_sat,
            ),
            c == old(self).step_color(
                chacha_word(old(rng).seed_bytes(), old(rng).words_drawn()),
                new_hue,
                new_sat,
            ),
            final(rng).seed_bytes() == old(rng).seed_bytes(),
            final(rng).words_drawn() == old(rng).words_drawn() + old(self).draws(),
            old(self).well_formed() ==> final(self).well_formed(),
    {
        if self.rate == 0 {
            self.hue = new_hue;
            self.sat = new_sat;
            self.phase = 0;
            let word = rng.next_u32();
            let masked: u32 = word & 0x3FF;
            proof {
                assert(word & 0x3FF <= 0x3FF) by (bit_vector);
            }
            self.rate = if masked < 128 { 128 } else { masked as u16 };
            Color::new(0, 0, 0)
        } else if self.phase <= 0xFFFF - self.rate {
            self.phase = self.phase + self.rate;
            let val = interpolate_brightness(self.phase);
            hsv_to_color(self.hue, self.sat, val)
        } else {
            self.rate = 0;
            Color::new(0, 0, 0)
        }
    }
}

/// First phase of the curve's plateau, `CURVE_PEAK_INDEX * 256`: brightness
/// is non-decreasing in the phase up to here and non-increasing after.
pub const CURVE_PEAK_PHASE: u16 = 31488;

/// Steps of one fade cycle with nonzero rate `rate`: the number of fading
/// steps from phase zero until the phase accumulator overflows.
pub open spec fn fade_cycle_len(rate: u16) -> int {
    (65536 + rate - 1) / (rate as int)
}

/// The node `k` fading steps after `n`. The drawn word and the shared target
/// do not matter while a node fades, so arbitrary values stand in for them.
pub open spec fn fading_steps(n: Node, k: nat) -> Node
    decreases k,
{
    if k == 0 {
        n
    } else {
        fading_steps(n, (k - 1) as nat).step_state(0, 0, 0)
    }
}

/// A fade cycle takes exactly `fade_cycle_len(rate)` steps: starting from
/// phase zero with rate `r`, every earlier step leaves the node fading with
/// phase `k * r` and its hue and saturation untouched, and the final step
/// returns it to idle.
pub proof fn lemma_fade_cycle_length(start: Node, k: nat)
    requires
        128 <= start.rate <= 1023,
        start.phase == 0,
        k <= fade_cycle_len(start.rate),
    ensures
        k < fade_cycle_len(start.rate) ==> fading_steps(start, k) == (Node {
            hue: start.hue,
            sat: start.sat,
            phase: (k * start.rate) as u16,
            rate: start.rate,
        }),
        k < fade_cycle_len(start.rate) ==> k * start.rate <= 0xFFFF,
        k == fade_cycle_len(start.rate) ==> fading_steps(start, k).is_idle(),
    decreases k,
{
    let r = start.rate as int;
    let len = fade_cycle_len(start.rate);
    vstd::arithmetic::div_mod::lemma_fundamental_div_mod(65535 + r, r);
    vstd::arithmetic::div_mod::lemma_mod_bound(65535 + r, r);
    assert(65535 + r == r * len + (65535 + r) % r);
    assert(r * len > 65535);
    assert(r * (len - 1) <= 65535) by (nonlinear_arith)
        requires
            r * len <= 65535 + r,
    ;
    assert(len > 0) by (nonlinear_arith)
        requires
            r * len > 65535,
            0 < r <= 1023,
    ;
    if k == 0 {
        assert(k * start.rate == 0) by (nonlinear_arith)
            requires
                k == 0,
        ;
    } else {
        lemma_fade_cycle_length(start, (k - 1) as nat);
        let prev = fading_steps(start, (k - 1) as nat);
        assert(fading_steps(start, k) == prev.step_state(0, 0, 0));
        assert((k - 1) * r + r == k * r) by (nonlinear_arith);
        assert(0 <= (k - 1) * r && 0 <= k * r) by (nonlinear_arith)
            requires
                0 <= k - 1,
                0 <= r,
        ;
        if k < len {
            assert(k * r <= r * (len - 1)) by (nonlinear_arith)
                requires
                    k <= len - 1,
                    r >= 0,
            ;
            assert(k * r <= 65535);
        } else {
            assert(k * r == r * len) by (nonlinear_arith)
                requires
                    k == len,
            ;
            assert(prev.phase + prev.rate > 0xFFFF);
        }
    }
}

/// The reference rate of 128 gives a fade cycle of exactly 512 steps.
pub proof fn lemma_reference_rate_cycle()
    ensures
        fade_cycle_len(128) == 512,
{
    vstd::arithmetic::div_mod::lemma_fundamental_div_mod_converse(65663, 128, 512, 127);
}

/// Brightness at an exact cell boundary is the curve entry itself.
proof fn lemma_brightness_at_cell_start(h: int)
    requires
        0 <= h <= 255,
    ensures
        brightness_at(h * 256) == curve_at(h),
{
    vstd::arithmetic::div_mod::lemma_fundamental_div_mod_converse(h * 256, 256, h, 0);
    assert((curve_at(h) * 256 + curve_at((h + 1) % 256) * 0) / 256 == curve_at(h)) by {
        vstd::arithmetic::div_mod::lemma_div_multiples_vanish(curve_at(h) as int, 256);
    }
}

/// Interpolated brightness stays between the two curve entries of its cell.
proof fn lemma_brightness_cell_bounds(p: int)
    requires
        0 <= p <= 0xFFFF,
    ensures
        vstd::math::min(
            curve_at(p / 256) as int,
            curve_at((p / 256 + 1) % 256) as int,
        ) <= brightness_at(p),
        brightness_at(p) <= vstd::math::max(
            curve_at(p / 256) as int,
            curve_at((p / 256 + 1) % 256) as int,
        ),
{
    let a = curve_at(p / 256) as int;
    let b = curve_at((p / 256 + 1) % 256) as int;
    let lo = p % 256;
    let n = a * (256 - lo) + b * lo;
    let lower = vstd::math::min(a, b);
    let upper = vstd::math::max(a, b);
    vstd::arithmetic::div_mod::lemma_mod_bound(p, 256);
    assert(lower * 256 <= n && n <= upper * 256) by (nonlinear_arith)
        requires
            lower <= a,
            lower <= b,
            a <= upper,
            b <= upper,
            0 <= lo <= 255,
            n == a * (256 - lo) + b * lo,
    ;
    vstd::arithmetic::div_mod::lemma_div_is_ordered(lower * 256, n, 256);
    vstd::arithmetic::div_mod::lemma_div_is_ordered(n, upper * 256, 256);
    vstd::arithmetic::div_mod::lemma_div_multiples_vanish(lower, 256);
    vstd::arithmetic::div_mod::lemma_div_multiples_vanish(upper, 256);
}

/// Brightness is a single byte for every phase.
pub proof fn lemma_brightness_bounded(p: int)
    requires
        0 <= p <= 0xFFFF,
    ensures
        0 <= brightness_at(p) <= 255,
{
    lemma_brightness_cell_bounds(p);
}

/// Within one cell, brightness moves with the low byte toward the next
/// curve entry: monotone in the direction the cell's two entries give.
proof fn lemma_brightness_cell_monotone(p1: int, p2: int)
    requires
        0 <= p1 <= p2 <= 0xFFFF,
        p1 / 256 == p2 / 256,
    ensures
        curve_at(p1 / 256) <= curve_at((p1 / 256 + 1) % 256) ==> brightness_at(p1)
            <= brightness_at(p2),
        curve_at((p1 / 256 + 1) % 256) <= curve_at(p1 / 256) ==> brightness_at(p2)
            <= brightness_at(p1),
{
    let a = curve_at(p1 / 256) as int;
    let b = curve_at((p1 / 256 + 1) % 256) as int;
    let lo1 = p1 % 256;
    let lo2 = p2 % 256;
    vstd::arithmetic::div_mod::lemma_fundamental_div_mod(p1, 256);
    vstd::arithmetic::div_mod::lemma_fundamental_div_mod(p2, 256);
    vstd::arithmetic::div_mod::lemma_mod_bound(p1, 256);
    vstd::arithmetic::div_mod::lemma_mod_bound(p2, 256);
    assert(lo1 <= lo2);
    if a <= b {
        assert(a * (256 - lo1) + b * lo1 <= a * (256 - lo2) + b * lo2) by (nonlinear_arith)
            requires
                a <= b,
                lo1 <= lo2,
        ;
        vstd::arithmetic::div_mod::lemma_div_is_ordered(
            a * (256 - lo1) + b * lo1,
            a * (256 - lo2) + b * lo2,
            256,
        );
    }
    if b <= a {
        assert(a * (256 - lo2) + b * lo2 <= a * (256 - lo1) + b * lo1) by (nonlinear_arith)
            requires
                b <= a,
                lo1 <= lo2,
        ;
        vstd::arithmetic::div_mod::lemma_div_is_ordered(
            a * (256 - lo2) + b * lo2,
            a * (256 - lo1) + b * lo1,
            256,
        );
    }
}

/// The curve is non-decreasing between two indices on its ascending side.
proof fn lemma_curve_ascending_range(i: int, j: int)
    requires
        0 <= i <= j <= CURVE_PEAK_INDEX,
    ensures
        curve_at(i) <= curve_at(j),
    decreases j - i,
{
    crate::tables::lemma_curve_single_peaked_adjacent();
    if i < j {
        lemma_curve_ascending_range(i, j - 1);
        assert(curve_at(j - 1) <= curve_at(j));
    }
}

/// The curve is non-increasing between two indices on its descending side.
proof fn lemma_curve_descending_range(i: int, j: int)
    requires
        CURVE_PEAK_INDEX <= i <= j <= 255,
    ensures
        curve_at(i) >= curve_at(j),
    decreases j - i,
{
    crate::tables::lemma_curve_single_peaked_adjacent();
    if i < j {
        lemma_curve_descending_range(i, j - 1);
        assert(curve_at(j - 1) >= curve_at(j));
    }
}

/// Up to the peak phase, brightness never decreases as the phase advances.
pub proof fn lemma_brightness_nondecreasing(p1: int, p2: int)
    requires
        0 <= p1 <= p2 <= CURVE_PEAK_PHASE,
    ensures
        brightness_at(p1) <= brightness_at(p2),
{
    crate::tables::lemma_curve_single_peaked_adjacent();
    let h1 = p1 / 256;
    let h2 = p2 / 256;
    vstd::arithmetic::div_mod::lemma_fundamental_div_mod(p1, 256);
    vstd::arithmetic::div_mod::lemma_fundamental_div_mod(p2, 256);
    vstd::arithmetic::div_mod::lemma_mod_bound(p1, 256);
    vstd::arithmetic::div_mod::lemma_mod_bound(p2, 256);
    vstd::arithmetic::div_mod::lemma_div_is_ordered(p1, p2, 256);
    vstd::arithmetic::div_mod::lemma_div_is_ordered(p2, 31488, 256);
    assert(31488int / 256 == 123) by {
        vstd::arithmetic::div_mod::lemma_fundamental_div_mod_converse(31488, 256, 123, 0);
    }
    if h1 == h2 {
        if h1 == 123 {
            assert(p1 == 31488 && p2 == 31488);
        } else {
            vstd::arithmetic::div_mod::lemma_small_mod((h1 + 1) as nat, 256nat);
            lemma_brightness_cell_monotone(p1, p2);
        }
    } else {
        vstd::arithmetic::div_mod::lemma_small_mod((h1 + 1) as nat, 256nat);
        lemma_brightness_cell_bounds(p1);
        lemma_curve_ascending_range(h1 + 1, h2);
        if p2 == h2 * 256 {
            lemma_brightness_at_cell_start(h2);
        } else {
            assert(h2 < 123);
            vstd::arithmetic::div_mod::lemma_small_mod((h2 + 1) as nat, 256nat);
            lemma_brightness_cell_bounds(p2);
        }
    }
}

/// From the peak phase on, brightness never increases as the phase advances.
pub proof fn lemma_brightness_nonincreasing(p1: int, p2: int)
    requires
        CURVE_PEAK_PHASE <= p1 <= p2 <= 0xFFFF,
    ensures
        brightness_at(p1) >= brightness_at(p2),
{
    crate::tables::lemma_curve_single_peaked_adjacent();
    let h1 = p1 / 256;
    let h2 = p2 / 256;
    vstd::arithmetic::div_mod::lemma_fundamental_div_mod(p1, 256);
    vstd::arithmetic::div_mod::lemma_fundamental_div_mod(p2, 256);
    vstd::arithmetic::div_mod::lemma_mod_bound(p1, 256);
    vstd::arithmetic::div_mod::lemma_mod_bound(p2, 256);
    vstd::arithmetic::div_mod::lemma_div_is_ordered(p1, p2, 256);
    vstd::arithmetic::div_mod::lemma_div_is_ordered(31488, p1, 256);
    assert(31488int / 256 == 123) by {
        vstd::arithmetic::div_mod::lemma_fundamental_div_mod_converse(31488, 256, 123, 0);
    }
    assert(h2 <= 255);
    if h1 == h2 {
        if h1 == 255 {
            assert((h1 + 1) % 256 == 0) by {
                vstd::arithmetic::div_mod::lemma_mod_self_0(256);
            }
            lemma_brightness_cell_monotone(p1, p2);
        } else {
            vstd::arithmetic::div_mod::lemma_small_mod((h1 + 1) as nat, 256nat);
            lemma_brightness_cell_monotone(p1, p2);
        }
    } else {
        vstd::arithmetic::div_mod::lemma_small_mod((h1 + 1) as nat, 256nat);
        lemma_brightness_cell_bounds(p1);
        lemma_curve_descending_range(h1 + 1, h2);
        if h2 == 255 {
            assert((h2 + 1) % 256 == 0) by {
                vstd::arithmetic::div_mod::lemma_mod_self_0(256);
            }
        } else {
            vstd::arithmetic::div_mod::lemma_small_mod((h2 + 1) as nat, 256nat);
        }
        lemma_brightness_cell_bounds(p2);
    }
}

/// Adjacent phases change brightness by at most the largest step between
/// adjacent curve entries: the ramp has no discontinuity beyond the table's
/// own granularity.
#[verifier::rlimit(60)]
pub proof fn lemma_brightness_granularity(p: int)
    requires
        0 <= p < 0xFFFF,
    ensures
        brightness_at(p + 1) - brightness_at(p) <= CURVE_MAX_STEP,
        brightness_at(p) - brightness_at(p + 1) <= CURVE_MAX_STEP,
{
    crate::tables::lemma_curve_adjacent_step_bound();
    let h = p / 256;
    let lo = p % 256;
    vstd::arithmetic::div_mod::lemma_fundamental_div_mod(p, 256);
    vstd::arithmetic::div_mod::lemma_mod_bound(p, 256);
    lemma_brightness_cell_bounds(p);
    if lo == 255 {
        assert(h <= 254);
        vstd::arithmetic::div_mod::lemma_fundamental_div_mod_converse(p + 1, 256, h + 1, 0);
        vstd::arithmetic::div_mod::lemma_small_mod((h + 1) as nat, 256nat);
        lemma_brightness_at_cell_start(h + 1);
    } else {
        vstd::arithmetic::div_mod::lemma_fundamental_div_mod_converse(p + 1, 256, h, lo + 1);
        lemma_brightness_cell_bounds(p + 1);
        if h == 255 {
            assert((h + 1) % 256 == 0) by {
                vstd::arithmetic::div_mod::lemma_mod_self_0(256);
            }
        } else {
            vstd::arithmetic::div_mod::lemma_small_mod((h + 1) as nat, 256nat);
        }
    }
}

/// Along one fade cycle with rate `r`, the emitted brightness sequence is
/// single-peaked: there is a step count `m` inside the cycle such that the
/// brightness at phase `k * r` is non-decreasing for steps up to `m` and
/// non-increasing from `m` on. Together with `lemma_brightness_bounded`,
/// every emitted brightness also lies in `[0, 255]`.
pub proof fn lemma_fade_brightness_single_peaked(r: u16) -> (m: nat)
    requires
        128 <= r <= 1023,
    ensures
        (m + 1) * r <= 0xFFFF,
        forall|k1: nat, k2: nat| k1 <= k2 <= m ==> #[trigger] brightness_at(k1 * r)
            <= #[trigger] brightness_at(k2 * r),
        forall|k1: nat, k2: nat| m <= k1 <= k2 && k2 * r <= 0xFFFF ==> #[trigger] brightness_at(
            k1 * r,
        ) >= #[trigger] brightness_at(k2 * r),
{
    let ri = r as int;
    let peak = CURVE_PEAK_PHASE as int;
    let q = peak / ri;
    vstd::arithmetic::div_mod::lemma_fundamental_div_mod(peak, ri);
    vstd::arithmetic::div_mod::lemma_mod_bound(peak, ri);
    vstd::arithmetic::div_mod::lemma_div_pos_is_pos(peak, ri);
    assert(peak == ri * q + peak % ri);
    assert(q * ri <= peak && peak < (q + 1) * ri) by (nonlinear_arith)
        requires
            peak == ri * q + peak % ri,
            0 <= peak % ri < ri,
    ;
    assert((q + 1) * ri <= peak + ri) by (nonlinear_arith)
        requires
            q * ri <= peak,
    ;
    assert forall|k1: nat, k2: nat| k1 <= k2 <= q implies #[trigger] brightness_at(k1 * r)
        <= #[trigger] brightness_at(k2 * r) by {
        assert(k1 * ri <= k2 * ri && k2 * ri <= q * ri) by (nonlinear_arith)
            requires
                k1 <= k2 <= q,
                ri >= 0,
        ;
        lemma_brightness_nondecreasing(k1 * ri, k2 * ri);
    }
    assert forall|k1: nat, k2: nat| q + 1 <= k1 <= k2 && k2 * r <= 0xFFFF implies #[trigger] brightness_at(
        k1 * r,
    ) >= #[trigger] brightness_at(k2 * r) by {
        assert((q + 1) * ri <= k1 * ri && k1 * ri <= k2 * ri) by (nonlinear_arith)
            requires
                q + 1 <= k1 <= k2,
                ri >= 0,
        ;
        assert(peak <= k1 * ri) by (nonlinear_arith)
            requires
                peak < (q + 1) * ri,
                (q + 1) * ri <= k1 * ri,
        ;
        lemma_brightness_nonincreasing(k1 * ri, k2 * ri);
    }
    if brightness_at((q + 1) * ri) >= brightness_at(q * ri) {
        let m = (q + 1) as nat;
        assert((m + 1) * ri <= peak + 2 * ri) by (nonlinear_arith)
            requires
                q * ri <= peak,
                m == q + 1,
        ;
        assert forall|k1: nat, k2: nat| k1 <= k2 <= m implies #[trigger] brightness_at(k1 * r)
            <= #[trigger] brightness_at(k2 * r) by {
            if k2 <= q {
            } else {
                assert(k2 == m);
                if k1 <= q {
                    assert(brightness_at(k1 * r) <= brightness_at(q * ri));
                }
            }
        }
        m
    } else {
        let m = q as nat;
        assert((m + 1) * ri <= peak + ri) by (nonlinear_arith)
            requires
                q * ri <= peak,
                m == q,
        ;
        assert forall|k1: nat, k2: nat| m <= k1 <= k2 && k2 * r <= 0xFFFF implies #[trigger] brightness_at(
            k1 * r,
        ) >= #[trigger] brightness_at(k2 * r) by {
            if k1 >= q + 1 {
            } else {
                assert(k1 == q);
                if k2 >= q + 1 {
                    assert(brightness_at((q + 1) * ri) >= brightness_at(k2 * ri));
                }
            }
        }
        m
    }
}

} // verus!
