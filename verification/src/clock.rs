//! Wraparound-safe elapsed-time queries over a free-running 32-bit up-counter.
//!
//! The hardware counter itself lives outside this crate: callers read the
//! current counter value and hand it in as a plain `u32`. Everything here is
//! the modular arithmetic that makes those readings usable across counter
//! wraparound.

use vstd::prelude::*;

verus! {

/// One full revolution of the 32-bit counter.
pub open spec fn tick_modulus() -> int {
    0x1_0000_0000
}

/// Ticks per second of the fixed-rate counter (one tick per microsecond).
pub const TICKS_PER_SECOND: u32 = 1_000_000;

/// Elapsed ticks from `start` to `now`, `(now - start) mod 2^32`; correct
/// even when the counter has wrapped between the two readings.
pub open spec fn wrapping_elapsed(now: u32, start: u32) -> int {
    if now >= start {
        now - start
    } else {
        now - start + tick_modulus()
    }
}

/// The elapsed-time computation agrees with modular subtraction for every
/// pair of counter readings, including across a wraparound boundary.
pub proof fn lemma_wrapping_elapsed_is_modular(now: u32, start: u32)
    ensures
        wrapping_elapsed(now, start) == (now - start) % tick_modulus(),
        0 <= wrapping_elapsed(now, start) < tick_modulus(),
{
    if now >= start {
        assert((now - start) % tick_modulus() == now - start) by {
            vstd::arithmetic::div_mod::lemma_small_mod((now - start) as nat, tick_modulus() as nat);
        }
    } else {
        let d: int = now - start;
        assert(d % tick_modulus() == (d + tick_modulus()) % tick_modulus()) by {
            vstd::arithmetic::div_mod::lemma_mod_add_multiples_vanish(d, tick_modulus());
        }
        assert((d + tick_modulus()) % tick_modulus() == d + tick_modulus()) by {
            vstd::arithmetic::div_mod::lemma_small_mod((d + tick_modulus()) as nat, tick_modulus() as nat);
        }
    }
}

/// Handle for the process-wide rolling timer. Hardware initialization and the
/// raw counter read are the platform's concern; this handle owns the
/// arithmetic over counter readings.
pub struct GlobalRollingTimer;

impl GlobalRollingTimer {
    pub fn new() -> Self {
        Self
    }

    /// Ticks elapsed from the reading `start` to the reading `now`, modulo
    /// one counter revolution.
    pub fn ticks_since(&self, now: u32, start: u32) -> (r: u32)
        ensures
            r == wrapping_elapsed(now, start),
    {
        if now >= start {
            now - start
        } else {
            (0xFFFF_FFFFu32 - start) + now + 1
        }
    }

    /// Microseconds elapsed from `start` to `now`: at one tick per
    /// microsecond this is the tick count itself.
    pub fn micros_since(&self, now: u32, start: u32) -> (r: u32)
        ensures
            r == wrapping_elapsed(now, start),
    {
        self.ticks_since(now, start)
    }

    /// Milliseconds elapsed from `start` to `now`, rounded down.
    pub fn millis_since(&self, now: u32, start: u32) -> (r: u32)
        ensures
            r == wrapping_elapsed(now, start) / 1000,
    {
        self.ticks_since(now, start) / 1000
    }
}

} // verus!
