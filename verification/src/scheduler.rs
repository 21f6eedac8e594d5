//! The frame scheduler: the decisions of the perpetual control loop. It
//! refreshes the shared target hue and saturation on a coarse schedule,
//! steps every pixel once per iteration in a fixed order, and paces frame
//! starts so that two transmissions are never begun fewer than the minimum
//! inter-frame interval apart. Reading the hardware counter and handing the
//! composed frame to the transmitter are the platform's concern: counter
//! readings come in as plain values.

use vstd::prelude::*;
use crate::animator::Node;
use crate::clock::wrapping_elapsed;
use crate::color::Color;
use crate::rng::RandomSource;
use crate::rng::chacha_word;
use crate::tables::sat_at;
use crate::tables::sat_lookup;

verus! {

/// Number of pixels on the strip; every frame holds exactly this many colors.
pub const NUM_PIXELS: usize = 100;

/// Ticks between refreshes of the shared target hue and saturation.
pub const COLOR_REFRESH_INTERVAL: u32 = 30_000_000;

/// Hard lower bound, in ticks, between two frame starts.
pub const MIN_FRAME_INTERVAL: u32 = 31_250;

/// Random words consumed by stepping the first `i` of `nodes` in order: one
/// per pixel that was idle when its turn came.
pub open spec fn draws_in_prefix(nodes: Seq<Node>, i: int) -> nat
    decreases i,
{
    if i <= 0 {
        0nat
    } else {
        (draws_in_prefix(nodes, i - 1) + nodes[i - 1].draws()) as nat
    }
}

/// Whether a frame may start at counter reading `now` when the previous one
/// started at `last_draw`.
pub open spec fn frame_due(last_draw: u32, now: u32) -> bool {
    wrapping_elapsed(now, last_draw) >= MIN_FRAME_INTERVAL
}

/// The perpetual loop's state: the pixels, the seeded random source, the
/// shared target color, and the counter readings of the last target refresh
/// and the last frame start.
pub struct FrameScheduler {
    pub nodes: Vec<Node>,
    pub rng: RandomSource,
    pub hue: u8,
    pub sat: u8,
    pub last_color: u32,
    pub last_draw: u32,
}

impl FrameScheduler {
    /// Exactly one node per pixel, each with a rate that is zero or was
    /// drawn from the bounded random range.
    pub open spec fn well_formed(self) -> bool {
        &&& self.nodes@.len() == NUM_PIXELS
        &&& forall|i: int| 0 <= i < self.nodes@.len() ==> self.nodes@[i].well_formed()
    }

    /// Start the loop at counter reading `now` with a freshly seeded source:
    /// all pixels idle, and an initial target hue and saturation drawn
    /// directly from the first two random words.
    pub fn new(rng: RandomSource, now: u32) -> (s: Self)
        ensures
            s.well_formed(),
            forall|i: int| 0 <= i < s.nodes@.len() ==> s.nodes@[i].is_idle(),
            s.hue == chacha_word(rng.seed_bytes(), rng.words_drawn()) as u8,
            s.sat == chacha_word(rng.seed_bytes(), rng.words_drawn() + 1) as u8,
            s.rng.seed_bytes() == rng.seed_bytes(),
            s.rng.words_drawn() == rng.words_drawn() + 2,
            s.last_color == now,
            s.last_draw == now,
    {
        let mut nodes: Vec<Node> = Vec::new();
        let mut i: usize = 0;
        while i < NUM_PIXELS
            invariant
                0 <= i <= NUM_PIXELS,
                nodes@.len() == i,
                forall|j: int| 0 <= j < i ==> nodes@[j].is_idle() && nodes@[j].well_formed(),
            decreases NUM_PIXELS - i,
        {
            nodes.push(Node::new());
            i = i + 1;
        }
        let mut rng = rng;
        let hue_word = rng.next_u32();
        let sat_word = rng.next_u32();
        FrameScheduler {
            nodes,
            rng,
            hue: #[verifier::truncate] (hue_word as u8),
            sat: #[verifier::truncate] (sat_word as u8),
            last_color: now,
            last_draw: now,
        }
    }

    /// If at least the refresh interval has elapsed since the last target
    /// refresh, draw a new shared hue (a raw random byte) and saturation
    /// (a random byte shaped by the saturation table) and record `now`;
    /// otherwise change nothing. Returns whether a refresh happened.
    pub fn maybe_refresh_target(&mut self, now: u32) -> (refreshed: bool)
        ensures
            refreshed <==> wrapping_elapsed(now, old(self).last_color) >= COLOR_REFRESH_INTERVAL,
            refreshed ==> {
                &&& final(self).hue == chacha_word(
                    old(self).rng.seed_bytes(),
                    old(self).rng.words_drawn(),
                ) as u8
                &&& final(self).sat == sat_at(
                    (chacha_word(
                        old(self).rng.seed_bytes(),
                        old(self).rng.words_drawn() + 1,
                    ) as u8) as int,
                )
                &&& final(self).last_color == now
                &&& final(self).rng.words_drawn() == old(self).rng.words_drawn() + 2
            },
            !refreshed ==> *final(self) == *old(self),
            final(self).rng.seed_bytes() == old(self).rng.seed_bytes(),
            final(self).nodes == old(self).nodes,
            final(self).last_draw == old(self).last_draw,
            old(self).well_formed() ==> final(self).well_formed(),
    {
        let timer = crate::clock::GlobalRollingTimer::new();
        if timer.ticks_since(now, self.last_color) >= COLOR_REFRESH_INTERVAL {
            let hue_word = self.rng.next_u32();
            let sat_word = self.rng.next_u32();
            self.hue = #[verifier::truncate] (hue_word as u8);
            self.sat = sat_lookup(#[verifier::truncate] (sat_word as u8));
            self.last_color = now;
            true
        } else {
            false
        }
    }

    /// Step every pixel once, in index order, against the current shared
    /// target, and return the logical frame they emit. Pixel `i` sees the
    /// random stream advanced by exactly the words the pixels before it
    /// consumed.
    pub fn step_pixels(&mut self) -> (frame: Vec<Color>)
        requires
            old(self).well_formed(),
        ensures
            final(self).well_formed(),
            frame@.len() == old(self).nodes@.len(),
            final(self).nodes@.len() == old(self).nodes@.len(),
            forall|i: int| 0 <= i < old(self).nodes@.len() ==> final(self).nodes@[i]
                == old(self).nodes@[i].step_state(
                chacha_word(
                    old(self).rng.seed_bytes(),
                    old(self).rng.words_drawn() + draws_in_prefix(old(self).nodes@, i),
                ),
                old(self).hue,
                old(self).sat,
            ),
            forall|i: int| 0 <= i < old(self).nodes@.len() ==> frame@[i]
                == old(self).nodes@[i].step_color(
                chacha_word(
                    old(self).rng.seed_bytes(),
                    old(self).rng.words_drawn() + draws_in_prefix(old(self).nodes@, i),
                ),
                old(self).hue,
                old(self).sat,
            ),
            final(self).rng.seed_bytes() == old(self).rng.seed_bytes(),
            final(self).rng.words_drawn() == old(self).rng.words_drawn() + draws_in_prefix(
                old(self).nodes@,
                old(self).nodes@.len() as int,
            ),
            final(self).hue == old(self).hue,
            final(self).sat == old(self).sat,
            final(self).last_color == old(self).last_color,
            final(self).last_draw == old(self).last_draw,
    {
        let ghost nodes0 = self.nodes@;
        let ghost drawn0 = self.rng.words_drawn();
        let ghost seed = self.rng.seed_bytes();
        let mut frame: Vec<Color> = Vec::new();
        let n = self.nodes.len();
        let mut i: usize = 0;
        while i < n
            invariant
                0 <= i <= n,
                n == nodes0.len(),
                self.nodes@.len() == n,
                frame@.len() == i,
                self.rng.seed_bytes() == seed,
                self.rng.words_drawn() == drawn0 + draws_in_prefix(nodes0, i as int),
                self.hue == old(self).hue,
                self.sat == old(self).sat,
                self.last_color == old(self).last_color,
                self.last_draw == old(self).last_draw,
                forall|j: int| i <= j < n ==> self.nodes@[j] == nodes0[j],
                forall|j: int| 0 <= j < i ==> self.nodes@[j] == nodes0[j].step_state(
                    chacha_word(seed, drawn0 + draws_in_prefix(nodes0, j)),
                    old(self).hue,
                    old(self).sat,
                ),
                forall|j: int| 0 <= j < i ==> frame@[j] == nodes0[j].step_color(
                    chacha_word(seed, drawn0 + draws_in_prefix(nodes0, j)),
                    old(self).hue,
                    old(self).sat,
                ),
                forall|j: int| 0 <= j < n ==> self.nodes@[j].well_formed(),
            decreases n - i,
        {
            let mut node = self.nodes[i];
            let color = node.step(&mut self.rng, self.hue, self.sat);
            self.nodes.set(i, node);
            frame.push(color);
            i = i + 1;
        }
        frame
    }

    /// Attempt to start a frame at counter reading `now`: succeeds exactly
    /// when at least the minimum inter-frame interval has elapsed since the
    /// last frame start, and then records `now` as the new start. A failed
    /// attempt changes nothing.
    pub fn try_begin_frame(&mut self, now: u32) -> (ok: bool)
        ensures
            ok <==> frame_due(old(self).last_draw, now),
            ok ==> final(self).last_draw == now,
            !ok ==> *final(self) == *old(self),
            final(self).nodes == old(self).nodes,
            final(self).rng == old(self).rng,
            final(self).hue == old(self).hue,
            final(self).sat == old(self).sat,
            final(self).last_color == old(self).last_color,
            old(self).well_formed() ==> final(self).well_formed(),
    {
        let timer = crate::clock::GlobalRollingTimer::new();
        if timer.ticks_since(now, self.last_draw) >= MIN_FRAME_INTERVAL {
            self.last_draw = now;
            true
        } else {
            false
        }
    }
}

/// The frame start recorded after feeding attempts `0..k` of `attempts` to
/// the pacer, starting from a last start of `last0`: each due attempt
/// becomes the new recorded start, the rest change nothing.
pub open spec fn last_start_after(last0: u32, attempts: Seq<u32>, k: int) -> u32
    decreases k,
{
    if k <= 0 {
        last0
    } else {
        let prev = last_start_after(last0, attempts, k - 1);
        if frame_due(prev, attempts[k - 1]) {
            attempts[k - 1]
        } else {
            prev
        }
    }
}

/// Whether attempt `k` initiates a transmission.
pub open spec fn initiates(last0: u32, attempts: Seq<u32>, k: int) -> bool {
    frame_due(last_start_after(last0, attempts, k), attempts[k])
}

/// While no attempt initiates, the recorded frame start does not move.
proof fn lemma_last_start_stable(last0: u32, attempts: Seq<u32>, i: int, k: int)
    requires
        0 <= i < k <= attempts.len(),
        forall|m: int| i < m < k ==> !initiates(last0, attempts, m),
        initiates(last0, attempts, i),
    ensures
        last_start_after(last0, attempts, k) == attempts[i],
    decreases k,
{
    if k == i + 1 {
        assert(last_start_after(last0, attempts, k) == attempts[i]);
    } else {
        lemma_last_start_stable(last0, attempts, i, k - 1);
        assert(!initiates(last0, attempts, k - 1));
    }
}

/// Frame pacing: for any run of start attempts, two attempts that both
/// initiate a transmission, with none initiating between them, lie at least
/// the minimum inter-frame interval apart — however long stepping or
/// composition took between them.
pub proof fn lemma_min_frame_spacing(last0: u32, attempts: Seq<u32>, i: int, j: int)
    requires
        0 <= i < j < attempts.len(),
        initiates(last0, attempts, i),
        initiates(last0, attempts, j),
        forall|m: int| i < m < j ==> !initiates(last0, attempts, m),
    ensures
        wrapping_elapsed(attempts[j], attempts[i]) >= MIN_FRAME_INTERVAL,
{
    lemma_last_start_stable(last0, attempts, i, j);
}

} // verus!
