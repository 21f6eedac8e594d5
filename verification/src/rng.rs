//! The once-seeded pseudorandom source: a ChaCha8 generator behind a thin
//! verified facade that tracks, as ghost state, the seed it was built from
//! and how many 32-bit words of its keystream have been consumed.

use vstd::prelude::*;
use rand_chacha::ChaCha8Rng;
use rand_chacha::rand_core::RngCore;
use rand_chacha::rand_core::SeedableRng;

verus! {

#[verifier::external_type_specification]
#[verifier::external_body]
pub struct ExChaCha8Rng(ChaCha8Rng);

/// The `index`th 32-bit word of the ChaCha8 keystream for `seed` (a 32-byte
/// seed): the deterministic word sequence that the generator hands out.
pub uninterp spec fn chacha_word(seed: Seq<u8>, index: nat) -> u32;

/// Pseudorandom source, seeded exactly once at boot. Produces the ChaCha8
/// word stream for its seed; `words_drawn` counts how far into the stream
/// the generator has advanced. The private generator invariantly holds the
/// ChaCha8 state for `seed_bytes` advanced by `words_drawn` words: it is
/// built only by the seeding constructors and advanced only by the two
/// drawing wrappers below.
pub struct RandomSource {
    rng: ChaCha8Rng,
    seed: Ghost<Seq<u8>>,
    drawn: Ghost<nat>,
}

/// Relies on `ChaCha8Rng::from_seed`: builds the generator for exactly this
/// 32-byte seed, positioned at the start of its keystream.
#[verifier::external_body]
fn chacha_from_entropy(seed: &[u8]) -> ChaCha8Rng
    requires
        seed@.len() == 32,
{
    ChaCha8Rng::from_seed(seed.try_into().unwrap())
}

/// Relies on `ChaCha8Rng::next_u32` (through `rand_core`'s `BlockRng`):
/// returns the next unconsumed 32-bit keystream word, advancing by one word.
#[verifier::external_body]
fn chacha_next_u32(source: &mut RandomSource) -> (r: u32)
    ensures
        r == chacha_word(old(source).seed_bytes(), old(source).words_drawn()),
        final(source).seed_bytes() == old(source).seed_bytes(),
        final(source).words_drawn() == old(source).words_drawn() + 1,
{
    source.rng.next_u32()
}

/// Relies on `ChaCha8Rng::next_u64` (through `rand_core`'s `BlockRng`): reads
/// the next two unconsumed keystream words, the first as the low half, and
/// advances by two words.
#[verifier::external_body]
fn chacha_next_u64(source: &mut RandomSource) -> (r: u64)
    ensures
        r == chacha_word(old(source).seed_bytes(), old(source).words_drawn())
            + chacha_word(old(source).seed_bytes(), old(source).words_drawn() + 1)
            * 0x1_0000_0000u64,
        final(source).seed_bytes() == old(source).seed_bytes(),
        final(source).words_drawn() == old(source).words_drawn() + 2,
{
    source.rng.next_u64()
}

impl RandomSource {
    /// The 32 seed bytes this source was built from.
    pub closed spec fn seed_bytes(self) -> Seq<u8> {
        self.seed@
    }

    /// How many 32-bit keystream words have been handed out so far.
    pub closed spec fn words_drawn(self) -> nat {
        self.drawn@
    }

    /// Seed the source from a 32-byte seed. No words are consumed yet.
    pub fn from_seed(seed: &[u8; 32]) -> (r: Self)
        ensures
            r.seed_bytes() == seed@,
            r.words_drawn() == 0,
    {
        RandomSource {
            rng: chacha_from_entropy(seed.as_slice()),
            seed: Ghost(seed@),
            drawn: Ghost(0),
        }
    }

    /// Seed the source from 32 assembled entropy bytes.
    pub fn from_seed_bytes(seed: &Vec<u8>) -> (r: Self)
        requires
            seed@.len() == 32,
        ensures
            r.seed_bytes() == seed@,
            r.words_drawn() == 0,
    {
        RandomSource {
            rng: chacha_from_entropy(seed.as_slice()),
            seed: Ghost(seed@),
            drawn: Ghost(0),
        }
    }

    /// Draw the next 32-bit word of the keystream.
    pub fn next_u32(&mut self) -> (r: u32)
        ensures
            r == chacha_word(old(self).seed_bytes(), old(self).words_drawn()),
            final(self).seed_bytes() == old(self).seed_bytes(),
            final(self).words_drawn() == old(self).words_drawn() + 1,
    {
        chacha_next_u32(self)
    }

    /// Draw the next two keystream words as one 64-bit value, low word first.
    pub fn next_u64(&mut self) -> (r: u64)
        ensures
            r == chacha_word(old(self).seed_bytes(), old(self).words_drawn())
                + chacha_word(old(self).seed_bytes(), old(self).words_drawn() + 1)
                * 0x1_0000_0000u64,
            final(self).seed_bytes() == old(self).seed_bytes(),
            final(self).words_drawn() == old(self).words_drawn() + 2,
    {
        chacha_next_u64(self)
    }
}

} // verus!
