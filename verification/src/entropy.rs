//! Seed assembly for the random source. The external entropy collaborator is
//! opaque: per invocation it either accepts a sample and yields four seed
//! bytes, asks for more input (retried without bound), or times out (fatal).
//! This module owns the decisions: which half of the seed is being filled,
//! what each outcome does to the seed, and when the seed is complete.

use vstd::prelude::*;
use crate::error::FatalError;

verus! {

/// Total length of the assembled seed in bytes.
pub const SEED_LEN: usize = 32;

/// One response from the external entropy collaborator.
#[derive(Clone, Copy, Debug)]
pub enum EntropyOutcome {
    /// The collaborator accepted a sample and produced four seed bytes.
    Accepted([u8; 4]),
    /// The collaborator needs more input; retry.
    NeedMoreSamples,
    /// The collaborator gave up; startup must halt.
    Timeout,
}

/// The two independently sampled entropy sources, one per seed half.
#[derive(Clone, Copy, PartialEq, Eq, Structural, Debug)]
pub enum EntropyChannel {
    /// Supplies the first half of the seed.
    Temperature,
    /// Supplies the second half of the seed.
    Battery,
}

/// Assembles the 32-byte seed, one accepted four-byte word at a time: the
/// first half from the temperature channel, the second from the battery
/// channel.
pub struct SeedBuilder {
    pub bytes: Vec<u8>,
}

impl SeedBuilder {
    /// The builder only ever holds whole accepted words, up to one seed.
    pub open spec fn well_formed(self) -> bool {
        self.bytes@.len() <= SEED_LEN && self.bytes@.len() % 4 == 0
    }

    pub open spec fn collected(self) -> Seq<u8> {
        self.bytes@
    }

    pub fn new() -> (b: Self)
        ensures
            b.collected() == Seq::<u8>::empty(),
            b.well_formed(),
    {
        let bytes: Vec<u8> = Vec::new();
        proof {
            assert(bytes@ =~= Seq::<u8>::empty());
        }
        SeedBuilder { bytes }
    }

    /// Whether all 32 seed bytes have been collected.
    pub fn is_complete(&self) -> (r: bool)
        ensures
            r <==> self.collected().len() == SEED_LEN,
    {
        self.bytes.len() == SEED_LEN
    }

    /// Which channel the next word must be sampled from: the first sixteen
    /// bytes come from the temperature channel, the rest from the battery
    /// channel.
    pub fn next_channel(&self) -> (c: EntropyChannel)
        ensures
            c == (if self.collected().len() < SEED_LEN / 2 {
                EntropyChannel::Temperature
            } else {
                EntropyChannel::Battery
            }),
    {
        if self.bytes.len() < SEED_LEN / 2 {
            EntropyChannel::Temperature
        } else {
            EntropyChannel::Battery
        }
    }

    /// Feed one collaborator outcome into the builder: an accepted word
    /// extends the seed, a request for more samples changes nothing, and a
    /// timeout is fatal. Returns whether the outcome made progress.
    pub fn offer(&mut self, outcome: EntropyOutcome) -> (r: Result<bool, FatalError>)
        requires
            old(self).well_formed(),
            old(self).collected().len() < SEED_LEN,
        ensures
            final(self).well_formed(),
            match outcome {
                EntropyOutcome::Accepted(w) => r == Ok::<bool, FatalError>(true)
                    && final(self).collected() == old(self).collected() + w@,
                EntropyOutcome::NeedMoreSamples => r == Ok::<bool, FatalError>(false)
                    && final(self).collected() == old(self).collected(),
                EntropyOutcome::Timeout => r == Err::<bool, FatalError>(
                    FatalError::EntropyTimeout,
                ) && final(self).collected() == old(self).collected(),
            },
    {
        match outcome {
            EntropyOutcome::Accepted(w) => {
                self.bytes.push(w[0]);
                self.bytes.push(w[1]);
                self.bytes.push(w[2]);
                self.bytes.push(w[3]);
                proof {
                    assert(self.bytes@ =~= old(self).bytes@ + w@);
                }
                Ok(true)
            },
            EntropyOutcome::NeedMoreSamples => Ok(false),
            EntropyOutcome::Timeout => Err(FatalError::EntropyTimeout),
        }
    }
}

} // verus!
