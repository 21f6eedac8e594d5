//! The fatal error taxonomy of the animation pipeline. Recoverable entropy
//! retries are not errors; everything here halts startup or the frame loop.

use vstd::prelude::*;

verus! {

/// A condition with no fallback path: startup halts (the first two) or the
/// perpetual frame loop halts (the last).
#[derive(Clone, Copy, PartialEq, Eq, Structural, Debug)]
pub enum FatalError {
    /// A required hardware resource was unavailable at boot.
    InitializationFailure,
    /// The entropy collaborator signalled an unrecoverable timeout.
    EntropyTimeout,
    /// The transmission collaborator failed to send a frame.
    TransmissionFailure,
}

} // verus!
