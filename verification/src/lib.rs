//! Animation core for an addressable LED strip: wraparound-safe elapsed-time
//! arithmetic over a free-running counter, a once-seeded pseudorandom source,
//! independent per-pixel fade state machines with fixed-point brightness
//! interpolation, gamma-corrected frame composition in the device's channel
//! order, and the scheduling rules that pace frames and refresh the shared
//! color target.

pub mod animator;
pub mod clock;
pub mod color;
pub mod composer;
pub mod entropy;
pub mod error;
pub mod rng;
pub mod scheduler;
pub mod tables;
