//! Tests for the seeded random source and for seed assembly from entropy
//! outcomes, including the golden-value regression for the all-zero seed.

use balcony::entropy::EntropyChannel;
use balcony::entropy::EntropyOutcome;
use balcony::entropy::SeedBuilder;
use balcony::error::FatalError;
use balcony::rng::RandomSource;
use balcony::scheduler::FrameScheduler;

/// First keystream words for the all-zero 32-byte seed.
const REFERENCE_WORDS: [u32; 8] = [0x2FEF003E, 0xD6405F89, 0xE8B85B7F, 0xA1A5091F, 0xC30E842C, 0x3B7F9ACE, 0x88E11B18, 0x1E1A71EF];

/// Per-pixel rates drawn by the first scheduler step for the all-zero seed.
const REFERENCE_RATES: [u16; 100] = [
    895, 287, 128, 718, 792, 495, 152, 441, 159, 325,
    561, 730, 824, 128, 722, 490, 703, 513, 448, 345,
    732, 725, 592, 443, 238, 907, 672, 797, 587, 642,
    895, 786, 382, 592, 579, 995, 472, 360, 341, 695,
    467, 170, 425, 479, 624, 186, 128, 182, 295, 220,
    296, 871, 128, 645, 1004, 734, 1012, 158, 528, 128,
    128, 354, 1000, 140, 731, 864, 318, 938, 128, 128,
    801, 981, 673, 524, 311, 486, 200, 128, 140, 766,
    963, 452, 518, 677, 425, 613, 822, 622, 478, 851,
    559, 311, 813, 798, 627, 782, 582, 372, 311, 128,
];

#[test]
fn zero_seed_produces_reference_words() {
    let mut rng = RandomSource::from_seed(&[0u8; 32]);
    for (i, &w) in REFERENCE_WORDS.iter().enumerate() {
        assert_eq!(rng.next_u32(), w, "word {} differs", i);
    }
}

#[test]
fn next_u64_packs_two_words_low_first() {
    let mut rng = RandomSource::from_seed(&[0u8; 32]);
    let v = rng.next_u64();
    assert_eq!(v, (REFERENCE_WORDS[0] as u64) | ((REFERENCE_WORDS[1] as u64) << 32));
    assert_eq!(rng.next_u32(), REFERENCE_WORDS[2]);
}

#[test]
fn zero_seed_scheduler_draws_reference_sequence() {
    let rng = RandomSource::from_seed(&[0u8; 32]);
    let mut sched = FrameScheduler::new(rng, 0);
    assert_eq!(sched.hue, 62);
    assert_eq!(sched.sat, 137);
    let frame = sched.step_pixels();
    assert_eq!(frame.len(), 100);
    for i in 0..100 {
        assert_eq!(sched.nodes[i].rate, REFERENCE_RATES[i], "rate {} differs", i);
    }
}

#[test]
fn seed_builder_assembles_words_in_order() {
    let mut builder = SeedBuilder::new();
    assert!(!builder.is_complete());
    for i in 0..8u8 {
        assert!(!builder.is_complete());
        let expected = if i < 4 { EntropyChannel::Temperature } else { EntropyChannel::Battery };
        assert_eq!(builder.next_channel(), expected, "channel for word {}", i);
        let word = [4 * i, 4 * i + 1, 4 * i + 2, 4 * i + 3];
        assert_eq!(builder.offer(EntropyOutcome::Accepted(word)), Ok(true));
    }
    assert!(builder.is_complete());
    let collected: Vec<u8> = (0..32).collect();
    assert_eq!(builder.bytes, collected);
}

#[test]
fn seed_builder_retries_and_times_out() {
    let mut builder = SeedBuilder::new();
    assert_eq!(builder.offer(EntropyOutcome::NeedMoreSamples), Ok(false));
    assert_eq!(builder.bytes.len(), 0);
    assert_eq!(
        builder.offer(EntropyOutcome::Timeout),
        Err(FatalError::EntropyTimeout)
    );
    assert_eq!(builder.bytes.len(), 0);
    assert_eq!(builder.offer(EntropyOutcome::Accepted([1, 2, 3, 4])), Ok(true));
    assert_eq!(builder.bytes, vec![1, 2, 3, 4]);
}

#[test]
fn assembled_seed_matches_direct_seeding() {
    let mut builder = SeedBuilder::new();
    for _ in 0..8 {
        let _ = builder.offer(EntropyOutcome::Accepted([0, 0, 0, 0]));
    }
    assert!(builder.is_complete());
    let mut from_builder = RandomSource::from_seed_bytes(&builder.bytes);
    let mut direct = RandomSource::from_seed(&[0u8; 32]);
    for _ in 0..16 {
        assert_eq!(from_builder.next_u32(), direct.next_u32());
    }
}
