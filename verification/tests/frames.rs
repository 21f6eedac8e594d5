//! Tests for frame composition and for the scheduler's refresh and pacing
//! decisions.

use balcony::color::Color;
use balcony::composer::FrameComposer;
use balcony::rng::RandomSource;
use balcony::scheduler::FrameScheduler;
use smart_leds::gamma;
use smart_leds::RGB8;

fn reference_compose(frame: &[Color]) -> Vec<Color> {
    // the device expects green first, then the fixed gamma mapping
    let swapped: Vec<RGB8> = frame.iter().map(|c| RGB8 { r: c.g, g: c.r, b: c.b }).collect();
    gamma(swapped.into_iter()).map(|c| Color { r: c.r, g: c.g, b: c.b }).collect()
}

#[test]
fn compose_swaps_channels_and_applies_gamma() {
    let composer = FrameComposer::new();
    let frame = vec![
        Color { r: 128, g: 10, b: 255 },
        Color { r: 0, g: 0, b: 0 },
        Color { r: 1, g: 2, b: 3 },
        Color { r: 200, g: 100, b: 50 },
    ];
    let out = composer.compose(&frame);
    let expected = reference_compose(&frame);
    assert_eq!(out.len(), 4);
    for i in 0..4 {
        assert_eq!(out[i], expected[i], "mismatch at index {}", i);
    }
    // gamma genuinely remaps: a mid-level input does not pass through
    assert_ne!(out[0].g, 128);
}

#[test]
fn compose_is_total_order_preserving_and_deterministic() {
    let composer = FrameComposer::new();
    let frame: Vec<Color> = (0..100u32)
        .map(|i| Color { r: i as u8, g: (255 - i) as u8, b: (2 * i) as u8 })
        .collect();
    let once = composer.compose(&frame);
    let twice = composer.compose(&frame);
    assert_eq!(once.len(), 100);
    assert_eq!(once, twice);
    let expected = reference_compose(&frame);
    for i in 0..100 {
        assert_eq!(once[i], expected[i], "order broken at index {}", i);
    }
}

#[test]
fn compose_keeps_black_black() {
    let composer = FrameComposer::new();
    let frame = vec![Color { r: 0, g: 0, b: 0 }; 100];
    let out = composer.compose(&frame);
    assert_eq!(out.len(), 100);
    for c in out {
        assert_eq!((c.r, c.g, c.b), (0, 0, 0));
    }
}

#[test]
fn frame_pacing_enforces_minimum_interval() {
    let rng = RandomSource::from_seed(&[3u8; 32]);
    let mut sched = FrameScheduler::new(rng, 0);
    assert!(!sched.try_begin_frame(31_249));
    assert!(sched.try_begin_frame(31_250));
    assert_eq!(sched.last_draw, 31_250);
    assert!(!sched.try_begin_frame(31_250 + 31_249));
    assert!(sched.try_begin_frame(31_250 + 31_250));
    assert_eq!(sched.last_draw, 62_500);
}

#[test]
fn frame_pacing_works_across_counter_wraparound() {
    let rng = RandomSource::from_seed(&[3u8; 32]);
    let mut sched = FrameScheduler::new(rng, 0);
    sched.last_draw = 0xFFFF_F000;
    // only 0x1000 ticks have elapsed at reading 0
    assert!(!sched.try_begin_frame(0));
    assert_eq!(sched.last_draw, 0xFFFF_F000);
    sched.last_draw = 0xFFFF_8000;
    // 0x8000 ticks have elapsed at reading 0
    assert!(sched.try_begin_frame(0));
    assert_eq!(sched.last_draw, 0);
}

#[test]
fn target_refresh_waits_for_interval() {
    let rng = RandomSource::from_seed(&[0u8; 32]);
    let mut sched = FrameScheduler::new(rng, 1000);
    let hue0 = sched.hue;
    let sat0 = sched.sat;
    assert!(!sched.maybe_refresh_target(1000 + 29_999_999));
    assert_eq!(sched.hue, hue0);
    assert_eq!(sched.sat, sat0);
    assert_eq!(sched.last_color, 1000);
    assert!(sched.maybe_refresh_target(1000 + 30_000_000));
    assert_eq!(sched.last_color, 1000 + 30_000_000);
    // zero seed: the third and fourth keystream words feed the refresh; the
    // saturation byte 0x1F is shaped by the saturation table into 254
    assert_eq!(sched.hue, 127);
    assert_eq!(sched.sat, 254);
}

#[test]
fn first_frame_is_black_and_all_pixels_start_fading() {
    let rng = RandomSource::from_seed(&[9u8; 32]);
    let mut sched = FrameScheduler::new(rng, 0);
    let frame = sched.step_pixels();
    assert_eq!(frame.len(), 100);
    for c in &frame {
        assert_eq!((c.r, c.g, c.b), (0, 0, 0));
    }
    for n in &sched.nodes {
        assert!(n.rate >= 128 && n.rate <= 1023);
        assert_eq!(n.hue, sched.hue);
        assert_eq!(n.sat, sched.sat);
        assert_eq!(n.phase, 0);
    }
    // the second step advances every pixel without drawing new rates
    let rates: Vec<u16> = sched.nodes.iter().map(|n| n.rate).collect();
    let frame2 = sched.step_pixels();
    assert_eq!(frame2.len(), 100);
    for (i, n) in sched.nodes.iter().enumerate() {
        assert_eq!(n.rate, rates[i]);
        assert_eq!(n.phase, rates[i]);
    }
}
