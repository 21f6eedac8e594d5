//! Tests for the clock arithmetic, the lookup tables, and the per-pixel fade
//! state machine.

use balcony::animator::interpolate_brightness;
use balcony::animator::Node;
use balcony::clock::GlobalRollingTimer;
use balcony::rng::RandomSource;
use balcony::tables::curve_lookup;
use balcony::tables::sat_lookup;
use smart_leds::hsv::hsv2rgb;
use smart_leds::hsv::Hsv;

#[test]
fn it_works() {
    assert!(true)
}

#[test]
fn ticks_since_simple() {
    let timer = GlobalRollingTimer::new();
    assert_eq!(timer.ticks_since(1000, 200), 800);
    assert_eq!(timer.ticks_since(200, 200), 0);
    assert_eq!(timer.micros_since(1000, 200), 800);
}

#[test]
fn ticks_since_across_wraparound() {
    let timer = GlobalRollingTimer::new();
    assert_eq!(timer.ticks_since(5, 0xFFFF_FFFB), 10);
    assert_eq!(timer.ticks_since(0, 0xFFFF_FFFF), 1);
    assert_eq!(timer.ticks_since(0xFFFF_FFFF, 0), 0xFFFF_FFFF);
}

#[test]
fn millis_since_scales_down() {
    let timer = GlobalRollingTimer::new();
    assert_eq!(timer.millis_since(2_000_000, 0), 2000);
    assert_eq!(timer.millis_since(999, 0), 0);
}

#[test]
fn table_lookups_match_known_entries() {
    assert_eq!(curve_lookup(0), 0);
    assert_eq!(curve_lookup(1), 3);
    assert_eq!(curve_lookup(123), 255);
    assert_eq!(curve_lookup(133), 255);
    assert_eq!(curve_lookup(255), 3);
    assert_eq!(sat_lookup(0), 255);
    assert_eq!(sat_lookup(206), 169);
    assert_eq!(sat_lookup(255), 5);
}

#[test]
fn interpolated_brightness_exact_values() {
    assert_eq!(interpolate_brightness(0), 0);
    assert_eq!(interpolate_brightness(256), 3);
    // halfway between curve entries 0 and 3
    assert_eq!(interpolate_brightness(128), 1);
    assert_eq!(interpolate_brightness(1500), 18);
    // last cell blends from 3 down toward the wrapped entry 0
    assert_eq!(interpolate_brightness(0xFFFF), 0);
}

#[test]
fn brightness_is_single_peaked_and_bounded() {
    let peak: u32 = 31488;
    let mut prev = interpolate_brightness(0);
    for p in 1..=peak {
        let b = interpolate_brightness(p as u16);
        assert!(b >= prev, "decreased before peak at phase {}", p);
        prev = b;
    }
    assert_eq!(prev, 255);
    for p in (peak + 1)..=0xFFFF {
        let b = interpolate_brightness(p as u16);
        assert!(b <= prev, "increased after peak at phase {}", p);
        prev = b;
    }
}

#[test]
fn brightness_has_no_jumps_beyond_table_granularity() {
    let mut prev = interpolate_brightness(0);
    for p in 1..=0xFFFFu32 {
        let b = interpolate_brightness(p as u16);
        let delta = if b > prev { b - prev } else { prev - b };
        assert!(delta <= 4, "jump of {} at phase {}", delta, p);
        prev = b;
    }
}

#[test]
fn fade_cycle_takes_exactly_512_steps_at_rate_128() {
    let mut rng = RandomSource::from_seed(&[7u8; 32]);
    let mut node = Node { hue: 40, sat: 250, phase: 0, rate: 128 };
    let mut steps: u32 = 0;
    while node.rate != 0 {
        node.step(&mut rng, 0, 0);
        steps += 1;
        if node.rate != 0 {
            assert_eq!(node.phase as u32, 128 * steps);
        }
        assert!(steps <= 100_000);
    }
    assert_eq!(steps, 512);
}

#[test]
fn fade_cycle_length_is_ceiling_of_range_over_rate() {
    // ceil(65536 / 895) == 74
    let mut rng = RandomSource::from_seed(&[7u8; 32]);
    let mut node = Node { hue: 0, sat: 0, phase: 0, rate: 895 };
    let mut steps: u32 = 0;
    while node.rate != 0 {
        node.step(&mut rng, 0, 0);
        steps += 1;
        assert!(steps <= 100_000);
    }
    assert_eq!(steps, 74);
}

#[test]
fn idle_node_adopts_target_and_draws_bounded_rate() {
    let mut rng = RandomSource::from_seed(&[1u8; 32]);
    let mut node = Node { hue: 9, sat: 9, phase: 500, rate: 0 };
    let color = node.step(&mut rng, 77, 200);
    assert_eq!((color.r, color.g, color.b), (0, 0, 0));
    assert_eq!(node.hue, 77);
    assert_eq!(node.sat, 200);
    assert_eq!(node.phase, 0);
    assert!(node.rate >= 128 && node.rate <= 1023);
}

#[test]
fn fading_node_advances_and_emits_hsv_color() {
    let mut rng = RandomSource::from_seed(&[1u8; 32]);
    let mut node = Node { hue: 10, sat: 200, phase: 1000, rate: 500 };
    let color = node.step(&mut rng, 0, 0);
    assert_eq!(node.phase, 1500);
    assert_eq!(node.rate, 500);
    assert_eq!(node.hue, 10);
    assert_eq!(node.sat, 200);
    let val = interpolate_brightness(1500);
    assert_eq!(val, 18);
    let expected = hsv2rgb(Hsv { hue: 10, sat: 200, val });
    assert_eq!((color.r, color.g, color.b), (expected.r, expected.g, expected.b));
}

#[test]
fn overflowing_fade_returns_to_idle_with_black() {
    let mut rng = RandomSource::from_seed(&[1u8; 32]);
    let mut node = Node { hue: 10, sat: 200, phase: 65500, rate: 500 };
    let color = node.step(&mut rng, 0, 0);
    assert_eq!((color.r, color.g, color.b), (0, 0, 0));
    assert_eq!(node.rate, 0);
    assert_eq!(node.phase, 65500);
}
