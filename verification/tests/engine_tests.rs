//! Tests of the crossover engine: exact reconstruction of a delayed
//! impulse, pure-delay defaults, reset determinism, and latency.

use crossover::crossover::{FirCrossover, FirCrossoverType, NUM_BANDS};
use crossover::fir_filter::FirFilter;
use crossover::fixed::UNIT;
use crossover::sample::SamplePair;

const F: usize = 121;
const CENTER: usize = 60;

fn fresh_engine() -> FirCrossover {
    FirCrossover::new(FirCrossoverType::LinkwitzRiley24LinearPhase)
}

fn zero_outputs() -> Vec<SamplePair> {
    vec![SamplePair { left: 0, right: 0 }; NUM_BANDS]
}

#[test]
fn latency_is_half_the_kernel_length() {
    let engine = fresh_engine();
    assert_eq!(engine.latency(), (F / 2) as u32);
    assert_eq!(engine.latency(), CENTER as u32);
}

#[test]
fn band_kernels_sum_to_unit_impulse() {
    // For every band count, the active kernels reconstruct a pure delay
    // bit for bit: their tap-by-tap sum is exactly one at the center index
    // and exactly zero elsewhere.
    let frequencies: [u32; 4] = [200, 1_000, 5_000, 10_000];
    for num_bands in 2..=NUM_BANDS {
        let mut engine = fresh_engine();
        engine.update(48_000, num_bands, frequencies);
        for i in 0..F {
            let mut sum: i64 = 0;
            for b in 0..num_bands {
                sum += engine.band_filters[b].coefficients.taps[i];
            }
            let expect = if i == CENTER { UNIT } else { 0 };
            assert_eq!(sum, expect, "band sum off at tap {i}, {num_bands} bands");
        }
    }
}

#[test]
fn impulse_through_two_bands_reconstructs_delayed_impulse() {
    // The concrete scenario: two bands split at 1 kHz, 48 kHz sample rate.
    // Each band processes the unit impulse separately; the two output
    // streams summed give 1.0 at sample 60 and 0.0 everywhere else.
    let mut engine = fresh_engine();
    engine.update(48_000, 2, [1_000, 5_000, 10_000, 15_000]);

    let mut outputs = zero_outputs();
    for n in 0..3 * F {
        let input = if n == 0 {
            SamplePair { left: UNIT, right: UNIT }
        } else {
            SamplePair { left: 0, right: 0 }
        };
        engine.process(2, input, &mut outputs);
        let left_sum = outputs[0].left + outputs[1].left;
        let right_sum = outputs[0].right + outputs[1].right;
        let expect = if n == CENTER { UNIT } else { 0 };
        assert_eq!(left_sum, expect, "left sum off at sample {n}");
        assert_eq!(right_sum, expect, "right sum off at sample {n}");
    }
}

#[test]
fn impulse_through_five_bands_reconstructs_delayed_impulse() {
    let mut engine = fresh_engine();
    engine.update(44_100, NUM_BANDS, [120, 800, 3_000, 9_000]);

    let mut outputs = zero_outputs();
    for n in 0..2 * F {
        let input = if n == 0 {
            SamplePair { left: UNIT, right: UNIT }
        } else {
            SamplePair { left: 0, right: 0 }
        };
        engine.process(NUM_BANDS, input, &mut outputs);
        let mut left_sum: i64 = 0;
        let mut right_sum: i64 = 0;
        for b in 0..NUM_BANDS {
            left_sum += outputs[b].left;
            right_sum += outputs[b].right;
        }
        let expect = if n == CENTER { UNIT } else { 0 };
        assert_eq!(left_sum, expect, "left sum off at sample {n}");
        assert_eq!(right_sum, expect, "right sum off at sample {n}");
    }
}

#[test]
fn default_filter_is_a_pure_delay() {
    // A band filter that has never been updated must delay by F / 2
    // samples, exactly.
    let mut filter = FirFilter::default();
    let signal = |n: usize| -> i64 { (n as i64 + 1) * 1_000_003 - 700 * (n as i64 % 13) };
    for n in 0..200 {
        let x = SamplePair { left: signal(n), right: -signal(n) };
        let y = filter.process(x);
        if n < CENTER {
            assert_eq!(y.left, 0, "expected leading silence at {n}");
            assert_eq!(y.right, 0);
        } else {
            assert_eq!(y.left, signal(n - CENTER), "wrong delayed value at {n}");
            assert_eq!(y.right, -signal(n - CENTER));
        }
    }
}

#[test]
fn reset_makes_replay_identical() {
    let mut engine = fresh_engine();
    engine.update(48_000, 3, [300, 2_500, 8_000, 12_000]);

    let signal = |n: usize| -> i64 { ((n as i64 * 37) % 1_024 - 512) * 2_000_000 };
    let mut outputs = zero_outputs();

    let mut first_run: Vec<Vec<SamplePair>> = Vec::new();
    for n in 0..150 {
        let x = SamplePair { left: signal(n), right: signal(n + 7) };
        engine.process(3, x, &mut outputs);
        first_run.push(outputs.clone());
    }

    engine.reset();

    for n in 0..150 {
        let x = SamplePair { left: signal(n), right: signal(n + 7) };
        engine.process(3, x, &mut outputs);
        assert_eq!(outputs[..3], first_run[n][..3], "replay differs at {n}");
    }
}

#[test]
fn inactive_band_slots_are_left_untouched() {
    let mut engine = fresh_engine();
    engine.update(48_000, 2, [1_000, 2_000, 4_000, 8_000]);

    let sentinel = SamplePair { left: 123_456, right: -654_321 };
    let mut outputs = vec![sentinel; NUM_BANDS];
    engine.process(2, SamplePair { left: UNIT, right: UNIT }, &mut outputs);
    for b in 2..NUM_BANDS {
        assert_eq!(outputs[b], sentinel, "slot {b} was written");
    }
}

#[test]
fn update_leaves_delay_lines_running() {
    // Changing coefficients must not clear history: a second update with
    // the same frequencies must not change what comes out next.
    let mut a = fresh_engine();
    let mut b = fresh_engine();
    let freqs: [u32; 4] = [500, 2_000, 6_000, 11_000];
    a.update(48_000, 2, freqs);
    b.update(48_000, 2, freqs);

    let mut out_a = zero_outputs();
    let mut out_b = zero_outputs();
    for n in 0..50 {
        let x = SamplePair { left: (n as i64 + 1) * 999_983, right: 0 };
        a.process(2, x, &mut out_a);
        b.process(2, x, &mut out_b);
    }
    // Engine a re-applies the same design; its history must survive.
    a.update(48_000, 2, freqs);
    for n in 50..80 {
        let x = SamplePair { left: (n as i64 + 1) * 999_983, right: 0 };
        a.process(2, x, &mut out_a);
        b.process(2, x, &mut out_b);
        assert_eq!(out_a[0], out_b[0], "delay state lost at {n}");
        assert_eq!(out_a[1], out_b[1]);
    }
}

#[test]
fn degenerate_crossover_frequency_still_reconstructs() {
    // A zero-hertz crossover gives a silent low band; the top band then
    // carries the whole signal and the tap-by-tap sum is still exact.
    let mut engine = fresh_engine();
    engine.update(48_000, 2, [0, 1_000, 2_000, 4_000]);
    for i in 0..F {
        let sum = engine.band_filters[0].coefficients.taps[i]
            + engine.band_filters[1].coefficients.taps[i];
        let expect = if i == CENTER { UNIT } else { 0 };
        assert_eq!(sum, expect, "band sum off at tap {i}");
    }
}
