//! Tests of the fixed-point trigonometry, the biquad target, and the
//! linear-phase kernel designer, against exact values and an f64 reference.

use crossover::biquad::{BiquadCoefficients, NEUTRAL_Q};
use crossover::fir_design::FirCoefficients;
use crossover::fixed::UNIT;
use crossover::trig::{cos_q30, sin_q30, HALF_PI, PI_RAD, TWO_PI};

const F: usize = 121;
const CENTER: usize = 60;

fn to_f64(raw: i64) -> f64 {
    raw as f64 / UNIT as f64
}

#[test]
fn unit_is_two_to_the_thirty() {
    assert_eq!(UNIT, 1i64 << 30);
}

#[test]
fn cosine_of_zero_is_one() {
    assert_eq!(cos_q30(0), UNIT);
}

#[test]
fn cosine_matches_float_reference() {
    // Sweep a little over one period in uneven steps.
    let mut theta: i64 = 0;
    while theta < TWO_PI + HALF_PI {
        let got = to_f64(cos_q30(theta));
        let expect = (theta as f64 / UNIT as f64).cos();
        assert!(
            (got - expect).abs() < 1e-6,
            "cos({theta}) = {got}, expected {expect}"
        );
        theta += 37_000_001;
    }
}

#[test]
fn sine_matches_float_reference() {
    let mut theta: i64 = 0;
    while theta < TWO_PI + HALF_PI {
        let got = to_f64(sin_q30(theta));
        let expect = (theta as f64 / UNIT as f64).sin();
        assert!(
            (got - expect).abs() < 1e-6,
            "sin({theta}) = {got}, expected {expect}"
        );
        theta += 41_000_003;
    }
}

#[test]
fn cosine_at_quadrant_boundaries() {
    assert!((to_f64(cos_q30(HALF_PI)) - 0.0).abs() < 1e-6);
    assert!((to_f64(cos_q30(PI_RAD)) + 1.0).abs() < 1e-6);
    assert!((to_f64(cos_q30(3 * HALF_PI)) - 0.0).abs() < 1e-6);
    assert!((to_f64(cos_q30(TWO_PI)) - 1.0).abs() < 1e-6);
}

/// The textbook low-pass biquad formulas in f64.
fn reference_lowpass(fs: f64, f0: f64, q: f64) -> (f64, f64, f64, f64, f64) {
    let w0 = std::f64::consts::TAU * f0 / fs;
    let cw = w0.cos();
    let sw = w0.sin();
    let alpha = sw / (2.0 * q);
    let a0 = 1.0 + alpha;
    let b0 = ((1.0 - cw) / 2.0) / a0;
    let b1 = (1.0 - cw) / a0;
    (b0, b1, b0, (-2.0 * cw) / a0, (1.0 - alpha) / a0)
}

#[test]
fn lowpass_coefficients_match_float_reference() {
    let c = BiquadCoefficients::lowpass(48_000, 1_000, NEUTRAL_Q);
    let (b0, b1, b2, a1, a2) = reference_lowpass(48_000.0, 1_000.0, 0.7071067811865476);
    assert!((to_f64(c.b0) - b0).abs() < 1e-6);
    assert!((to_f64(c.b1) - b1).abs() < 1e-6);
    assert!((to_f64(c.b2) - b2).abs() < 1e-6);
    assert!((to_f64(c.a1) - a1).abs() < 1e-6);
    assert!((to_f64(c.a2) - a2).abs() < 1e-6);
}

#[test]
fn identity_kernel_is_centered_unit_impulse() {
    let id = FirCoefficients::identity();
    assert_eq!(id.taps.len(), F);
    for (i, &t) in id.taps.iter().enumerate() {
        if i == CENTER {
            assert_eq!(t, UNIT);
        } else {
            assert_eq!(t, 0);
        }
    }
}

#[test]
fn designed_kernel_sums_to_unity() {
    for &freq in &[100u32, 1_000, 5_000, 18_000] {
        let c = BiquadCoefficients::lowpass(48_000, freq, NEUTRAL_Q);
        let k = FirCoefficients::design_fourth_order_linear_phase_low_pass_from_biquad(c);
        let sum: i64 = k.taps.iter().sum();
        // The proved bound: at most 122 raw steps from exactly one, far
        // inside one part in 1e5.
        assert!(
            (sum - UNIT).abs() <= 122,
            "kernel sum {sum} strays from {UNIT} at {freq} Hz"
        );
    }
}

#[test]
fn designed_kernel_is_symmetric() {
    let c = BiquadCoefficients::lowpass(44_100, 700, NEUTRAL_Q);
    let k = FirCoefficients::design_fourth_order_linear_phase_low_pass_from_biquad(c);
    for i in 0..F {
        assert_eq!(k.taps[i], k.taps[F - 1 - i], "taps differ at {i}");
    }
}

/// The whole design pipeline in f64: impulse, bidirectional biquad pass,
/// half Blackman window, normalization, mirror.
fn reference_design(fs: f64, f0: f64) -> [f64; 121] {
    let (b0, b1, b2, a1, a2) = reference_lowpass(fs, f0, 0.7071067811865476);
    let mut ir = [0.0f64; 121];
    ir[CENTER] = 1.0;

    let (mut s1, mut s2) = (0.0f64, 0.0f64);
    for i in CENTER - 1..121 {
        let x = ir[i];
        let y = b0 * x + s1;
        s1 = b1 * x - a1 * y + s2;
        s2 = b2 * x - a2 * y;
        ir[i] = y;
    }
    s1 = 0.0;
    s2 = 0.0;
    for i in (CENTER - 1..121).rev() {
        let x = ir[i];
        let y = b0 * x + s1;
        s1 = b1 * x - a1 * y + s2;
        s2 = b2 * x - a2 * y;
        ir[i] = y;
    }

    let scale1 = std::f64::consts::TAU / 120.0;
    for i in CENTER - 1..121 {
        let w = 0.42 - 0.5 * (scale1 * i as f64).cos() + 0.08 * (2.0 * scale1 * i as f64).cos();
        ir[i] *= w;
    }

    let sum: f64 = ir[CENTER..].iter().sum::<f64>() * 2.0 - ir[CENTER];
    for v in ir.iter_mut() {
        *v /= sum;
    }

    for src in CENTER + 1..121 {
        ir[2 * CENTER - src] = ir[src];
    }
    ir
}

#[test]
fn designed_kernel_matches_float_reference() {
    for &freq in &[250u32, 1_000, 8_000] {
        let c = BiquadCoefficients::lowpass(48_000, freq, NEUTRAL_Q);
        let k = FirCoefficients::design_fourth_order_linear_phase_low_pass_from_biquad(c);
        let reference = reference_design(48_000.0, freq as f64);
        for i in 0..F {
            let got = to_f64(k.taps[i]);
            assert!(
                (got - reference[i]).abs() < 1e-4,
                "tap {i} at {freq} Hz: {got} vs {}",
                reference[i]
            );
        }
    }
}
