//! The biquad frequency-response target.
//!
//! A second-order recursive low-pass section supplies the magnitude response
//! that the linear-phase kernels approximate. It is probed with an impulse
//! during design and never run on audio. State and output are clamped to
//! `PROBE_LIMIT`, which keeps every step exact for any coefficients a caller
//! can construct while bounding the arithmetic.

use vstd::prelude::*;
use crate::fixed::{
    fclamp, fdiv, fmul, iabs, lemma_fmul_units, tz_div,
    clamp_to, div_trunc, q30_div_clamped, q30_mul,
    COEF_LIMIT, PROBE_LIMIT, UNIT,
};
use crate::trig::{cos_spec, sin_spec, cos_q30, sin_q30, TWO_PI};

verus! {

/// Butterworth quality factor for one stage of a Linkwitz-Riley pair.
pub const NEUTRAL_Q: i64 = 759_250_125;

/// Clamp bound for alpha; staying strictly below `UNIT` keeps the
/// normalization divisor positive for every input.
pub const ALPHA_LIMIT: i64 = 0x3FFF_FFFF;

/// Coefficients of a second-order recursive section in Q2.30, normalized so
/// the leading output coefficient is one.
#[derive(Clone, Copy, Debug, PartialEq, Eq, Structural)]
pub struct BiquadCoefficients {
    pub b0: i64,
    pub b1: i64,
    pub b2: i64,
    pub a1: i64,
    pub a2: i64,
}

/// The normalized angular frequency of a cutoff, reduced into one period.
pub open spec fn omega_spec(sample_rate: int, frequency: int) -> int {
    (((TWO_PI as int) * frequency) / sample_rate) % (TWO_PI as int)
}

/// The low-pass coefficient formulas, exactly as computed.
pub open spec fn lowpass_spec(sample_rate: int, frequency: int, q: int) -> BiquadCoefficients {
    let omega = omega_spec(sample_rate, frequency);
    let cw = cos_spec(omega);
    let sw = sin_spec(omega);
    let alpha = fclamp(fdiv(sw, 2 * q), ALPHA_LIMIT as int);
    let a0 = UNIT + alpha;
    let one_m_cos = UNIT - cw;
    BiquadCoefficients {
        b0: fclamp(fdiv(tz_div(one_m_cos, 2), a0), COEF_LIMIT as int) as i64,
        b1: fclamp(fdiv(one_m_cos, a0), COEF_LIMIT as int) as i64,
        b2: fclamp(fdiv(tz_div(one_m_cos, 2), a0), COEF_LIMIT as int) as i64,
        a1: fclamp(fdiv(-2 * cw, a0), COEF_LIMIT as int) as i64,
        a2: fclamp(fdiv(UNIT - alpha, a0), COEF_LIMIT as int) as i64,
    }
}

impl BiquadCoefficients {
    /// All coefficients within the design bound.
    pub open spec fn wf(self) -> bool {
        &&& iabs(self.b0 as int) <= COEF_LIMIT
        &&& iabs(self.b1 as int) <= COEF_LIMIT
        &&& iabs(self.b2 as int) <= COEF_LIMIT
        &&& iabs(self.a1 as int) <= COEF_LIMIT
        &&& iabs(self.a2 as int) <= COEF_LIMIT
    }

    /// A low-pass section targeting the given cutoff, via the cosine and
    /// sine of the normalized angular frequency.
    pub fn lowpass(sample_rate: u32, frequency: u32, q: i64) -> (r: BiquadCoefficients)
        requires
            sample_rate >= 1,
            0 < q <= 0x1000_0000_0000,
        ensures
            r == lowpass_spec(sample_rate as int, frequency as int, q as int),
            r.wf(),
    {
        let omega: i64 = ((((TWO_PI as u128) * (frequency as u128)) / (sample_rate as u128))
            % (TWO_PI as u128)) as i64;
        let cw: i64 = cos_q30(omega);
        let sw: i64 = sin_q30(omega);
        let alpha: i64 = q30_div_clamped(sw, 2 * q, ALPHA_LIMIT);
        let a0: i64 = UNIT + alpha;
        let one_m_cos: i64 = UNIT - cw;
        BiquadCoefficients {
            b0: q30_div_clamped(div_trunc(one_m_cos, 2), a0, COEF_LIMIT),
            b1: q30_div_clamped(one_m_cos, a0, COEF_LIMIT),
            b2: q30_div_clamped(div_trunc(one_m_cos, 2), a0, COEF_LIMIT),
            a1: q30_div_clamped(-2 * cw, a0, COEF_LIMIT),
            a2: q30_div_clamped(UNIT - alpha, a0, COEF_LIMIT),
        }
    }
}

/// The clamped output of one filter step.
pub open spec fn biquad_out(c: BiquadCoefficients, s1: int, s2: int, x: int) -> int {
    fclamp(fmul(c.b0 as int, x) + s1, PROBE_LIMIT as int)
}

/// The first delay register after one filter step.
pub open spec fn biquad_next_s1(c: BiquadCoefficients, s1: int, s2: int, x: int) -> int {
    fclamp(
        fmul(c.b1 as int, x) - fmul(c.a1 as int, biquad_out(c, s1, s2, x)) + s2,
        PROBE_LIMIT as int,
    )
}

/// The second delay register after one filter step.
pub open spec fn biquad_next_s2(c: BiquadCoefficients, s1: int, s2: int, x: int) -> int {
    fclamp(
        fmul(c.b2 as int, x) - fmul(c.a2 as int, biquad_out(c, s1, s2, x)),
        PROBE_LIMIT as int,
    )
}

/// A second-order recursive section in transposed direct form II.
#[derive(Clone, Copy, Debug)]
pub struct Biquad {
    pub coefficients: BiquadCoefficients,
    pub s1: i64,
    pub s2: i64,
}

impl Biquad {
    /// Coefficients in bound, state in bound.
    pub open spec fn wf(self) -> bool {
        &&& self.coefficients.wf()
        &&& iabs(self.s1 as int) <= PROBE_LIMIT
        &&& iabs(self.s2 as int) <= PROBE_LIMIT
    }

    /// A quiet section with the given coefficients.
    pub fn new(coefficients: BiquadCoefficients) -> (r: Biquad)
        requires
            coefficients.wf(),
        ensures
            r.coefficients == coefficients,
            r.s1 == 0,
            r.s2 == 0,
            r.wf(),
    {
        Biquad { coefficients, s1: 0, s2: 0 }
    }

    /// Clear the delay registers.
    pub fn reset(&mut self)
        ensures
            final(self).coefficients == old(self).coefficients,
            final(self).s1 == 0,
            final(self).s2 == 0,
            old(self).coefficients.wf() ==> final(self).wf(),
    {
        self.s1 = 0;
        self.s2 = 0;
    }

    /// Run one sample through the section.
    pub fn process(&mut self, x: i64) -> (y: i64)
        requires
            old(self).wf(),
            iabs(x as int) <= PROBE_LIMIT,
        ensures
            final(self).wf(),
            final(self).coefficients == old(self).coefficients,
            y == biquad_out(old(self).coefficients, old(self).s1 as int, old(self).s2 as int, x as int),
            final(self).s1 == biquad_next_s1(
                old(self).coefficients, old(self).s1 as int, old(self).s2 as int, x as int),
            final(self).s2 == biquad_next_s2(
                old(self).coefficients, old(self).s1 as int, old(self).s2 as int, x as int),
            iabs(y as int) <= PROBE_LIMIT,
    {
        proof {
            lemma_fmul_units(self.coefficients.b0 as int, x as int, 8, 256);
            lemma_fmul_units(self.coefficients.b1 as int, x as int, 8, 256);
            lemma_fmul_units(self.coefficients.b2 as int, x as int, 8, 256);
        }
        let y: i64 = clamp_to(q30_mul(self.coefficients.b0, x) + self.s1, PROBE_LIMIT);
        proof {
            lemma_fmul_units(self.coefficients.a1 as int, y as int, 8, 256);
            lemma_fmul_units(self.coefficients.a2 as int, y as int, 8, 256);
        }
        self.s1 = clamp_to(
            q30_mul(self.coefficients.b1, x) - q30_mul(self.coefficients.a1, y) + self.s2,
            PROBE_LIMIT,
        );
        self.s2 = clamp_to(
            q30_mul(self.coefficients.b2, x) - q30_mul(self.coefficients.a2, y),
            PROBE_LIMIT,
        );
        y
    }
}

} // verus!
