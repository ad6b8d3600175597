//! Fixed-point cosine and sine.
//!
//! The filter design needs trigonometric values in two places: the biquad
//! low-pass target (cosine and sine of the normalized cutoff) and the
//! Blackman window weights. A quarter-wave Taylor polynomial of degree twelve
//! evaluated in Q2.30 is accurate to a few units in the last place, far below
//! the rounding the kernel normalization itself introduces.

use vstd::prelude::*;
use crate::fixed::{
    fclamp, fmul, iabs, lemma_fmul_bound, lemma_fmul_sign, tz_div,
    clamp_to, div_trunc, q30_mul, UNIT,
};

verus! {

/// Half pi in Q2.30.
pub const HALF_PI: i64 = 1_686_629_713;

/// Pi in Q2.30, exactly twice `HALF_PI` so quadrant folding is exact.
pub const PI_RAD: i64 = 3_373_259_426;

/// Two pi in Q2.30, exactly four times `HALF_PI`.
pub const TWO_PI: i64 = 6_746_518_852;

/// The quarter-wave polynomial: a degree-twelve Taylor expansion of cosine
/// around zero, evaluated by Horner's rule in Q2.30. Meaningful on
/// [0, HALF_PI].
pub open spec fn cos_poly(x: int) -> int {
    let y = fmul(x, x);
    let u5 = UNIT - tz_div(y, 132);
    let u4 = UNIT - tz_div(fmul(y, u5), 90);
    let u3 = UNIT - tz_div(fmul(y, u4), 56);
    let u2 = UNIT - tz_div(fmul(y, u3), 30);
    let u1 = UNIT - tz_div(fmul(y, u2), 12);
    UNIT - tz_div(fmul(y, u1), 2)
}

/// Cosine of a nonnegative Q2.30 angle, reduced modulo `TWO_PI` and folded
/// onto the first quadrant, clamped into [-UNIT, UNIT].
pub open spec fn cos_spec(theta: int) -> int {
    let t = theta % (TWO_PI as int);
    if t < HALF_PI {
        fclamp(cos_poly(t), UNIT as int)
    } else if t < PI_RAD {
        -fclamp(cos_poly(PI_RAD - t), UNIT as int)
    } else if t < PI_RAD + HALF_PI {
        -fclamp(cos_poly(t - PI_RAD), UNIT as int)
    } else {
        fclamp(cos_poly(TWO_PI - t), UNIT as int)
    }
}

/// Sine through the cosine phase shift, on the same raw angle scale.
pub open spec fn sin_spec(theta: int) -> int {
    cos_spec(theta + 3 * (HALF_PI as int))
}

/// A nonnegative value at most 3 UNIT, divided by at least 3, lands in
/// [0, UNIT].
proof fn lemma_third_in_unit(v: int, d: int)
    requires
        0 <= v <= 3 * UNIT,
        3 <= d,
    ensures
        0 <= tz_div(v, d) <= UNIT,
{
    vstd::arithmetic::div_mod::lemma_div_pos_is_pos(v, d);
    vstd::arithmetic::div_mod::lemma_div_is_ordered(v, 3 * (UNIT as int), d);
    vstd::arithmetic::div_mod::lemma_div_is_ordered_by_denominator(3 * (UNIT as int), 3, d);
    assert((3 * (UNIT as int)) / 3 == UNIT) by {
        vstd::arithmetic::div_mod::lemma_div_by_multiple(UNIT as int, 3);
        assert(3 * (UNIT as int) == (UNIT as int) * 3) by (nonlinear_arith);
    }
}

/// One Horner step: with y a first-quadrant square and the running factor in
/// [0, UNIT], the next product and factor stay in range. The factor that
/// feeds the final division by two is covered by the product bound alone.
proof fn lemma_horner_step(y: int, u: int, d: int)
    requires
        0 <= y <= 3 * UNIT,
        0 <= u <= UNIT,
        2 <= d,
    ensures
        0 <= fmul(y, u) <= 3 * UNIT,
        d >= 3 ==> 0 <= UNIT - tz_div(fmul(y, u), d) <= UNIT,
        d == 2 ==> iabs(UNIT - tz_div(fmul(y, u), d)) <= 2 * UNIT,
{
    lemma_fmul_sign(y, u);
    lemma_fmul_bound(y, u, 3 * (UNIT as int), UNIT as int);
    assert((3 * (UNIT as int)) * (UNIT as int) / (UNIT as int) == 3 * (UNIT as int)) by {
        vstd::arithmetic::div_mod::lemma_div_by_multiple(3 * (UNIT as int), UNIT as int);
    }
    if d >= 3 {
        lemma_third_in_unit(fmul(y, u), d);
    } else {
        vstd::arithmetic::div_mod::lemma_div_pos_is_pos(fmul(y, u), d);
        vstd::arithmetic::div_mod::lemma_div_nonincreasing(fmul(y, u), d);
    }
}

/// The square of a first-quadrant angle stays below 3 UNIT.
proof fn lemma_quadrant_square(x: int)
    requires
        0 <= x <= HALF_PI,
    ensures
        0 <= fmul(x, x) <= 3 * UNIT,
{
    lemma_fmul_sign(x, x);
    lemma_fmul_bound(x, x, HALF_PI as int, HALF_PI as int);
    assert((HALF_PI as int) * (HALF_PI as int) / (UNIT as int) <= 3 * (UNIT as int)) by {
        vstd::arithmetic::div_mod::lemma_div_is_ordered(
            (HALF_PI as int) * (HALF_PI as int),
            3 * (UNIT as int) * (UNIT as int),
            UNIT as int,
        );
        vstd::arithmetic::div_mod::lemma_div_by_multiple(3 * (UNIT as int), UNIT as int);
        assert(3 * (UNIT as int) * (UNIT as int) == (3 * (UNIT as int)) * (UNIT as int))
            by (nonlinear_arith);
    }
}

/// Evaluate the quarter-wave polynomial.
fn cos_poly_exec(x: i64) -> (r: i64)
    requires
        0 <= x <= HALF_PI,
    ensures
        r == cos_poly(x as int),
        iabs(r as int) <= 2 * UNIT,
{
    let y: i64 = q30_mul(x, x);
    proof {
        lemma_quadrant_square(x as int);
        lemma_third_in_unit(y as int, 132);
    }
    let u5: i64 = UNIT - div_trunc(y, 132);
    proof {
        lemma_horner_step(y as int, u5 as int, 90);
    }
    let u4: i64 = UNIT - div_trunc(q30_mul(y, u5), 90);
    proof {
        lemma_horner_step(y as int, u4 as int, 56);
    }
    let u3: i64 = UNIT - div_trunc(q30_mul(y, u4), 56);
    proof {
        lemma_horner_step(y as int, u3 as int, 30);
    }
    let u2: i64 = UNIT - div_trunc(q30_mul(y, u3), 30);
    proof {
        lemma_horner_step(y as int, u2 as int, 12);
    }
    let u1: i64 = UNIT - div_trunc(q30_mul(y, u2), 12);
    proof {
        lemma_horner_step(y as int, u1 as int, 2);
    }
    UNIT - div_trunc(q30_mul(y, u1), 2)
}

/// Cosine of a nonnegative Q2.30 angle.
pub fn cos_q30(theta: i64) -> (r: i64)
    requires
        0 <= theta,
    ensures
        r == cos_spec(theta as int),
        -UNIT <= r <= UNIT,
{
    let t: i64 = ((theta as u64) % (TWO_PI as u64)) as i64;
    if t < HALF_PI {
        clamp_to(cos_poly_exec(t), UNIT)
    } else if t < PI_RAD {
        -clamp_to(cos_poly_exec(PI_RAD - t), UNIT)
    } else if t < PI_RAD + HALF_PI {
        -clamp_to(cos_poly_exec(t - PI_RAD), UNIT)
    } else {
        clamp_to(cos_poly_exec(TWO_PI - t), UNIT)
    }
}

/// Sine of a nonnegative Q2.30 angle.
pub fn sin_q30(theta: i64) -> (r: i64)
    requires
        0 <= theta,
        theta <= i64::MAX - 3 * (HALF_PI as int),
    ensures
        r == sin_spec(theta as int),
        -UNIT <= r <= UNIT,
{
    cos_q30(theta + 3 * HALF_PI)
}

} // verus!
