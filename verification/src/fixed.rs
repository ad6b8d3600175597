//! Scalar fixed-point arithmetic.
//!
//! Samples, filter taps and biquad coefficients are signed 64-bit values in a
//! Q2.30 format: the raw value divided by `UNIT` is the audio value it stands
//! for. Products and quotients round toward zero, exactly as the executable
//! code computes them, so specifications can speak about results bit-for-bit.

use vstd::prelude::*;

verus! {

/// One (unity gain) in the Q2.30 fixed-point format.
pub const UNIT: i64 = 0x4000_0000;

/// Magnitude bound for biquad probe values and for normalized low-pass taps.
pub const PROBE_LIMIT: i64 = 0x40_0000_0000;

/// Magnitude bound for every tap of a well-formed FIR kernel.
pub const TAP_LIMIT: i64 = 0x100_0000_0000;

/// Largest input sample magnitude accepted by the convolution path.
pub const SAMPLE_LIMIT: i64 = 0x100_0000_0000;

/// Magnitude bound on the biquad coefficients produced by the low-pass design.
pub const COEF_LIMIT: i64 = 0x2_0000_0000;

/// Operand bound for the fixed-point multiply and divide helpers.
pub const OPERAND_LIMIT: i64 = 0x2000_0000_0000;

/// Absolute value of a mathematical integer.
pub open spec fn iabs(a: int) -> int {
    if a >= 0 {
        a
    } else {
        -a
    }
}

/// Integer division rounding toward zero, as the hardware divide does.
pub open spec fn tz_div(a: int, b: int) -> int
    recommends
        b != 0,
{
    if (a >= 0) == (b >= 0) {
        iabs(a) / iabs(b)
    } else {
        -(iabs(a) / iabs(b))
    }
}

/// The fixed-point product: a * b scaled back down by `UNIT`, toward zero.
pub open spec fn fmul(a: int, b: int) -> int {
    tz_div(a * b, UNIT as int)
}

/// The fixed-point quotient: a scaled up by `UNIT`, divided by b, toward zero.
pub open spec fn fdiv(a: int, b: int) -> int
    recommends
        b != 0,
{
    tz_div(a * (UNIT as int), b)
}

/// Clamp v into [-limit, limit].
pub open spec fn fclamp(v: int, limit: int) -> int {
    if v > limit {
        limit
    } else if v < -limit {
        -limit
    } else {
        v
    }
}

/// Clamp v into [0, UNIT]; used for window weights.
pub open spec fn fclamp01(v: int) -> int {
    if v < 0 {
        0
    } else if v > UNIT {
        UNIT as int
    } else {
        v
    }
}

/// Round-toward-zero division leaves a remainder smaller in magnitude than
/// the divisor and with the sign of the dividend.
pub proof fn lemma_tz_div(a: int, b: int)
    requires
        b != 0,
    ensures
        iabs(a - tz_div(a, b) * b) < iabs(b),
        a >= 0 ==> a - tz_div(a, b) * b >= 0,
        a <= 0 ==> a - tz_div(a, b) * b <= 0,
{
    let ua = iabs(a);
    let ub = iabs(b);
    let q = ua / ub;
    let r = ua % ub;
    vstd::arithmetic::div_mod::lemma_fundamental_div_mod(ua, ub);
    vstd::arithmetic::div_mod::lemma_mod_bound(ua, ub);
    assert(ua == ub * q + r);
    if (a >= 0) == (b >= 0) {
        if a >= 0 {
            assert(a - q * b == r) by (nonlinear_arith)
                requires
                    a == ua,
                    b == ub,
                    ua == ub * q + r,
            {}
        } else {
            assert(a - q * b == -r) by (nonlinear_arith)
                requires
                    a == -ua,
                    b == -ub,
                    ua == ub * q + r,
            {}
        }
    } else {
        if a >= 0 {
            assert(a - (-q) * b == r) by (nonlinear_arith)
                requires
                    a == ua,
                    b == -ub,
                    ua == ub * q + r,
            {}
        } else {
            assert(a - (-q) * b == -r) by (nonlinear_arith)
                requires
                    a == -ua,
                    b == ub,
                    ua == ub * q + r,
            {}
        }
    }
}

/// The magnitude of a rounded quotient is the quotient of the magnitudes.
pub proof fn lemma_tz_div_abs(a: int, b: int)
    requires
        b != 0,
    ensures
        iabs(tz_div(a, b)) == iabs(a) / iabs(b),
        iabs(a) < iabs(b) ==> tz_div(a, b) == 0,
{
    vstd::arithmetic::div_mod::lemma_div_pos_is_pos(iabs(a), iabs(b));
    if iabs(a) < iabs(b) {
        vstd::arithmetic::div_mod::lemma_basic_div(iabs(a), iabs(b));
    }
}

/// Quotients of larger dividends are at least as large.
pub proof fn lemma_div_le(x: int, y: int, d: int)
    requires
        0 <= x <= y,
        0 < d,
    ensures
        x / d <= y / d,
{
    vstd::arithmetic::div_mod::lemma_div_is_ordered(x, y, d);
}

/// A product of bounded factors gives a bounded fixed-point product.
pub proof fn lemma_fmul_bound(a: int, b: int, ba: int, bb: int)
    requires
        iabs(a) <= ba,
        iabs(b) <= bb,
    ensures
        iabs(fmul(a, b)) <= (ba * bb) / (UNIT as int),
{
    assert(iabs(a * b) == iabs(a) * iabs(b)) by (nonlinear_arith);
    assert(iabs(a) * iabs(b) <= ba * bb) by (nonlinear_arith)
        requires
            0 <= iabs(a) <= ba,
            0 <= iabs(b) <= bb,
    {}
    lemma_tz_div_abs(a * b, UNIT as int);
    lemma_div_le(iabs(a * b), ba * bb, UNIT as int);
}

/// Bounds stated in whole units: the fixed-point product of values below
/// ma and mb units lies below ma * mb units.
pub proof fn lemma_fmul_units(a: int, b: int, ma: int, mb: int)
    requires
        0 <= ma,
        0 <= mb,
        iabs(a) <= ma * UNIT,
        iabs(b) <= mb * UNIT,
    ensures
        iabs(fmul(a, b)) <= ma * mb * UNIT,
{
    lemma_fmul_bound(a, b, ma * (UNIT as int), mb * (UNIT as int));
    assert((ma * (UNIT as int)) * (mb * (UNIT as int)) == (ma * mb * (UNIT as int)) * (UNIT as int))
        by (nonlinear_arith);
    assert(0 <= ma * mb * (UNIT as int)) by (nonlinear_arith)
        requires
            0 <= ma,
            0 <= mb,
    {}
    vstd::arithmetic::div_mod::lemma_div_by_multiple(ma * mb * (UNIT as int), UNIT as int);
}

/// Scaling by a weight in [0, UNIT] cannot grow a value's magnitude.
pub proof fn lemma_fmul_by_frac(a: int, w: int)
    requires
        0 <= w <= UNIT,
    ensures
        iabs(fmul(a, w)) <= iabs(a),
{
    lemma_fmul_bound(a, w, iabs(a), UNIT as int);
    assert((iabs(a) * (UNIT as int)) / (UNIT as int) == iabs(a)) by {
        vstd::arithmetic::div_mod::lemma_div_by_multiple(iabs(a), UNIT as int);
    }
}

/// Multiplying by `UNIT` is the identity, and by zero gives zero.
pub proof fn lemma_fmul_trivial(a: int)
    ensures
        fmul(UNIT as int, a) == a,
        fmul(a, UNIT as int) == a,
        fmul(0, a) == 0,
        fmul(a, 0) == 0,
{
    assert(iabs((UNIT as int) * a) == (UNIT as int) * iabs(a)) by (nonlinear_arith);
    assert(a * (UNIT as int) == (UNIT as int) * a) by (nonlinear_arith);
    assert(((UNIT as int) * iabs(a)) / (UNIT as int) == iabs(a)) by {
        vstd::arithmetic::div_mod::lemma_div_by_multiple(iabs(a), UNIT as int);
        assert(iabs(a) * (UNIT as int) == (UNIT as int) * iabs(a)) by (nonlinear_arith);
    }
}

/// A fixed-point product of factors of equal sign is nonnegative; of opposite
/// signs, nonpositive.
pub proof fn lemma_fmul_sign(a: int, b: int)
    ensures
        a >= 0 && b >= 0 ==> fmul(a, b) >= 0,
        a >= 0 && b <= 0 ==> fmul(a, b) <= 0,
        a <= 0 && b >= 0 ==> fmul(a, b) <= 0,
        a <= 0 && b <= 0 ==> fmul(a, b) >= 0,
{
    assert((a >= 0 && b >= 0 || a <= 0 && b <= 0) ==> a * b >= 0) by (nonlinear_arith);
    assert((a >= 0 && b <= 0 || a <= 0 && b >= 0) ==> a * b <= 0) by (nonlinear_arith);
    vstd::arithmetic::div_mod::lemma_div_pos_is_pos(iabs(a * b), UNIT as int);
}

/// Integer division rounded toward zero.
pub fn div_trunc(a: i64, b: i64) -> (r: i64)
    requires
        b > 0,
        iabs(a as int) <= OPERAND_LIMIT as int,
    ensures
        r == tz_div(a as int, b as int),
{
    let ua: u64 = if a >= 0 {
        a as u64
    } else {
        (-a) as u64
    };
    proof {
        assert(ua == iabs(a as int));
        lemma_tz_div_abs(a as int, b as int);
    }
    let q: u64 = ua / (b as u64);
    if a >= 0 {
        q as i64
    } else {
        -(q as i64)
    }
}

/// The fixed-point product, rounded toward zero.
pub fn q30_mul(a: i64, b: i64) -> (r: i64)
    requires
        iabs(a as int) <= OPERAND_LIMIT as int,
        iabs(b as int) <= OPERAND_LIMIT as int,
    ensures
        r == fmul(a as int, b as int),
{
    let ua: u128 = if a >= 0 {
        a as u128
    } else {
        (-(a as i128)) as u128
    };
    let ub: u128 = if b >= 0 {
        b as u128
    } else {
        (-(b as i128)) as u128
    };
    proof {
        assert(ua == iabs(a as int));
        assert(ub == iabs(b as int));
        assert(iabs((a as int) * (b as int)) == iabs(a as int) * iabs(b as int))
            by (nonlinear_arith);
        assert(iabs(a as int) * iabs(b as int) <= (OPERAND_LIMIT as int) * (OPERAND_LIMIT as int))
            by (nonlinear_arith)
            requires
                0 <= iabs(a as int) <= OPERAND_LIMIT as int,
                0 <= iabs(b as int) <= OPERAND_LIMIT as int,
        {}
        lemma_tz_div_abs((a as int) * (b as int), UNIT as int);
        lemma_div_le(
            iabs((a as int) * (b as int)),
            (OPERAND_LIMIT as int) * (OPERAND_LIMIT as int),
            UNIT as int,
        );
        assert(((a as int) * (b as int) >= 0) == (a >= 0 && b >= 0 || a <= 0 && b <= 0))
            by (nonlinear_arith);
        assert((a == 0 || b == 0) ==> (a as int) * (b as int) == 0) by (nonlinear_arith);
    }
    let q: u128 = (ua * ub) / (UNIT as u128);
    proof {
        assert(q == iabs((a as int) * (b as int)) / (UNIT as int));
        assert(q <= (OPERAND_LIMIT as int) * (OPERAND_LIMIT as int) / (UNIT as int));
        assert((OPERAND_LIMIT as int) * (OPERAND_LIMIT as int) / (UNIT as int)
            < 0x8000_0000_0000_0000) by (nonlinear_arith);
    }
    if (a >= 0) == (b >= 0) {
        proof {
            assert((a as int) * (b as int) >= 0);
            assert(fmul(a as int, b as int) == q);
        }
        q as i64
    } else {
        proof {
            assert(!((a as int) * (b as int) >= 0) || (a as int) * (b as int) == 0);
            assert(fmul(a as int, b as int) == -(q as int));
        }
        -(q as i64)
    }
}

/// The fixed-point quotient, rounded toward zero and clamped into
/// [-limit, limit].
pub fn q30_div_clamped(a: i64, b: i64, limit: i64) -> (r: i64)
    requires
        b != 0,
        0 < limit <= OPERAND_LIMIT,
        iabs(a as int) <= OPERAND_LIMIT as int,
    ensures
        r == fclamp(fdiv(a as int, b as int), limit as int),
{
    let ua: u128 = if a >= 0 {
        a as u128
    } else {
        (-(a as i128)) as u128
    };
    let ub: u128 = if b >= 0 {
        b as u128
    } else {
        (-(b as i128)) as u128
    };
    proof {
        assert(ua == iabs(a as int));
        assert(ub == iabs(b as int));
        assert(iabs((a as int) * (UNIT as int)) == iabs(a as int) * (UNIT as int))
            by (nonlinear_arith);
        lemma_tz_div_abs((a as int) * (UNIT as int), b as int);
        assert(((a as int) * (UNIT as int) >= 0) == ((a as int) >= 0)) by (nonlinear_arith);
    }
    let q: u128 = (ua * (UNIT as u128)) / ub;
    let ql: u128 = if q > limit as u128 {
        limit as u128
    } else {
        q
    };
    if (a >= 0) == (b >= 0) {
        ql as i64
    } else {
        -(ql as i64)
    }
}

/// Clamp into [-limit, limit].
pub fn clamp_to(v: i64, limit: i64) -> (r: i64)
    requires
        0 < limit,
    ensures
        r == fclamp(v as int, limit as int),
{
    if v > limit {
        limit
    } else if v < -limit {
        -limit
    } else {
        v
    }
}

/// Clamp into [0, UNIT].
pub fn clamp_unit(v: i64) -> (r: i64)
    ensures
        r == fclamp01(v as int),
{
    if v < 0 {
        0
    } else if v > UNIT {
        UNIT
    } else {
        v
    }
}

} // verus!
