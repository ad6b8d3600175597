//! Proved properties of the kernel designer.
//!
//! The central statement: for every designable target, the finished kernel
//! sums to one, up to the rounding of the normalizing division — at most 122
//! raw fixed-point steps, about one part in ten million of full scale.

use vstd::prelude::*;
use crate::biquad::BiquadCoefficients;
use crate::fir_design::{
    design_spec, designable, lemma_sum_range_extend, mirrored, mirrored_total, normalized,
    probe_windowed, sum_range, CENTER_IDX, FILTER_SIZE,
};
use crate::fixed::{fdiv, iabs, lemma_tz_div, tz_div, UNIT};

verus! {

/// A range sum splits at any point between its bounds.
pub proof fn lemma_sum_range_split(s: Seq<i64>, lo: int, mid: int, hi: int)
    requires
        lo <= mid <= hi,
    ensures
        sum_range(s, lo, hi) == sum_range(s, lo, mid) + sum_range(s, mid, hi),
    decreases mid - lo,
{
    if lo < mid {
        lemma_sum_range_split(s, lo + 1, mid, hi);
    }
}

/// Sequences that agree on a range have the same sum over it.
pub proof fn lemma_sum_range_congruent(a: Seq<i64>, b: Seq<i64>, lo: int, hi: int)
    requires
        forall|i: int| lo <= i < hi ==> a[i] == b[i],
    ensures
        sum_range(a, lo, hi) == sum_range(b, lo, hi),
    decreases hi - lo,
{
    if lo < hi {
        lemma_sum_range_congruent(a, b, lo + 1, hi);
    }
}

/// The leading half of the mirrored kernel sums to the causal half above
/// the center: position lo holds what position 2*CENTER_IDX - lo holds.
proof fn lemma_mirror_half_sum(n: Seq<i64>, lo: int)
    requires
        n.len() == FILTER_SIZE,
        0 <= lo <= CENTER_IDX,
    ensures
        sum_range(mirrored(n), lo, CENTER_IDX as int) == sum_range(
            n,
            CENTER_IDX + 1,
            2 * (CENTER_IDX as int) - lo + 1,
        ),
    decreases CENTER_IDX - lo,
{
    if lo < CENTER_IDX {
        lemma_mirror_half_sum(n, lo + 1);
        lemma_sum_range_extend(n, CENTER_IDX + 1, 2 * (CENTER_IDX as int) - lo);
        assert(mirrored(n)[lo] == n[2 * (CENTER_IDX as int) - lo]);
    }
}

/// Dividing each entry of a sum by s, toward zero, moves the scaled sum by
/// less than one divisor step per entry.
proof fn lemma_scaled_sum(w: Seq<i64>, n: Seq<i64>, s: int, lo: int, hi: int)
    requires
        s != 0,
        lo <= hi,
        forall|i: int| lo <= i < hi ==> #[trigger] (n[i] as int) == tz_div(
            (w[i] as int) * (UNIT as int),
            s,
        ),
    ensures
        iabs(sum_range(n, lo, hi) * s - sum_range(w, lo, hi) * (UNIT as int)) <= (hi - lo) * (
        iabs(s) - 1),
    decreases hi - lo,
{
    if lo >= hi {
        assert(sum_range(n, lo, hi) == 0);
        assert(sum_range(w, lo, hi) == 0);
    } else {
        lemma_scaled_sum(w, n, s, lo + 1, hi);
        let q = tz_div((w[lo] as int) * (UNIT as int), s);
        lemma_tz_div((w[lo] as int) * (UNIT as int), s);
        let e = (w[lo] as int) * (UNIT as int) - q * s;
        assert(iabs(e) <= iabs(s) - 1);
        let rn = sum_range(n, lo + 1, hi);
        let rw = sum_range(w, lo + 1, hi);
        assert(sum_range(n, lo, hi) == n[lo] + rn);
        assert(sum_range(w, lo, hi) == w[lo] + rw);
        assert((n[lo] + rn) * s == (n[lo] as int) * s + rn * s) by (nonlinear_arith);
        assert((w[lo] + rw) * (UNIT as int) == (w[lo] as int) * (UNIT as int) + rw * (
        UNIT as int)) by (nonlinear_arith);
        assert(iabs(
            (n[lo] + rn) * s - (w[lo] + rw) * (UNIT as int),
        ) <= iabs(e) + iabs(rn * s - rw * (UNIT as int)));
        assert((hi - lo) * (iabs(s) - 1) == (iabs(s) - 1) + (hi - (lo + 1)) * (iabs(s) - 1))
            by (nonlinear_arith);
    }
}

/// A product bounded strictly under 123 divisor steps forces the factor
/// itself under 123.
proof fn lemma_quotient_bound(x: int, s: int)
    requires
        s != 0,
        iabs(x * s) <= 123 * (iabs(s) - 1),
    ensures
        iabs(x) <= 122,
{
    assert(iabs(x * s) == iabs(x) * iabs(s)) by (nonlinear_arith);
    if iabs(x) >= 123 {
        assert(iabs(x) * iabs(s) >= 123 * iabs(s)) by (nonlinear_arith)
            requires
                iabs(x) >= 123,
                iabs(s) >= 1,
        {}
        assert(123 * iabs(s) > 123 * (iabs(s) - 1)) by (nonlinear_arith);
    }
}

/// For every designable low-pass target, the finished kernel sums to one:
/// the full tap sum differs from `UNIT` by at most 122, the accumulated
/// rounding of the normalizing division.
pub proof fn lemma_design_kernel_sum(c: BiquadCoefficients)
    requires
        designable(c),
    ensures
        iabs(sum_range(design_spec(c), 0, FILTER_SIZE as int) - UNIT) <= 122,
{
    let w = probe_windowed(c);
    let s = mirrored_total(w);
    let n = normalized(w);
    let m = design_spec(c);
    crate::fir_design::lemma_design_bounded(c);

    // On the causal half the clamp never fires, so normalization is the
    // exact scaled division.
    assert forall|i: int| CENTER_IDX <= i < FILTER_SIZE implies #[trigger] (n[i] as int)
        == tz_div((w[i] as int) * (UNIT as int), s) by {
        assert(iabs(fdiv(w[i] as int, s)) <= crate::fixed::PROBE_LIMIT);
    }

    // Split the kernel sum into the mirrored half and the causal half.
    lemma_sum_range_split(m, 0, CENTER_IDX as int, FILTER_SIZE as int);
    lemma_mirror_half_sum(n, 0);
    assert(sum_range(m, 0, CENTER_IDX as int) == sum_range(
        n,
        CENTER_IDX + 1,
        FILTER_SIZE as int,
    ));
    lemma_sum_range_congruent(m, n, CENTER_IDX as int, FILTER_SIZE as int);
    let half = sum_range(n, CENTER_IDX as int, FILTER_SIZE as int);
    assert(sum_range(n, CENTER_IDX as int, FILTER_SIZE as int) == n[CENTER_IDX as int]
        + sum_range(n, CENTER_IDX + 1, FILTER_SIZE as int));
    let full = sum_range(m, 0, FILTER_SIZE as int);
    assert(full == 2 * half - n[CENTER_IDX as int]);

    // Bound the scaled distance between the normalized and raw sums.
    lemma_scaled_sum(w, n, s, CENTER_IDX as int, FILTER_SIZE as int);
    assert(iabs(half * s - sum_range(w, CENTER_IDX as int, FILTER_SIZE as int) * (
    UNIT as int)) <= 61 * (iabs(s) - 1));
    lemma_tz_div((w[CENTER_IDX as int] as int) * (UNIT as int), s);
    assert(iabs((n[CENTER_IDX as int] as int) * s - (w[CENTER_IDX as int] as int) * (
    UNIT as int)) <= iabs(s) - 1);

    // The raw causal sums assemble into the normalizing divisor itself.
    let wh = sum_range(w, CENTER_IDX as int, FILTER_SIZE as int);
    assert(s == 2 * wh - w[CENTER_IDX as int]);
    assert((full - UNIT) * s == 2 * (half * s - wh * (UNIT as int)) - ((n[
    CENTER_IDX as int] as int) * s - (w[CENTER_IDX as int] as int) * (UNIT as int)))
        by (nonlinear_arith)
        requires
            full == 2 * half - n[CENTER_IDX as int],
            s == 2 * wh - w[CENTER_IDX as int],
    {}
    assert(iabs((full - UNIT) * s) <= 123 * (iabs(s) - 1));
    lemma_quotient_bound(full - UNIT, s);
}

} // verus!
