//! Linear-phase low-pass kernel design.
//!
//! A biquad low-pass target is probed with an impulse, forward and then
//! backward, which squares its magnitude response and cancels its phase. The
//! right half of the probe is tapered by a half Blackman window, normalized
//! so the finished kernel sums to one, and mirrored about the center tap.
//! Every stage has a specification-level twin, so the produced taps are
//! pinned down value by value.

use vstd::prelude::*;
use vstd::pervasive::VecAdditionalExecFns;
use crate::biquad::{
    biquad_next_s1, biquad_next_s2, biquad_out, Biquad, BiquadCoefficients,
};
use crate::fixed::{
    fclamp, fclamp01, fdiv, fmul, iabs, lemma_fmul_by_frac,
    clamp_unit, q30_div_clamped, q30_mul,
    PROBE_LIMIT, UNIT,
};
use crate::trig::{cos_spec, cos_q30, TWO_PI};

verus! {

/// The number of taps in every kernel. Low-frequency resolution is limited
/// by this length.
pub const FILTER_SIZE: usize = 121;

/// The center tap index; also the latency of every kernel in samples.
pub const CENTER_IDX: usize = 60;

/// First half Blackman term, 0.42 in Q2.30.
pub const BLACKMAN_A: i64 = 450_971_566;

/// Second half Blackman term, 0.50 in Q2.30.
pub const BLACKMAN_B: i64 = 536_870_912;

/// Third half Blackman term, 0.08 in Q2.30.
pub const BLACKMAN_C: i64 = 85_899_346;

/// A unit impulse seated at the center tap: the identity kernel, a pure
/// delay of `CENTER_IDX` samples.
pub open spec fn unit_kernel() -> Seq<i64> {
    Seq::new(FILTER_SIZE as nat, |i: int| if i == CENTER_IDX { UNIT } else { 0i64 })
}

/// State of the probe after filtering k samples forward from index
/// `CENTER_IDX - 1`: the buffer and the two biquad registers.
pub open spec fn probe_fwd(c: BiquadCoefficients, ir: Seq<i64>, k: nat) -> (Seq<i64>, int, int)
    decreases k,
{
    if k == 0 {
        (ir, 0, 0)
    } else {
        let prev = probe_fwd(c, ir, (k - 1) as nat);
        let idx = CENTER_IDX - 1 + (k - 1);
        let x = prev.0[idx as int] as int;
        (
            prev.0.update(idx as int, biquad_out(c, prev.1, prev.2, x) as i64),
            biquad_next_s1(c, prev.1, prev.2, x),
            biquad_next_s2(c, prev.1, prev.2, x),
        )
    }
}

/// State of the probe after filtering k samples backward from the last
/// index down toward `CENTER_IDX - 1`.
pub open spec fn probe_bwd(c: BiquadCoefficients, ir: Seq<i64>, k: nat) -> (Seq<i64>, int, int)
    decreases k,
{
    if k == 0 {
        (ir, 0, 0)
    } else {
        let prev = probe_bwd(c, ir, (k - 1) as nat);
        let idx = FILTER_SIZE - 1 - (k - 1);
        let x = prev.0[idx as int] as int;
        (
            prev.0.update(idx as int, biquad_out(c, prev.1, prev.2, x) as i64),
            biquad_next_s1(c, prev.1, prev.2, x),
            biquad_next_s2(c, prev.1, prev.2, x),
        )
    }
}

/// The half Blackman window weight at a given tap index, clamped into
/// [0, UNIT].
pub open spec fn window_weight(i: int) -> int {
    let th1 = ((TWO_PI as int) * i) / (FILTER_SIZE - 1);
    let th2 = 2 * th1;
    fclamp01(
        BLACKMAN_A - fmul(BLACKMAN_B as int, cos_spec(th1)) + fmul(
            BLACKMAN_C as int,
            cos_spec(th2),
        ),
    )
}

/// The probe with the window applied to the causal half.
pub open spec fn windowed(ir: Seq<i64>) -> Seq<i64> {
    Seq::new(
        FILTER_SIZE as nat,
        |i: int|
            if i >= CENTER_IDX - 1 {
                fmul(ir[i] as int, window_weight(i)) as i64
            } else {
                ir[i]
            },
    )
}

/// The windowed causal half of the probe for the given target: what the
/// normalization divides by is computed from this.
pub open spec fn probe_windowed(c: BiquadCoefficients) -> Seq<i64> {
    windowed(probe_bwd(c, probe_fwd(c, unit_kernel(), 62).0, 62).0)
}

/// Sum of the entries at indices [lo, hi).
pub open spec fn sum_range(s: Seq<i64>, lo: int, hi: int) -> int
    decreases hi - lo,
{
    if lo >= hi {
        0
    } else {
        s[lo] + sum_range(s, lo + 1, hi)
    }
}

/// The sum the finished kernel would have: the causal half counted twice,
/// the center tap once.
pub open spec fn mirrored_total(ir: Seq<i64>) -> int {
    2 * sum_range(ir, CENTER_IDX as int, FILTER_SIZE as int) - ir[CENTER_IDX as int]
}

/// The probe scaled so the finished kernel sums to one. A degenerate target
/// whose causal half sums to zero is left unscaled.
pub open spec fn normalized(ir: Seq<i64>) -> Seq<i64> {
    let s = mirrored_total(ir);
    if s == 0 {
        ir
    } else {
        Seq::new(
            FILTER_SIZE as nat,
            |i: int| fclamp(fdiv(ir[i] as int, s), PROBE_LIMIT as int) as i64,
        )
    }
}

/// The causal half copied onto the leading half about the center tap.
pub open spec fn mirrored(ir: Seq<i64>) -> Seq<i64> {
    Seq::new(
        FILTER_SIZE as nat,
        |i: int|
            if i < CENTER_IDX {
                ir[2 * (CENTER_IDX as int) - i]
            } else {
                ir[i]
            },
    )
}

/// The finished kernel for a biquad low-pass target.
pub open spec fn design_spec(c: BiquadCoefficients) -> Seq<i64> {
    mirrored(normalized(probe_windowed(c)))
}

/// Targets for which the normalization is meaningful: the would-be kernel
/// sum is not zero and no scaled causal tap reaches the clamp.
pub open spec fn designable(c: BiquadCoefficients) -> bool {
    let w = probe_windowed(c);
    let s = mirrored_total(w);
    &&& s != 0
    &&& forall|i: int|
        CENTER_IDX <= i < FILTER_SIZE ==> iabs(fdiv(w[i] as int, s)) <= PROBE_LIMIT
}

/// All entries within the probe bound.
pub open spec fn probe_bounded(s: Seq<i64>) -> bool {
    forall|i: int| 0 <= i < s.len() ==> iabs(#[trigger] s[i] as int) <= PROBE_LIMIT
}

/// The forward probe stage keeps its buffer within the probe bound.
proof fn lemma_probe_fwd_bounded(c: BiquadCoefficients, ir: Seq<i64>, k: nat)
    requires
        ir.len() == FILTER_SIZE,
        probe_bounded(ir),
        k <= 62,
    ensures
        probe_fwd(c, ir, k).0.len() == FILTER_SIZE,
        probe_bounded(probe_fwd(c, ir, k).0),
    decreases k,
{
    if k > 0 {
        lemma_probe_fwd_bounded(c, ir, (k - 1) as nat);
        let prev = probe_fwd(c, ir, (k - 1) as nat);
        let idx = CENTER_IDX - 1 + (k - 1);
        let x = prev.0[idx as int] as int;
        let next = prev.0.update(idx as int, biquad_out(c, prev.1, prev.2, x) as i64);
        assert forall|i: int| 0 <= i < next.len() implies
            iabs(#[trigger] next[i] as int) <= PROBE_LIMIT by {
            if i != idx {
                assert(next[i] == prev.0[i]);
            }
        }
    }
}

/// The backward probe stage keeps its buffer within the probe bound.
proof fn lemma_probe_bwd_bounded(c: BiquadCoefficients, ir: Seq<i64>, k: nat)
    requires
        ir.len() == FILTER_SIZE,
        probe_bounded(ir),
        k <= 62,
    ensures
        probe_bwd(c, ir, k).0.len() == FILTER_SIZE,
        probe_bounded(probe_bwd(c, ir, k).0),
    decreases k,
{
    if k > 0 {
        lemma_probe_bwd_bounded(c, ir, (k - 1) as nat);
        let prev = probe_bwd(c, ir, (k - 1) as nat);
        let idx = FILTER_SIZE - 1 - (k - 1);
        let x = prev.0[idx as int] as int;
        let next = prev.0.update(idx as int, biquad_out(c, prev.1, prev.2, x) as i64);
        assert forall|i: int| 0 <= i < next.len() implies
            iabs(#[trigger] next[i] as int) <= PROBE_LIMIT by {
            if i != idx {
                assert(next[i] == prev.0[i]);
            }
        }
    }
}

/// Windowing keeps the probe bound.
proof fn lemma_windowed_bounded(ir: Seq<i64>)
    requires
        ir.len() == FILTER_SIZE,
        probe_bounded(ir),
    ensures
        windowed(ir).len() == FILTER_SIZE,
        probe_bounded(windowed(ir)),
{
    assert forall|i: int| 0 <= i < FILTER_SIZE implies
        iabs(#[trigger] windowed(ir)[i] as int) <= PROBE_LIMIT by {
        if i >= CENTER_IDX - 1 {
            lemma_fmul_by_frac(ir[i] as int, window_weight(i));
        }
    }
}

/// The whole design pipeline keeps every tap within the probe bound.
pub proof fn lemma_design_bounded(c: BiquadCoefficients)
    ensures
        design_spec(c).len() == FILTER_SIZE,
        probe_bounded(design_spec(c)),
{
    lemma_probe_fwd_bounded(c, unit_kernel(), 62);
    lemma_probe_bwd_bounded(c, probe_fwd(c, unit_kernel(), 62).0, 62);
    lemma_windowed_bounded(probe_bwd(c, probe_fwd(c, unit_kernel(), 62).0, 62).0);
    let w = probe_windowed(c);
    let n = normalized(w);
    assert(probe_bounded(n));
    assert forall|i: int| 0 <= i < FILTER_SIZE implies
        iabs(#[trigger] mirrored(n)[i] as int) <= PROBE_LIMIT by {
        if i < CENTER_IDX {
            assert(iabs(n[2 * (CENTER_IDX as int) - i] as int) <= PROBE_LIMIT);
        }
    }
}

/// The finished kernel is symmetric about the center tap.
pub proof fn lemma_design_symmetric(c: BiquadCoefficients)
    ensures
        forall|i: int|
            0 <= i < FILTER_SIZE ==> #[trigger] design_spec(c)[i] == design_spec(c)[
                FILTER_SIZE - 1 - i
            ],
{
    let n = normalized(probe_windowed(c));
    lemma_design_bounded(c);
    assert forall|i: int| 0 <= i < FILTER_SIZE implies
        #[trigger] design_spec(c)[i] == design_spec(c)[FILTER_SIZE - 1 - i] by {
        let j = FILTER_SIZE - 1 - i;
        if i < CENTER_IDX {
            assert(design_spec(c)[i] == n[2 * (CENTER_IDX as int) - i]);
            assert(2 * (CENTER_IDX as int) - i == j);
            assert(design_spec(c)[j] == n[j]);
        } else if i > CENTER_IDX {
            assert(design_spec(c)[i] == n[i]);
            assert(design_spec(c)[j] == n[2 * (CENTER_IDX as int) - j]);
            assert(2 * (CENTER_IDX as int) - j == i);
        }
    }
}

/// Coefficients for one FIR filter: a fixed odd number of taps shared by
/// both channels of a pair.
#[derive(Clone, Debug)]
pub struct FirCoefficients {
    pub taps: Vec<i64>,
}

impl FirCoefficients {
    /// The right length, every tap within the kernel bound.
    pub open spec fn wf(self) -> bool {
        &&& self.taps@.len() == FILTER_SIZE
        &&& forall|i: int|
            0 <= i < FILTER_SIZE ==> iabs(#[trigger] self.taps@[i] as int)
                <= crate::fixed::TAP_LIMIT
    }

    /// The identity kernel: a delay with the same latency as a designed
    /// linear-phase kernel.
    pub fn identity() -> (r: FirCoefficients)
        ensures
            r.taps@ == unit_kernel(),
            r.wf(),
    {
        let mut taps: Vec<i64> = Vec::new();
        let mut i: usize = 0;
        while i < FILTER_SIZE
            invariant
                taps@.len() == i,
                i <= FILTER_SIZE,
                forall|j: int| 0 <= j < i ==> taps@[j] == 0i64,
            decreases FILTER_SIZE - i,
        {
            taps.push(0);
            i += 1;
        }
        taps.set(CENTER_IDX, UNIT);
        proof {
            assert(taps@ =~= unit_kernel());
        }
        FirCoefficients { taps }
    }

    /// Design a linear-phase low-pass kernel whose magnitude response
    /// matches the biquad target applied twice.
    pub fn design_fourth_order_linear_phase_low_pass_from_biquad(
        biquad_coefs: BiquadCoefficients,
    ) -> (r: FirCoefficients)
        requires
            biquad_coefs.wf(),
        ensures
            r.taps@ == design_spec(biquad_coefs),
            r.wf(),
            probe_bounded(r.taps@),
            forall|i: int|
                0 <= i < FILTER_SIZE ==> #[trigger] r.taps@[i] == r.taps@[FILTER_SIZE - 1 - i],
            designable(biquad_coefs) ==> iabs(
                sum_range(design_spec(biquad_coefs), 0, FILTER_SIZE as int) - UNIT,
            ) <= 122,
    {
        let c = biquad_coefs;
        // The impulse, seated at the center of the odd-length buffer.
        let mut ir: Vec<i64> = Vec::new();
        let mut i: usize = 0;
        while i < FILTER_SIZE
            invariant
                ir@.len() == i,
                i <= FILTER_SIZE,
                forall|j: int| 0 <= j < i ==> ir@[j] == 0i64,
            decreases FILTER_SIZE - i,
        {
            ir.push(0);
            i += 1;
        }
        ir.set(CENTER_IDX, UNIT);
        proof {
            assert(ir@ =~= unit_kernel());
        }
        let ghost ir0 = ir@;

        // Filter forward, priming one sample before the center.
        let mut bq = Biquad::new(c);
        let mut k: usize = 0;
        proof {
            lemma_probe_fwd_bounded(c, ir0, 0);
        }
        while k < 62
            invariant
                c.wf(),
                ir0.len() == FILTER_SIZE,
                probe_bounded(ir0),
                k <= 62,
                ir@ == probe_fwd(c, ir0, k as nat).0,
                bq.s1 == probe_fwd(c, ir0, k as nat).1,
                bq.s2 == probe_fwd(c, ir0, k as nat).2,
                bq.coefficients == c,
                bq.wf(),
            decreases 62 - k,
        {
            proof {
                lemma_probe_fwd_bounded(c, ir0, k as nat);
            }
            let idx: usize = CENTER_IDX - 1 + k;
            let y = bq.process(ir[idx]);
            ir.set(idx, y);
            k += 1;
            proof {
                lemma_probe_fwd_bounded(c, ir0, k as nat);
            }
        }
        proof {
            lemma_probe_fwd_bounded(c, ir0, 62);
        }
        let ghost ir1 = ir@;

        // Reset, then filter backward from the far end to one before the
        // center, to avoid a discontinuity at the center tap.
        bq.reset();
        let mut k: usize = 0;
        while k < 62
            invariant
                c.wf(),
                ir1.len() == FILTER_SIZE,
                probe_bounded(ir1),
                k <= 62,
                ir@ == probe_bwd(c, ir1, k as nat).0,
                bq.s1 == probe_bwd(c, ir1, k as nat).1,
                bq.s2 == probe_bwd(c, ir1, k as nat).2,
                bq.coefficients == c,
                bq.wf(),
            decreases 62 - k,
        {
            proof {
                lemma_probe_bwd_bounded(c, ir1, k as nat);
            }
            let idx: usize = FILTER_SIZE - 1 - k;
            let y = bq.process(ir[idx]);
            ir.set(idx, y);
            k += 1;
            proof {
                lemma_probe_bwd_bounded(c, ir1, k as nat);
            }
        }
        proof {
            lemma_probe_bwd_bounded(c, ir1, 62);
        }
        let ghost ir2 = ir@;

        // Taper the causal half with the half Blackman window.
        let mut idx: usize = CENTER_IDX - 1;
        while idx < FILTER_SIZE
            invariant
                ir2.len() == FILTER_SIZE,
                probe_bounded(ir2),
                CENTER_IDX - 1 <= idx <= FILTER_SIZE,
                ir@.len() == FILTER_SIZE,
                forall|j: int| 0 <= j < idx ==> ir@[j] == windowed(ir2)[j],
                forall|j: int| idx <= j < FILTER_SIZE ==> ir@[j] == ir2[j],
            decreases FILTER_SIZE - idx,
        {
            let th1: i64 = (((TWO_PI as u64) * (idx as u64)) / ((FILTER_SIZE - 1) as u64)) as i64;
            let th2: i64 = 2 * th1;
            let c1: i64 = cos_q30(th1);
            let c2: i64 = cos_q30(th2);
            let w: i64 = clamp_unit(BLACKMAN_A - q30_mul(BLACKMAN_B, c1) + q30_mul(BLACKMAN_C, c2));
            proof {
                assert(ir@[idx as int] == ir2[idx as int]);
                assert(iabs(ir2[idx as int] as int) <= PROBE_LIMIT);
                lemma_fmul_by_frac(ir@[idx as int] as int, w as int);
            }
            ir.set(idx, q30_mul(ir[idx], w));
            idx += 1;
        }
        proof {
            assert(ir@ =~= windowed(ir2));
            lemma_windowed_bounded(ir2);
        }
        let ghost irw = ir@;

        // The sum the symmetric kernel would have: the causal half twice,
        // the center once.
        let mut half_sum: i64 = 0;
        let mut i: usize = CENTER_IDX;
        while i < FILTER_SIZE
            invariant
                irw.len() == FILTER_SIZE,
                probe_bounded(irw),
                ir@ == irw,
                CENTER_IDX <= i <= FILTER_SIZE,
                half_sum == sum_range(irw, CENTER_IDX as int, i as int),
                iabs(half_sum as int) <= (i - CENTER_IDX) * PROBE_LIMIT,
            decreases FILTER_SIZE - i,
        {
            proof {
                lemma_sum_range_extend(irw, CENTER_IDX as int, i as int);
            }
            half_sum = half_sum + ir[i];
            i += 1;
        }
        let total: i64 = 2 * half_sum - ir[CENTER_IDX];

        // Scale so the finished kernel sums to one.
        proof {
            assert(total == mirrored_total(irw));
        }
        if total != 0 {
            let ghost pre = ir@;
            let mut i: usize = 0;
            while i < FILTER_SIZE
                invariant
                    pre.len() == FILTER_SIZE,
                    probe_bounded(pre),
                    i <= FILTER_SIZE,
                    total != 0,
                    ir@.len() == FILTER_SIZE,
                    forall|j: int|
                        0 <= j < i ==> ir@[j] == (fclamp(
                            fdiv(pre[j] as int, total as int),
                            PROBE_LIMIT as int,
                        ) as i64),
                    forall|j: int| i <= j < FILTER_SIZE ==> ir@[j] == pre[j],
                decreases FILTER_SIZE - i,
            {
                proof {
                    assert(ir@[i as int] == pre[i as int]);
                    assert(iabs(pre[i as int] as int) <= PROBE_LIMIT);
                }
                ir.set(i, q30_div_clamped(ir[i], total, PROBE_LIMIT));
                i += 1;
            }
            proof {
                assert(ir@ =~= normalized(irw));
            }
        } else {
            proof {
                assert(ir@ =~= normalized(irw));
            }
        }
        let ghost irn = ir@;

        // Mirror the causal half onto the leading half.
        let mut src: usize = CENTER_IDX + 1;
        while src < FILTER_SIZE
            invariant
                irn.len() == FILTER_SIZE,
                CENTER_IDX + 1 <= src <= FILTER_SIZE,
                ir@.len() == FILTER_SIZE,
                forall|j: int| CENTER_IDX <= j < FILTER_SIZE ==> ir@[j] == irn[j],
                forall|j: int|
                    2 * (CENTER_IDX as int) - src < j < CENTER_IDX ==> ir@[j] == irn[
                        2 * (CENTER_IDX as int) - j
                    ],
                forall|j: int| 0 <= j <= 2 * (CENTER_IDX as int) - src ==> ir@[j] == irn[j],
            decreases FILTER_SIZE - src,
        {
            let target: usize = 2 * CENTER_IDX - src;
            let v = ir[src];
            ir.set(target, v);
            src += 1;
        }
        proof {
            assert(ir@ =~= mirrored(irn));
            lemma_design_symmetric(c);
            lemma_design_bounded(c);
            if designable(c) {
                crate::design_props::lemma_design_kernel_sum(c);
            }
        }
        FirCoefficients { taps: ir }
    }
}

impl Default for FirCoefficients {
    /// The identity kernel.
    fn default() -> (r: FirCoefficients)
        ensures
            r.taps@ == unit_kernel(),
            r.wf(),
    {
        FirCoefficients::identity()
    }
}

/// Extending a range sum by its upper endpoint.
pub proof fn lemma_sum_range_extend(s: Seq<i64>, lo: int, hi: int)
    requires
        lo <= hi,
    ensures
        sum_range(s, lo, hi + 1) == sum_range(s, lo, hi) + s[hi],
    decreases hi - lo,
{
    if lo >= hi {
        assert(sum_range(s, lo, hi + 1) == s[lo] + sum_range(s, lo + 1, hi + 1));
        assert(sum_range(s, lo + 1, hi + 1) == 0);
        assert(sum_range(s, lo, hi) == 0);
    } else {
        lemma_sum_range_extend(s, lo + 1, hi);
        assert(sum_range(s, lo, hi + 1) == s[lo] + sum_range(s, lo + 1, hi + 1));
        assert(sum_range(s, lo, hi) == s[lo] + sum_range(s, lo + 1, hi));
    }
}

} // verus!
