//! Real-time FIR evaluation over a circular delay line.
//!
//! One filter owns one kernel and one delay line and turns an input sample
//! pair into an output pair by direct convolution. History is read in two
//! contiguous runs keyed off the write cursor, so the hot loop performs no
//! per-tap modulo; the specification states the same sum through a modular
//! history function, and the two are proved to agree.

use vstd::prelude::*;
use vstd::pervasive::VecAdditionalExecFns;
use crate::fir_design::{unit_kernel, FirCoefficients, FILTER_SIZE};
use crate::fixed::{
    fmul, iabs, lemma_fmul_bound, q30_mul, SAMPLE_LIMIT, TAP_LIMIT, UNIT,
};
use crate::sample::SamplePair;

verus! {

/// Capacity of the delay line: `FILTER_SIZE` rounded up to a power of two.
pub const RING_BUFFER_SIZE: usize = 128;

/// Largest magnitude one convolution term can reach.
pub const CONV_TERM_LIMIT: i64 = 0x4_0000_0000_0000;

/// The delay line contents of a filter that has never seen a sample, or
/// has just been reset.
pub open spec fn silent_buf() -> Seq<SamplePair> {
    Seq::new(RING_BUFFER_SIZE as nat, |i: int| SamplePair { left: 0, right: 0 })
}

/// One channel of a pair.
pub open spec fn chan(p: SamplePair, left: bool) -> int {
    if left {
        p.left as int
    } else {
        p.right as int
    }
}

/// The k-th history value: the live input for k = 0, otherwise the sample
/// written k steps before the cursor, modulo the ring capacity.
pub open spec fn hist(buf: Seq<SamplePair>, idx: int, x: SamplePair, k: int) -> SamplePair {
    if k == 0 {
        x
    } else {
        buf[(idx - k) % (RING_BUFFER_SIZE as int)]
    }
}

/// The first n terms of the convolution of the kernel against the history.
pub open spec fn conv_sum(
    taps: Seq<i64>,
    buf: Seq<SamplePair>,
    idx: int,
    x: SamplePair,
    n: nat,
    left: bool,
) -> int
    decreases n,
{
    if n == 0 {
        0
    } else {
        conv_sum(taps, buf, idx, x, (n - 1) as nat, left) + fmul(
            taps[n - 1] as int,
            chan(hist(buf, idx, x, n - 1), left),
        )
    }
}

/// One convolution term is bounded by the tap and sample bounds.
proof fn lemma_conv_term(t: int, v: int)
    requires
        iabs(t) <= TAP_LIMIT,
        iabs(v) <= SAMPLE_LIMIT,
    ensures
        iabs(fmul(t, v)) <= CONV_TERM_LIMIT,
{
    lemma_fmul_bound(t, v, TAP_LIMIT as int, SAMPLE_LIMIT as int);
    assert((TAP_LIMIT as int) * (SAMPLE_LIMIT as int) / (UNIT as int) == CONV_TERM_LIMIT as int)
        by {
        vstd::arithmetic::div_mod::lemma_div_by_multiple(CONV_TERM_LIMIT as int, UNIT as int);
        assert((TAP_LIMIT as int) * (SAMPLE_LIMIT as int) == (CONV_TERM_LIMIT as int) * (
        UNIT as int)) by (nonlinear_arith);
    }
}

/// Where the k-th history sample sits: behind the cursor for small k, at
/// the wrapped tail beyond it.
proof fn lemma_hist_pos(idx: int, k: int)
    requires
        0 <= idx < RING_BUFFER_SIZE,
        1 <= k < RING_BUFFER_SIZE,
    ensures
        k <= idx ==> (idx - k) % (RING_BUFFER_SIZE as int) == idx - k,
        k > idx ==> (idx - k) % (RING_BUFFER_SIZE as int) == RING_BUFFER_SIZE + idx - k,
{
    let m = RING_BUFFER_SIZE as int;
    if k <= idx {
        vstd::arithmetic::div_mod::lemma_small_mod((idx - k) as nat, m as nat);
    } else {
        vstd::arithmetic::div_mod::lemma_mod_add_multiples_vanish(idx - k, m);
        vstd::arithmetic::div_mod::lemma_small_mod((m + idx - k) as nat, m as nat);
    }
}

/// A single FIR filter: one kernel, one delay line, one write cursor. In
/// the crossover this holds a linear-phase low-pass, band-pass, or
/// high-pass kernel.
#[derive(Clone, Debug)]
pub struct FirFilter {
    /// The kernel, shared by both channels of the pair.
    pub coefficients: FirCoefficients,
    /// The last `FILTER_SIZE - 1` input pairs, in ring order.
    pub delay_buffer: Vec<SamplePair>,
    /// Index the next input pair is written to.
    pub delay_buffer_next_idx: usize,
}

impl FirFilter {
    /// Kernel well-formed, delay line at capacity, cursor in range, every
    /// stored sample within the input bound.
    pub open spec fn wf(self) -> bool {
        &&& self.coefficients.wf()
        &&& self.delay_buffer@.len() == RING_BUFFER_SIZE
        &&& self.delay_buffer_next_idx < RING_BUFFER_SIZE
        &&& forall|j: int|
            0 <= j < RING_BUFFER_SIZE ==> (#[trigger] self.delay_buffer@[j]).bounded(
                SAMPLE_LIMIT as int,
            )
    }

    /// A filter with the identity kernel and silent history: a pure delay
    /// of `CENTER_IDX` samples.
    pub fn new_identity() -> (r: FirFilter)
        ensures
            r.wf(),
            r.coefficients.taps@ == unit_kernel(),
            r.delay_buffer_next_idx == 0,
            r.delay_buffer@ == silent_buf(),
    {
        let mut delay_buffer: Vec<SamplePair> = Vec::new();
        let mut i: usize = 0;
        while i < RING_BUFFER_SIZE
            invariant
                delay_buffer@.len() == i,
                i <= RING_BUFFER_SIZE,
                forall|j: int|
                    0 <= j < i ==> #[trigger] delay_buffer@[j] == (SamplePair {
                        left: 0,
                        right: 0,
                    }),
            decreases RING_BUFFER_SIZE - i,
        {
            delay_buffer.push(SamplePair { left: 0, right: 0 });
            i += 1;
        }
        proof {
            assert(delay_buffer@ =~= silent_buf());
        }
        FirFilter {
            coefficients: FirCoefficients::identity(),
            delay_buffer,
            delay_buffer_next_idx: 0,
        }
    }

    /// Clear the delay line and rewind the cursor; the kernel stays.
    pub fn reset(&mut self)
        requires
            old(self).wf(),
        ensures
            final(self).wf(),
            final(self).coefficients == old(self).coefficients,
            final(self).delay_buffer_next_idx == 0,
            final(self).delay_buffer@ == silent_buf(),
    {
        let mut i: usize = 0;
        while i < RING_BUFFER_SIZE
            invariant
                self.delay_buffer@.len() == RING_BUFFER_SIZE,
                self.coefficients == old(self).coefficients,
                self.delay_buffer_next_idx == old(self).delay_buffer_next_idx,
                old(self).wf(),
                i <= RING_BUFFER_SIZE,
                forall|j: int|
                    0 <= j < i ==> #[trigger] self.delay_buffer@[j] == (SamplePair {
                        left: 0,
                        right: 0,
                    }),
                forall|j: int|
                    i <= j < RING_BUFFER_SIZE ==> #[trigger] self.delay_buffer@[j]
                        == old(self).delay_buffer@[j],
            decreases RING_BUFFER_SIZE - i,
        {
            self.delay_buffer.set(i, SamplePair { left: 0, right: 0 });
            i += 1;
        }
        proof {
            assert(self.delay_buffer@ =~= silent_buf());
        }
        self.delay_buffer_next_idx = 0;
    }

    /// Convolve one input pair against the kernel, then enter it into the
    /// delay line and advance the cursor.
    pub fn process(&mut self, samples: SamplePair) -> (r: SamplePair)
        requires
            old(self).wf(),
            samples.bounded(SAMPLE_LIMIT as int),
        ensures
            final(self).wf(),
            final(self).coefficients == old(self).coefficients,
            r.left as int == conv_sum(
                old(self).coefficients.taps@,
                old(self).delay_buffer@,
                old(self).delay_buffer_next_idx as int,
                samples,
                FILTER_SIZE as nat,
                true,
            ),
            r.right as int == conv_sum(
                old(self).coefficients.taps@,
                old(self).delay_buffer@,
                old(self).delay_buffer_next_idx as int,
                samples,
                FILTER_SIZE as nat,
                false,
            ),
            final(self).delay_buffer@ == old(self).delay_buffer@.update(
                old(self).delay_buffer_next_idx as int,
                samples,
            ),
            final(self).delay_buffer_next_idx == (old(self).delay_buffer_next_idx + 1) % (
            RING_BUFFER_SIZE as int),
    {
        let ghost taps = self.coefficients.taps@;
        let ghost buf = self.delay_buffer@;
        let idx: usize = self.delay_buffer_next_idx;

        // Tap zero multiplies the live input directly.
        let mut acc_l: i64 = q30_mul(self.coefficients.taps[0], samples.left);
        let mut acc_r: i64 = q30_mul(self.coefficients.taps[0], samples.right);
        proof {
            lemma_conv_term(taps[0] as int, samples.left as int);
            lemma_conv_term(taps[0] as int, samples.right as int);
            assert(conv_sum(taps, buf, idx as int, samples, 0, true) == 0);
            assert(conv_sum(taps, buf, idx as int, samples, 0, false) == 0);
            assert(conv_sum(taps, buf, idx as int, samples, 1, true) == fmul(
                taps[0] as int,
                chan(hist(buf, idx as int, samples, 0), true),
            ));
            assert(conv_sum(taps, buf, idx as int, samples, 1, false) == fmul(
                taps[0] as int,
                chan(hist(buf, idx as int, samples, 0), false),
            ));
        }

        // The run of history ending just before the cursor.
        let num_before: usize = if idx < FILTER_SIZE - 1 {
            idx
        } else {
            FILTER_SIZE - 1
        };
        let mut k: usize = 1;
        while k <= num_before
            invariant
                self == old(self),
                old(self).wf(),
                taps == self.coefficients.taps@,
                buf == self.delay_buffer@,
                idx == self.delay_buffer_next_idx,
                samples.bounded(SAMPLE_LIMIT as int),
                num_before == if idx < FILTER_SIZE - 1 { idx as int } else { FILTER_SIZE - 1 },
                1 <= k <= num_before + 1,
                k <= FILTER_SIZE,
                acc_l as int == conv_sum(taps, buf, idx as int, samples, k as nat, true),
                acc_r as int == conv_sum(taps, buf, idx as int, samples, k as nat, false),
                iabs(acc_l as int) <= k * CONV_TERM_LIMIT,
                iabs(acc_r as int) <= k * CONV_TERM_LIMIT,
            decreases num_before + 1 - k,
        {
            let pos: usize = idx - k;
            proof {
                lemma_hist_pos(idx as int, k as int);
                lemma_conv_term(taps[k as int] as int, buf[pos as int].left as int);
                lemma_conv_term(taps[k as int] as int, buf[pos as int].right as int);
            }
            let tap: i64 = self.coefficients.taps[k];
            acc_l = acc_l + q30_mul(tap, self.delay_buffer[pos].left);
            acc_r = acc_r + q30_mul(tap, self.delay_buffer[pos].right);
            k += 1;
        }

        // The wrapped tail at the end of the ring.
        while k < FILTER_SIZE
            invariant
                self == old(self),
                old(self).wf(),
                taps == self.coefficients.taps@,
                buf == self.delay_buffer@,
                idx == self.delay_buffer_next_idx,
                samples.bounded(SAMPLE_LIMIT as int),
                num_before == if idx < FILTER_SIZE - 1 { idx as int } else { FILTER_SIZE - 1 },
                num_before + 1 <= k <= FILTER_SIZE,
                acc_l as int == conv_sum(taps, buf, idx as int, samples, k as nat, true),
                acc_r as int == conv_sum(taps, buf, idx as int, samples, k as nat, false),
                iabs(acc_l as int) <= k * CONV_TERM_LIMIT,
                iabs(acc_r as int) <= k * CONV_TERM_LIMIT,
            decreases FILTER_SIZE - k,
        {
            let pos: usize = RING_BUFFER_SIZE + idx - k;
            proof {
                lemma_hist_pos(idx as int, k as int);
                lemma_conv_term(taps[k as int] as int, buf[pos as int].left as int);
                lemma_conv_term(taps[k as int] as int, buf[pos as int].right as int);
            }
            let tap: i64 = self.coefficients.taps[k];
            acc_l = acc_l + q30_mul(tap, self.delay_buffer[pos].left);
            acc_r = acc_r + q30_mul(tap, self.delay_buffer[pos].right);
            k += 1;
        }

        // Enter the input into the delay line for the next sample.
        self.delay_buffer.set(idx, samples);
        self.delay_buffer_next_idx = (idx + 1) % RING_BUFFER_SIZE;
        SamplePair { left: acc_l, right: acc_r }
    }
}

impl Default for FirFilter {
    /// The identity filter: passes audio through with the same latency a
    /// designed kernel would add.
    fn default() -> (r: FirFilter)
        ensures
            r.wf(),
            r.coefficients.taps@ == unit_kernel(),
            r.delay_buffer_next_idx == 0,
            r.delay_buffer@ == silent_buf(),
    {
        FirFilter::new_identity()
    }
}

} // verus!
