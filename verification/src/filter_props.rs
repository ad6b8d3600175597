//! Proved behavior of filters over whole input sequences.
//!
//! `FirFilter::process` pins one step down exactly; these laws follow runs
//! of steps from the reset state. The central lemma turns the circular
//! delay line into plain convolution: the n-th output of a freshly reset
//! filter is the direct convolution of its kernel with the input sequence.
//! From it follow the pure-delay behavior of the identity kernel, the
//! determinism of replay after reset, and the engine-level reconstruction
//! of an impulse as a delayed impulse.

use vstd::prelude::*;
use crate::crossover::taps_sum_at;
use crate::fir_design::{unit_kernel, CENTER_IDX, FILTER_SIZE};
use crate::fir_filter::{chan, conv_sum, hist, silent_buf, FirFilter, RING_BUFFER_SIZE};
use crate::fixed::{fmul, lemma_fmul_trivial, UNIT};
use crate::sample::SamplePair;

verus! {

/// The input at time m, taking silence outside the recorded range.
pub open spec fn in_ext(ins: Seq<SamplePair>, m: int) -> SamplePair {
    if 0 <= m < ins.len() {
        ins[m]
    } else {
        SamplePair { left: 0, right: 0 }
    }
}

/// The cursor after n steps from cursor zero.
pub open spec fn run_idx(n: nat) -> int {
    (n as int) % (RING_BUFFER_SIZE as int)
}

/// The delay line after n steps from the reset state: each step writes
/// that step's input at the cursor, exactly as `process` does.
pub open spec fn run_buf(ins: Seq<SamplePair>, n: nat) -> Seq<SamplePair>
    decreases n,
{
    if n == 0 {
        silent_buf()
    } else {
        run_buf(ins, (n - 1) as nat).update(run_idx((n - 1) as nat), ins[n - 1])
    }
}

/// The n-th output of a freshly reset filter with the given kernel, as
/// `process` computes it at step n.
pub open spec fn run_out(taps: Seq<i64>, ins: Seq<SamplePair>, n: nat, left: bool) -> int {
    conv_sum(taps, run_buf(ins, n), run_idx(n), ins[n as int], FILTER_SIZE as nat, left)
}

/// The first k terms of the plain convolution of the kernel with the
/// input sequence, evaluated at time n.
pub open spec fn direct_conv(
    taps: Seq<i64>,
    ins: Seq<SamplePair>,
    n: int,
    k: nat,
    left: bool,
) -> int
    decreases k,
{
    if k == 0 {
        0
    } else {
        direct_conv(taps, ins, n, (k - 1) as nat, left) + fmul(
            taps[k - 1] as int,
            chan(in_ext(ins, n - (k - 1)), left),
        )
    }
}

/// After n steps the delay line holds the last inputs: k steps behind the
/// cursor sits the input from k steps ago, silence before the run began.
proof fn lemma_run_buf_contents(ins: Seq<SamplePair>, n: nat, k: int)
    requires
        1 <= k <= RING_BUFFER_SIZE,
        n <= ins.len(),
    ensures
        run_buf(ins, n).len() == RING_BUFFER_SIZE,
        run_buf(ins, n)[(n - k) % (RING_BUFFER_SIZE as int)] == in_ext(ins, n - k),
    decreases n,
{
    let m = RING_BUFFER_SIZE as int;
    if n == 0 {
        vstd::arithmetic::div_mod::lemma_mod_division_less_than_divisor(0 - k, m);
    } else {
        lemma_run_buf_contents(ins, (n - 1) as nat, 1);
        let p = (n - k) % m;
        if k == 1 {
            vstd::arithmetic::div_mod::lemma_mod_division_less_than_divisor(n - 1, m);
            assert(run_buf(ins, n)[p] == ins[n - 1]);
        } else {
            lemma_run_buf_contents(ins, (n - 1) as nat, k - 1);
            // The write position differs from p: the two cursor values are
            // k - 1 < RING_BUFFER_SIZE steps apart.
            assert(p != (n - 1) % m) by {
                if p == (n - 1) % m {
                    vstd::arithmetic::div_mod::lemma_sub_mod_noop(n - 1, n - k, m);
                    vstd::arithmetic::div_mod::lemma_small_mod((k - 1) as nat, m as nat);
                    assert((k - 1) % m == 0);
                }
            }
            assert((n - 1 - (k - 1)) % m == p);
            vstd::arithmetic::div_mod::lemma_mod_division_less_than_divisor(n - k, m);
        }
    }
}

/// The circular evaluation agrees with plain convolution: term for term,
/// the history read through the ring is the input from that many steps
/// ago.
proof fn lemma_conv_is_direct(
    taps: Seq<i64>,
    ins: Seq<SamplePair>,
    n: nat,
    k: nat,
    left: bool,
)
    requires
        n < ins.len(),
        k <= FILTER_SIZE,
    ensures
        conv_sum(taps, run_buf(ins, n), run_idx(n), ins[n as int], k, left) == direct_conv(
            taps,
            ins,
            n as int,
            k,
            left,
        ),
    decreases k,
{
    let m = RING_BUFFER_SIZE as int;
    if k > 0 {
        lemma_conv_is_direct(taps, ins, n, (k - 1) as nat, left);
        let j = (k - 1) as int;
        if j == 0 {
            assert(hist(run_buf(ins, n), run_idx(n), ins[n as int], 0) == ins[n as int]);
        } else {
            vstd::arithmetic::div_mod::lemma_small_mod(j as nat, m as nat);
            vstd::arithmetic::div_mod::lemma_sub_mod_noop(n as int, j, m);
            assert((run_idx(n) - j) % m == (n - j) % m);
            lemma_run_buf_contents(ins, n, j);
            assert(hist(run_buf(ins, n), run_idx(n), ins[n as int], j) == in_ext(ins, n - j));
        }
    }
}

/// With the identity kernel, the first k convolution terms reduce to the
/// single center-tap term.
proof fn lemma_direct_identity(ins: Seq<SamplePair>, n: int, k: nat, left: bool)
    requires
        k <= FILTER_SIZE,
    ensures
        direct_conv(unit_kernel(), ins, n, k, left) == if k > CENTER_IDX {
            chan(in_ext(ins, n - CENTER_IDX), left)
        } else {
            0
        },
    decreases k,
{
    if k > 0 {
        lemma_direct_identity(ins, n, (k - 1) as nat, left);
        lemma_fmul_trivial(chan(in_ext(ins, n - (k - 1)), left));
    }
}

/// A filter that still carries the identity kernel is a pure delay: from
/// the reset state, output n is input n - CENTER_IDX, exactly, with
/// silence for the first CENTER_IDX steps.
pub proof fn lemma_identity_filter_is_pure_delay(
    ins: Seq<SamplePair>,
    n: nat,
    left: bool,
)
    requires
        n < ins.len(),
    ensures
        run_out(unit_kernel(), ins, n, left) == chan(in_ext(ins, n - CENTER_IDX), left),
{
    lemma_conv_is_direct(unit_kernel(), ins, n, FILTER_SIZE as nat, left);
    lemma_direct_identity(ins, n as int, FILTER_SIZE as nat, left);
}

/// Replay after reset is deterministic: a reset filter's outputs are a
/// function of its kernel and the inputs alone. `reset` drives any filter
/// to cursor zero over a silent delay line, so two filters sharing a
/// kernel produce identical output sequences however they were used
/// before their resets.
pub proof fn lemma_replay_after_reset(
    f1: FirFilter,
    f2: FirFilter,
    ins: Seq<SamplePair>,
    n: nat,
    left: bool,
)
    requires
        f1.coefficients == f2.coefficients,
    ensures
        run_out(f1.coefficients.taps@, ins, n, left) == run_out(
            f2.coefficients.taps@,
            ins,
            n,
            left,
        ),
{
}

/// With a unit impulse on the input, the first k convolution terms reduce
/// to the tap at index n.
proof fn lemma_direct_impulse(
    taps: Seq<i64>,
    ins: Seq<SamplePair>,
    n: int,
    k: nat,
    left: bool,
)
    requires
        ins.len() >= 1,
        chan(ins[0], left) == UNIT,
        forall|mm: int| 1 <= mm < ins.len() ==> #[trigger] ins[mm] == (SamplePair {
            left: 0,
            right: 0,
        }),
        0 <= n,
    ensures
        direct_conv(taps, ins, n, k, left) == if n < k {
            taps[n] as int
        } else {
            0
        },
    decreases k,
{
    if k > 0 {
        lemma_direct_impulse(taps, ins, n, (k - 1) as nat, left);
        lemma_fmul_trivial(taps[k - 1] as int);
        if n == k - 1 {
            assert(chan(in_ext(ins, 0), left) == UNIT);
        } else {
            assert(chan(in_ext(ins, n - (k - 1)), left) == 0);
        }
    }
}

/// The summed outputs of the first nb bands at step n, every filter
/// starting from the reset state.
pub open spec fn band_out_sum(
    filters: Seq<FirFilter>,
    nb: int,
    ins: Seq<SamplePair>,
    n: nat,
    left: bool,
) -> int
    decreases nb,
{
    if nb <= 0 {
        0
    } else {
        band_out_sum(filters, nb - 1, ins, n, left) + run_out(
            filters[nb - 1].coefficients.taps@,
            ins,
            n,
            left,
        )
    }
}

/// Band outputs on an impulse reduce to the bands' taps at index n.
proof fn lemma_band_out_sum_impulse(
    filters: Seq<FirFilter>,
    nb: int,
    ins: Seq<SamplePair>,
    n: nat,
    left: bool,
)
    requires
        0 <= nb,
        n < ins.len(),
        chan(ins[0], left) == UNIT,
        forall|mm: int| 1 <= mm < ins.len() ==> #[trigger] ins[mm] == (SamplePair {
            left: 0,
            right: 0,
        }),
    ensures
        band_out_sum(filters, nb, ins, n, left) == if n < FILTER_SIZE {
            taps_sum_at(filters, nb, n as int)
        } else {
            0
        },
    decreases nb,
{
    if nb > 0 {
        lemma_band_out_sum_impulse(filters, nb - 1, ins, n, left);
        lemma_conv_is_direct(
            filters[nb - 1].coefficients.taps@,
            ins,
            n,
            FILTER_SIZE as nat,
            left,
        );
        lemma_direct_impulse(
            filters[nb - 1].coefficients.taps@,
            ins,
            n as int,
            FILTER_SIZE as nat,
            left,
        );
    }
}

/// Feeding a unit impulse into the engine and summing all active band
/// outputs reproduces the impulse delayed by the reported latency: given
/// kernels that sum to the unit kernel — what `update` establishes — the
/// summed band outputs are `UNIT` at step `CENTER_IDX` and zero at every
/// other step.
pub proof fn lemma_impulse_reconstruction(
    filters: Seq<FirFilter>,
    num_bands: int,
    ins: Seq<SamplePair>,
    n: nat,
    left: bool,
)
    requires
        2 <= num_bands,
        n < ins.len(),
        chan(ins[0], left) == UNIT,
        forall|mm: int| 1 <= mm < ins.len() ==> #[trigger] ins[mm] == (SamplePair {
            left: 0,
            right: 0,
        }),
        forall|i: int|
            0 <= i < FILTER_SIZE ==> taps_sum_at(filters, num_bands, i) == unit_kernel()[i],
    ensures
        band_out_sum(filters, num_bands, ins, n, left) == if n == CENTER_IDX {
            UNIT as int
        } else {
            0
        },
{
    lemma_band_out_sum_impulse(filters, num_bands, ins, n, left);
    if n < FILTER_SIZE {
        assert(taps_sum_at(filters, num_bands, n as int) == unit_kernel()[n as int]);
    }
}

} // verus!
