//! The multiband crossover engine.
//!
//! Owns up to five band filters. `update` designs a low-pass kernel per
//! crossover point and derives band-pass kernels by subtracting the running
//! accumulated response, closing with a spectral inversion for the high
//! band; the proved consequence is that the active kernels sum, tap by tap,
//! to a unit impulse at the center index — the bands reconstruct the input
//! as a pure delay. `process` fans one input pair into one output pair per
//! active band.

use vstd::prelude::*;
use vstd::pervasive::VecAdditionalExecFns;
use crate::biquad::{lowpass_spec, BiquadCoefficients, NEUTRAL_Q};
use crate::fir_design::{
    design_spec, probe_bounded, unit_kernel, FirCoefficients, CENTER_IDX, FILTER_SIZE,
};
use crate::fir_filter::{conv_sum, FirFilter, RING_BUFFER_SIZE};
use crate::fixed::{iabs, PROBE_LIMIT, SAMPLE_LIMIT, TAP_LIMIT, UNIT};
use crate::sample::SamplePair;

verus! {

/// How many band slots an engine owns; between 2 and this many are active.
pub const NUM_BANDS: usize = 5;

/// The kind of crossover in use. One linear-phase mode exists: the same
/// slopes as a fourth-order Linkwitz-Riley alignment, realized with
/// symmetric FIR kernels.
#[derive(Clone, Copy, Debug)]
pub enum FirCrossoverType {
    LinkwitzRiley24LinearPhase,
}

/// The low-pass kernel the engine designs for one crossover frequency.
pub open spec fn crossover_lp(sample_rate: int, frequency: int) -> Seq<i64> {
    design_spec(lowpass_spec(sample_rate, frequency, NEUTRAL_Q as int))
}

/// The kernel of one band: the first crossover's low-pass for the lowest
/// band, the difference of consecutive low-passes for the middle bands, and
/// the spectral inversion of the last interior low-pass for the top band.
pub open spec fn band_kernel(
    sample_rate: int,
    freqs: Seq<u32>,
    num_bands: int,
    b: int,
) -> Seq<i64> {
    if b == 0 {
        crossover_lp(sample_rate, freqs[0] as int)
    } else if b < num_bands - 1 {
        Seq::new(
            FILTER_SIZE as nat,
            |i: int|
                (crossover_lp(sample_rate, freqs[b] as int)[i] - crossover_lp(
                    sample_rate,
                    freqs[b - 1] as int,
                )[i]) as i64,
        )
    } else {
        Seq::new(
            FILTER_SIZE as nat,
            |i: int|
                ((if i == CENTER_IDX {
                    UNIT as int
                } else {
                    0
                }) - crossover_lp(sample_rate, freqs[num_bands - 2] as int)[i]) as i64,
        )
    }
}

/// Every active band holds its closed-form kernel.
pub open spec fn bands_assigned(
    filters: Seq<FirFilter>,
    sample_rate: int,
    freqs: Seq<u32>,
    num_bands: int,
) -> bool {
    forall|b: int|
        0 <= b < num_bands ==> (#[trigger] filters[b]).coefficients.taps@ == band_kernel(
            sample_rate,
            freqs,
            num_bands,
            b,
        )
}

/// The tap-by-tap sum of the first nb band kernels at index i.
pub open spec fn taps_sum_at(filters: Seq<FirFilter>, nb: int, i: int) -> int
    decreases nb,
{
    if nb <= 0 {
        0
    } else {
        taps_sum_at(filters, nb - 1, i) + filters[nb - 1].coefficients.taps@[i]
    }
}

/// The partial band sums telescope: through band b the sum is the b-th
/// crossover's low-pass kernel.
proof fn lemma_partial_band_sum(
    filters: Seq<FirFilter>,
    sample_rate: int,
    freqs: Seq<u32>,
    num_bands: int,
    b: int,
    i: int,
)
    requires
        2 <= num_bands,
        1 <= b <= num_bands - 1,
        0 <= i < FILTER_SIZE,
        bands_assigned(filters, sample_rate, freqs, num_bands),
    ensures
        taps_sum_at(filters, b, i) == crossover_lp(sample_rate, freqs[b - 1] as int)[i],
    decreases b,
{
    crate::fir_design::lemma_design_bounded(
        lowpass_spec(sample_rate, freqs[b - 1] as int, NEUTRAL_Q as int),
    );
    if b == 1 {
        assert(taps_sum_at(filters, 1, i) == taps_sum_at(filters, 0, i)
            + filters[0].coefficients.taps@[i]);
    } else {
        lemma_partial_band_sum(filters, sample_rate, freqs, num_bands, b - 1, i);
        crate::fir_design::lemma_design_bounded(
            lowpass_spec(sample_rate, freqs[b - 2] as int, NEUTRAL_Q as int),
        );
        assert(filters[b - 1].coefficients.taps@ == band_kernel(
            sample_rate,
            freqs,
            num_bands,
            b - 1,
        ));
    }
}

/// Summing every active band kernel yields a unit impulse at the center
/// tap and zero elsewhere: the bands reconstruct a pure delay exactly.
pub proof fn lemma_band_sum_is_unit(
    filters: Seq<FirFilter>,
    sample_rate: int,
    freqs: Seq<u32>,
    num_bands: int,
    i: int,
)
    requires
        2 <= num_bands,
        0 <= i < FILTER_SIZE,
        bands_assigned(filters, sample_rate, freqs, num_bands),
    ensures
        taps_sum_at(filters, num_bands, i) == unit_kernel()[i],
{
    lemma_partial_band_sum(filters, sample_rate, freqs, num_bands, num_bands - 1, i);
    crate::fir_design::lemma_design_bounded(
        lowpass_spec(sample_rate, freqs[num_bands - 2] as int, NEUTRAL_Q as int),
    );
    assert(filters[num_bands - 1].coefficients.taps@ == band_kernel(
        sample_rate,
        freqs,
        num_bands,
        num_bands - 1,
    ));
}

/// A multiband crossover built from linear-phase FIR filters.
#[derive(Debug)]
pub struct FirCrossover {
    /// The crossover kind; coefficients follow it on the next `update`.
    pub mode: FirCrossoverType,
    /// One filter per band slot. The first active band is a low-pass, the
    /// last a high-pass, the ones between band-passes.
    pub band_filters: Vec<FirFilter>,
}

impl FirCrossover {
    /// Five well-formed filters.
    pub open spec fn wf(self) -> bool {
        &&& self.band_filters@.len() == NUM_BANDS
        &&& forall|b: int| 0 <= b < NUM_BANDS ==> (#[trigger] self.band_filters@[b]).wf()
    }

    /// A crossover whose filters all pass audio through unchanged, with the
    /// same latency the designed kernels will have. Call `update` before
    /// processing and `reset` to clear filter state.
    pub fn new(mode: FirCrossoverType) -> (r: FirCrossover)
        ensures
            r.wf(),
            r.mode == mode,
            forall|b: int|
                0 <= b < NUM_BANDS ==> (#[trigger] r.band_filters@[b]).coefficients.taps@
                    == unit_kernel(),
            forall|b: int|
                0 <= b < NUM_BANDS ==> (#[trigger] r.band_filters@[b]).delay_buffer_next_idx
                    == 0,
            forall|b: int, j: int|
                0 <= b < NUM_BANDS && 0 <= j < RING_BUFFER_SIZE ==> (
                #[trigger] r.band_filters@[b].delay_buffer@[j]) == (SamplePair {
                    left: 0,
                    right: 0,
                }),
    {
        let mut band_filters: Vec<FirFilter> = Vec::new();
        let mut b: usize = 0;
        while b < NUM_BANDS
            invariant
                band_filters@.len() == b,
                b <= NUM_BANDS,
                forall|bb: int| 0 <= bb < b ==> (#[trigger] band_filters@[bb]).wf(),
                forall|bb: int|
                    0 <= bb < b ==> (#[trigger] band_filters@[bb]).coefficients.taps@
                        == unit_kernel(),
                forall|bb: int|
                    0 <= bb < b ==> (#[trigger] band_filters@[bb]).delay_buffer_next_idx == 0,
                forall|bb: int, j: int|
                    0 <= bb < b && 0 <= j < RING_BUFFER_SIZE ==> (
                    #[trigger] band_filters@[bb].delay_buffer@[j]) == (SamplePair {
                        left: 0,
                        right: 0,
                    }),
            decreases NUM_BANDS - b,
        {
            band_filters.push(FirFilter::new_identity());
            b += 1;
        }
        FirCrossover { mode, band_filters }
    }

    /// The processing latency in samples: the center tap of the shared
    /// kernel length, whatever the band count or frequencies.
    pub fn latency(&self) -> (r: u32)
        ensures
            r == CENTER_IDX,
    {
        match self.mode {
            FirCrossoverType::LinkwitzRiley24LinearPhase => (FILTER_SIZE / 2) as u32,
        }
    }

    /// Clear every filter's delay line. Coefficients stay as they are.
    pub fn reset(&mut self)
        requires
            old(self).wf(),
        ensures
            final(self).wf(),
            final(self).mode == old(self).mode,
            final(self).band_filters@.len() == NUM_BANDS,
            forall|b: int|
                0 <= b < NUM_BANDS ==> (#[trigger] final(self).band_filters@[b]).coefficients
                    == old(self).band_filters@[b].coefficients,
            forall|b: int|
                0 <= b < NUM_BANDS ==> (#[trigger] final(self).band_filters@[
                b]).delay_buffer_next_idx == 0,
            forall|b: int, j: int|
                0 <= b < NUM_BANDS && 0 <= j < RING_BUFFER_SIZE ==> (
                #[trigger] final(self).band_filters@[b].delay_buffer@[j]) == (SamplePair {
                    left: 0,
                    right: 0,
                }),
    {
        let mut b: usize = 0;
        while b < NUM_BANDS
            invariant
                old(self).wf(),
                self.mode == old(self).mode,
                self.band_filters@.len() == NUM_BANDS,
                b <= NUM_BANDS,
                forall|bb: int| 0 <= bb < NUM_BANDS ==> (#[trigger] self.band_filters@[bb]).wf(),
                forall|bb: int|
                    0 <= bb < NUM_BANDS ==> (#[trigger] self.band_filters@[bb]).coefficients
                        == old(self).band_filters@[bb].coefficients,
                forall|bb: int|
                    0 <= bb < b ==> (#[trigger] self.band_filters@[bb]).delay_buffer_next_idx
                        == 0,
                forall|bb: int, j: int|
                    0 <= bb < b && 0 <= j < RING_BUFFER_SIZE ==> (
                    #[trigger] self.band_filters@[bb].delay_buffer@[j]) == (SamplePair {
                        left: 0,
                        right: 0,
                    }),
                forall|bb: int|
                    b <= bb < NUM_BANDS ==> (#[trigger] self.band_filters@[bb])
                        == old(self).band_filters@[bb],
            decreases NUM_BANDS - b,
        {
            self.band_filters[b].reset();
            b += 1;
        }
    }

    /// Recompute the kernels of the active bands from the crossover
    /// frequencies, given in hertz; with `num_bands` bands only the first
    /// `num_bands - 1` entries are read.
    /// The first band takes the first crossover's low-pass
    /// kernel directly; each middle band subtracts the accumulated response
    /// from its crossover's low-pass kernel and folds itself back in; the
    /// last band is the spectral inversion of the accumulated response.
    /// Delay lines are not touched. Slots past the active count keep their
    /// stale coefficients and must never be read.
    #[verifier::rlimit(50)]
    pub fn update(&mut self, sample_rate: u32, num_bands: usize, frequencies: [u32; 4])
        requires
            old(self).wf(),
            2 <= num_bands <= NUM_BANDS,
            sample_rate >= 1,
        ensures
            final(self).wf(),
            final(self).mode == old(self).mode,
            bands_assigned(
                final(self).band_filters@,
                sample_rate as int,
                frequencies@,
                num_bands as int,
            ),
            forall|b: int|
                0 <= b < NUM_BANDS ==> (#[trigger] final(self).band_filters@[b]).delay_buffer@
                    == old(self).band_filters@[b].delay_buffer@,
            forall|b: int|
                0 <= b < NUM_BANDS ==> (#[trigger] final(self).band_filters@[
                b]).delay_buffer_next_idx == old(self).band_filters@[b].delay_buffer_next_idx,
            forall|b: int|
                num_bands <= b < NUM_BANDS ==> (#[trigger] final(self).band_filters@[
                b]).coefficients == old(self).band_filters@[b].coefficients,
            forall|i: int|
                0 <= i < FILTER_SIZE ==> taps_sum_at(
                    final(self).band_filters@,
                    num_bands as int,
                    i,
                ) == unit_kernel()[i],
    {
        match self.mode {
            FirCrossoverType::LinkwitzRiley24LinearPhase => {},
        }
        // The lowest band is the first crossover's low-pass kernel, which
        // also seeds the accumulated response.
        let iir0 = BiquadCoefficients::lowpass(sample_rate, frequencies[0], NEUTRAL_Q);
        let lp0 = FirCoefficients::design_fourth_order_linear_phase_low_pass_from_biquad(iir0);
        let mut accumulated: Vec<i64> = Vec::new();
        let mut i: usize = 0;
        while i < FILTER_SIZE
            invariant
                lp0.taps@.len() == FILTER_SIZE,
                accumulated@.len() == i,
                i <= FILTER_SIZE,
                forall|j: int| 0 <= j < i ==> accumulated@[j] == lp0.taps@[j],
            decreases FILTER_SIZE - i,
        {
            accumulated.push(lp0.taps[i]);
            i += 1;
        }
        proof {
            assert(accumulated@ =~= lp0.taps@);
        }
        self.band_filters[0].coefficients = lp0;

        // Middle bands: the annulus between consecutive crossovers.
        let mut b: usize = 1;
        while b < num_bands - 1
            invariant
                old(self).wf(),
                2 <= num_bands <= NUM_BANDS,
                sample_rate >= 1,
                1 <= b <= num_bands - 1,
                self.mode == old(self).mode,
                self.band_filters@.len() == NUM_BANDS,
                forall|bb: int| 0 <= bb < NUM_BANDS ==> (#[trigger] self.band_filters@[bb]).wf(),
                accumulated@ == crossover_lp(sample_rate as int, frequencies@[b - 1] as int),
                accumulated@.len() == FILTER_SIZE,
                probe_bounded(accumulated@),
                forall|bb: int|
                    0 <= bb < b ==> (#[trigger] self.band_filters@[bb]).coefficients.taps@
                        == band_kernel(
                        sample_rate as int,
                        frequencies@,
                        num_bands as int,
                        bb,
                    ),
                forall|bb: int|
                    0 <= bb < NUM_BANDS ==> (#[trigger] self.band_filters@[bb]).delay_buffer@
                        == old(self).band_filters@[bb].delay_buffer@,
                forall|bb: int|
                    0 <= bb < NUM_BANDS ==> (#[trigger] self.band_filters@[
                    bb]).delay_buffer_next_idx == old(self).band_filters@[
                    bb].delay_buffer_next_idx,
                forall|bb: int|
                    b <= bb < NUM_BANDS ==> (#[trigger] self.band_filters@[bb]).coefficients
                        == old(self).band_filters@[bb].coefficients,
            decreases num_bands - 1 - b,
        {
            let iir = BiquadCoefficients::lowpass(sample_rate, frequencies[b], NEUTRAL_Q);
            let lp = FirCoefficients::design_fourth_order_linear_phase_low_pass_from_biquad(iir);
            let ghost acc0 = accumulated@;
            let mut band: Vec<i64> = Vec::new();
            let mut i: usize = 0;
            while i < FILTER_SIZE
                invariant
                    lp.taps@.len() == FILTER_SIZE,
                    probe_bounded(lp.taps@),
                    acc0.len() == FILTER_SIZE,
                    probe_bounded(acc0),
                    accumulated@.len() == FILTER_SIZE,
                    band@.len() == i,
                    i <= FILTER_SIZE,
                    forall|j: int|
                        0 <= j < i ==> #[trigger] band@[j] == ((lp.taps@[j] - acc0[j]) as i64),
                    forall|j: int| 0 <= j < i ==> #[trigger] accumulated@[j] == lp.taps@[j],
                    forall|j: int|
                        i <= j < FILTER_SIZE ==> #[trigger] accumulated@[j] == acc0[j],
                decreases FILTER_SIZE - i,
            {
                let bp: i64 = lp.taps[i] - accumulated[i];
                let folded: i64 = accumulated[i] + bp;
                accumulated.set(i, folded);
                band.push(bp);
                i += 1;
            }
            proof {
                assert(accumulated@ =~= lp.taps@);
                assert(band@ =~= band_kernel(
                    sample_rate as int,
                    frequencies@,
                    num_bands as int,
                    b as int,
                ));
            }
            let band_coefs = FirCoefficients { taps: band };
            proof {
                assert forall|j: int| 0 <= j < FILTER_SIZE implies iabs(
                    #[trigger] band_coefs.taps@[j] as int,
                ) <= TAP_LIMIT by {
                    assert(iabs(lp.taps@[j] as int) <= PROBE_LIMIT);
                    assert(iabs(acc0[j] as int) <= PROBE_LIMIT);
                }
            }
            self.band_filters[b].coefficients = band_coefs;
            b += 1;
        }

        // The top band: spectral inversion of the accumulated response.
        let ghost accf = accumulated@;
        let mut hp: Vec<i64> = Vec::new();
        let mut i: usize = 0;
        while i < FILTER_SIZE
            invariant
                accf == accumulated@,
                accf.len() == FILTER_SIZE,
                probe_bounded(accf),
                hp@.len() == i,
                i <= FILTER_SIZE,
                forall|j: int| 0 <= j < i ==> #[trigger] hp@[j] == ((0 - accf[j]) as i64),
            decreases FILTER_SIZE - i,
        {
            hp.push(0 - accumulated[i]);
            i += 1;
        }
        let lifted: i64 = hp[CENTER_IDX] + UNIT;
        hp.set(CENTER_IDX, lifted);
        proof {
            assert(hp@ =~= band_kernel(
                sample_rate as int,
                frequencies@,
                num_bands as int,
                num_bands - 1,
            ));
        }
        let hp_coefs = FirCoefficients { taps: hp };
        proof {
            assert forall|j: int| 0 <= j < FILTER_SIZE implies iabs(
                #[trigger] hp_coefs.taps@[j] as int,
            ) <= TAP_LIMIT by {
                assert(iabs(accf[j] as int) <= PROBE_LIMIT);
            }
        }
        self.band_filters[num_bands - 1].coefficients = hp_coefs;

        proof {
            assert forall|i: int| 0 <= i < FILTER_SIZE implies taps_sum_at(
                self.band_filters@,
                num_bands as int,
                i,
            ) == unit_kernel()[i] by {
                lemma_band_sum_is_unit(
                    self.band_filters@,
                    sample_rate as int,
                    frequencies@,
                    num_bands as int,
                    i,
                );
            }
        }
    }

    /// Fan one input pair through the active band filters, writing each
    /// band's output to its slot. Slots past the active count are left
    /// untouched, as are their filters. The input stream itself is not
    /// modified here; the caller silences it separately.
    pub fn process(
        &mut self,
        num_bands: usize,
        main_io: SamplePair,
        band_outputs: &mut Vec<SamplePair>,
    )
        requires
            old(self).wf(),
            2 <= num_bands <= NUM_BANDS,
            old(band_outputs).len() == NUM_BANDS,
            main_io.bounded(SAMPLE_LIMIT as int),
        ensures
            final(self).wf(),
            final(self).mode == old(self).mode,
            final(band_outputs).len() == NUM_BANDS,
            forall|b: int|
                0 <= b < num_bands ==> (#[trigger] final(band_outputs)@[b]).left as int
                    == conv_sum(
                    old(self).band_filters@[b].coefficients.taps@,
                    old(self).band_filters@[b].delay_buffer@,
                    old(self).band_filters@[b].delay_buffer_next_idx as int,
                    main_io,
                    FILTER_SIZE as nat,
                    true,
                ),
            forall|b: int|
                0 <= b < num_bands ==> (#[trigger] final(band_outputs)@[b]).right as int
                    == conv_sum(
                    old(self).band_filters@[b].coefficients.taps@,
                    old(self).band_filters@[b].delay_buffer@,
                    old(self).band_filters@[b].delay_buffer_next_idx as int,
                    main_io,
                    FILTER_SIZE as nat,
                    false,
                ),
            forall|b: int|
                0 <= b < num_bands ==> (#[trigger] final(self).band_filters@[b]).coefficients
                    == old(self).band_filters@[b].coefficients,
            forall|b: int|
                0 <= b < num_bands ==> (#[trigger] final(self).band_filters@[b]).delay_buffer@
                    == old(self).band_filters@[b].delay_buffer@.update(
                    old(self).band_filters@[b].delay_buffer_next_idx as int,
                    main_io,
                ),
            forall|b: int|
                0 <= b < num_bands ==> (#[trigger] final(self).band_filters@[
                b]).delay_buffer_next_idx as int == (old(self).band_filters@[
                b].delay_buffer_next_idx + 1) % (RING_BUFFER_SIZE as int),
            forall|b: int|
                num_bands <= b < NUM_BANDS ==> (#[trigger] final(self).band_filters@[b])
                    == old(self).band_filters@[b],
            forall|b: int|
                num_bands <= b < NUM_BANDS ==> (#[trigger] final(band_outputs)@[b])
                    == old(band_outputs)@[b],
    {
        let mut b: usize = 0;
        while b < num_bands
            invariant
                old(self).wf(),
                2 <= num_bands <= NUM_BANDS,
                main_io.bounded(SAMPLE_LIMIT as int),
                self.mode == old(self).mode,
                self.band_filters@.len() == NUM_BANDS,
                band_outputs@.len() == NUM_BANDS,
                b <= num_bands,
                forall|bb: int| 0 <= bb < NUM_BANDS ==> (#[trigger] self.band_filters@[bb]).wf(),
                forall|bb: int|
                    0 <= bb < b ==> (#[trigger] band_outputs@[bb]).left as int == conv_sum(
                        old(self).band_filters@[bb].coefficients.taps@,
                        old(self).band_filters@[bb].delay_buffer@,
                        old(self).band_filters@[bb].delay_buffer_next_idx as int,
                        main_io,
                        FILTER_SIZE as nat,
                        true,
                    ),
                forall|bb: int|
                    0 <= bb < b ==> (#[trigger] band_outputs@[bb]).right as int == conv_sum(
                        old(self).band_filters@[bb].coefficients.taps@,
                        old(self).band_filters@[bb].delay_buffer@,
                        old(self).band_filters@[bb].delay_buffer_next_idx as int,
                        main_io,
                        FILTER_SIZE as nat,
                        false,
                    ),
                forall|bb: int|
                    0 <= bb < b ==> (#[trigger] self.band_filters@[bb]).coefficients == old(
                        self,
                    ).band_filters@[bb].coefficients,
                forall|bb: int|
                    0 <= bb < b ==> (#[trigger] self.band_filters@[bb]).delay_buffer@ == old(
                        self,
                    ).band_filters@[bb].delay_buffer@.update(
                        old(self).band_filters@[bb].delay_buffer_next_idx as int,
                        main_io,
                    ),
                forall|bb: int|
                    0 <= bb < b ==> (#[trigger] self.band_filters@[bb]).delay_buffer_next_idx
                        as int == (old(self).band_filters@[bb].delay_buffer_next_idx + 1) % (
                    RING_BUFFER_SIZE as int),
                forall|bb: int|
                    b <= bb < NUM_BANDS ==> (#[trigger] self.band_filters@[bb]) == old(
                        self,
                    ).band_filters@[bb],
                forall|bb: int|
                    b <= bb < NUM_BANDS ==> (#[trigger] band_outputs@[bb]) == old(
                        band_outputs,
                    )@[bb],
            decreases num_bands - b,
        {
            let filtered = self.band_filters[b].process(main_io);
            band_outputs.set(b, filtered);
            b += 1;
        }
    }
}

} // verus!
