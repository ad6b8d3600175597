//! A linear-phase multiband audio crossover.
//!
//! The crate splits a stereo signal into 2 to 5 contiguous frequency bands
//! whose outputs sum back to a pure delay of the input. Band kernels are
//! symmetric FIR filters derived from Linkwitz-Riley low-pass targets and
//! evaluated with a circular delay line, one filter per band.
//!
//! All audio values are held in signed 64-bit fixed point with 30 fractional
//! bits, so every arithmetic step has an exact, machine-checked meaning: the
//! reconstruction property (all bands summing to a delayed unit impulse) holds
//! bit-for-bit, and the kernel normalization error is bounded by a proven
//! constant.

/// Scalar Q2.30 arithmetic: products, quotients, clamps, and their laws.
pub mod fixed;
/// Paired stereo samples.
pub mod sample;
/// Fixed-point cosine and sine for the design path.
pub mod trig;
/// The biquad low-pass target probed during design.
pub mod biquad;
/// Deriving a symmetric linear-phase kernel from a biquad target.
pub mod fir_design;
/// The kernel-sum bound of the designer.
pub mod design_props;
/// Real-time convolution against a circular delay line.
pub mod fir_filter;
/// The multiband engine: band derivation and per-sample fan-out.
pub mod crossover;
/// Sequence-level laws: pure delay, replay, impulse reconstruction.
pub mod filter_props;
/// Stream negotiation for the standalone audio backend.
pub mod backend;
