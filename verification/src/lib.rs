//! Swept-sine frequency-response measurement core.
//!
//! The crate models a deterministic swept-sine excitation signal, a reference
//! biquad filter (coefficient container plus two interchangeable state
//! realizations in fixed-point arithmetic), the block layout used by the
//! frequency-response analyzer, and the WAV byte format used to persist the
//! analyzer's buffers.
//!
//! All quantities are exact: frequencies in integer hertz, the oscillator
//! phase as a rational fraction of a full turn, samples and coefficients in
//! two's-complement fixed point. Turning a phase fraction into an actual
//! sine sample, deriving filter coefficients from analog prototypes, and the
//! Fourier transform itself are floating-point concerns that belong to the
//! caller.

pub mod biquad;
pub mod bode;
pub mod sweep_generator;
pub mod wav_writer;

pub use bode::FftAnalyzerConfig;
pub use sweep_generator::{SweepError, SweepGenerator};
