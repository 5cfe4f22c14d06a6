//! The waveform vocabulary of the synthesizer.
//!
//! Sample generation itself — oscillators, envelopes and filtering — is
//! floating-point signal processing and cannot be written in verified code,
//! so it lives in the embedding application. The application and the score
//! share this enumeration to say which periodic waveform an oscillator
//! produces.

use vstd::prelude::*;

verus! {

/// The kind of periodic waveform an oscillator generates.
#[derive(Clone, Copy, Debug, PartialEq, Eq, Structural)]
pub enum Generator {
    /// `sin(2 * pi * f * t)`.
    Sine,
    /// `+1` on the first half of each period, `-1` on the second.
    Square,
    /// A symmetric rise-and-fall ramp, breaking at the quarter points of
    /// the period.
    Triangle,
    /// A linear ramp from `-1` to `+1` over each period.
    Sawtooth,
    /// The constant `1`.
    DC,
}

} // verus!
