//! A small music toolkit built around two independent paths.
//!
//! The first path turns a symbolic score into a PCM audio file: beats are
//! converted to seconds ([`roll`]), named pitches give their frequency ids
//! ([`pitch`]), and a finished buffer of 16-bit samples is wrapped in a
//! byte-exact RIFF/WAVE container ([`wav`]). The sample synthesis itself
//! (oscillators, envelopes, filtering) is floating-point signal processing
//! and is left to the embedding application; [`instrument`] defines the
//! waveform vocabulary that the application and the score share.
//!
//! The second path decodes a standard MIDI file into its symbolic event
//! stream ([`midi`]): a sequential byte parser that tracks a running status
//! byte, decodes variable-length delta times, and dispatches meta events.

pub mod instrument;
pub mod midi;
pub mod pitch;
pub mod roll;
pub mod text;
pub mod wav;
