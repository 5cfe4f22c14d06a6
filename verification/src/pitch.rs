//! Named musical pitches and their integer frequency ids.
//!
//! Each pitch carries the integer id of its place on the keyboard (middle C
//! is 60). The synthesizer uses the id directly as a frequency in hertz —
//! a deliberate, documented simplification of this toolkit, not a musical
//! pitch-to-frequency conversion.

use vstd::prelude::*;

verus! {

/// A named pitch of the fixed table used by the compositions.
#[derive(Clone, Copy, Debug, PartialEq, Eq, Structural)]
pub enum Pitch {
    C1,
    E1,
    C2,
    D2,
    E2,
    C4,
    E4,
    G4,
    B4,
    C5,
}

impl Pitch {
    /// The integer frequency id of this pitch (middle C = 60).
    pub open spec fn spec_frequency(self) -> u32 {
        match self {
            Pitch::C1 => 24,
            Pitch::E1 => 28,
            Pitch::C2 => 36,
            Pitch::D2 => 38,
            Pitch::E2 => 40,
            Pitch::C4 => 60,
            Pitch::E4 => 64,
            Pitch::G4 => 67,
            Pitch::B4 => 71,
            Pitch::C5 => 72,
        }
    }

    /// Returns the integer frequency id, reinterpreted by the synthesizer
    /// as a frequency in hertz.
    pub fn frequency(&self) -> (f: u32)
        ensures
            f == self.spec_frequency(),
    {
        match self {
            Pitch::C1 => 24,
            Pitch::E1 => 28,
            Pitch::C2 => 36,
            Pitch::D2 => 38,
            Pitch::E2 => 40,
            Pitch::C4 => 60,
            Pitch::E4 => 64,
            Pitch::G4 => 67,
            Pitch::B4 => 71,
            Pitch::C5 => 72,
        }
    }
}

} // verus!
