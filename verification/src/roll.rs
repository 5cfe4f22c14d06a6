//! Musical time, counted in beats of a piano roll.
//!
//! A [`Roll`] holds a whole number of beats. Under the fixed tempo and time
//! signature of the piece, a beat count converts to a duration in seconds.
//! The conversion is kept as an exact fraction so that adding two beat
//! counts and converting is the same as converting each and adding: no
//! rounding ever enters.

use vstd::prelude::*;

verus! {

/// Tempo of the piece, in beats per minute.
pub const TEMPO: u32 = 84;

/// Numerator of seconds per beat: one beat is a quarter-note at `TEMPO`
/// beats per minute, so it lasts `60 / (4 * TEMPO)` = `15 / 84` seconds.
pub const SECONDS_PER_BEAT_NUM: u64 = 15;

/// Denominator of seconds per beat; equals `TEMPO`.
pub const SECONDS_PER_BEAT_DEN: u64 = 84;

/// An exact duration in seconds, held as the fraction `num / den`.
///
/// Durations produced from the same clock share a denominator, so equal
/// denominators and added numerators give exact addition.
#[derive(Clone, Copy, Debug, PartialEq, Eq, Structural)]
pub struct Seconds {
    pub num: u64,
    pub den: u64,
}

/// A count of beats on the piano roll.
#[derive(Clone, Copy, Debug, PartialEq, Eq, Structural)]
pub struct Roll {
    pub v: u32,
}

impl Roll {
    /// The exact duration of this many beats.
    pub open spec fn spec_seconds(self) -> Seconds {
        Seconds { num: (self.v * SECONDS_PER_BEAT_NUM) as u64, den: SECONDS_PER_BEAT_DEN }
    }

    pub fn new(v: u32) -> (r: Roll)
        ensures
            r.v == v,
    {
        Roll { v }
    }

    /// Converts the beat count to seconds, as an exact fraction.
    pub fn seconds(&self) -> (s: Seconds)
        ensures
            s == self.spec_seconds(),
    {
        Seconds { num: self.v as u64 * SECONDS_PER_BEAT_NUM, den: SECONDS_PER_BEAT_DEN }
    }

    /// Adds two beat counts.
    pub fn plus(self, rhs: Roll) -> (r: Roll)
        requires
            self.v + rhs.v <= u32::MAX,
        ensures
            r.v == self.v + rhs.v,
    {
        Roll { v: self.v + rhs.v }
    }
}

/// Beat-to-second conversion is additive: the seconds of a sum of two beat
/// counts has the same denominator as each summand and the sum of their
/// numerators, so it equals the exact rational sum of their seconds.
pub proof fn lemma_roll_add_seconds(a: Roll, b: Roll)
    requires
        a.v + b.v <= u32::MAX,
    ensures
        ({
            let s = (Roll { v: (a.v + b.v) as u32 }).spec_seconds();
            let sa = a.spec_seconds();
            let sb = b.spec_seconds();
            s.num == sa.num + sb.num && s.den == sa.den && sa.den == sb.den
        }),
{
}

} // verus!
