//! Rhythm settings as the front end requests them: the algorithm by code,
//! and the step, pulse and rotation counts of the primary and secondary
//! patterns, held to the ranges the sequencers take.

use vstd::prelude::*;

verus! {

/// The rhythm algorithm.
#[derive(Clone, Copy, Debug, PartialEq, Eq, Structural)]
pub enum RhythmMode {
    /// Euclidean pulses spread over the steps
    Euclidean,
    /// Polygon-based balanced patterns
    PerfectBalance,
    /// Groove templates
    ClassicGroove,
}

/// The mode selected by a numeric code: 0 Euclidean, 1 perfect balance,
/// 2 classic groove, any other code Euclidean.
pub open spec fn rhythm_of_code(code: u8) -> RhythmMode {
    if code == 1 {
        RhythmMode::PerfectBalance
    } else if code == 2 {
        RhythmMode::ClassicGroove
    } else {
        RhythmMode::Euclidean
    }
}

/// The numeric code of a mode.
pub open spec fn code_of_rhythm(m: RhythmMode) -> u8 {
    match m {
        RhythmMode::Euclidean => 0,
        RhythmMode::PerfectBalance => 1,
        RhythmMode::ClassicGroove => 2,
    }
}

impl RhythmMode {
    /// The mode for a numeric code (unknown codes select Euclidean).
    pub fn from_code(code: u8) -> (m: RhythmMode)
        ensures
            m == rhythm_of_code(code),
    {
        match code {
            1 => RhythmMode::PerfectBalance,
            2 => RhythmMode::ClassicGroove,
            _ => RhythmMode::Euclidean,
        }
    }

    /// The numeric code of the mode.
    pub fn code(&self) -> (c: u8)
        ensures
            c == code_of_rhythm(*self),
    {
        match self {
            RhythmMode::Euclidean => 0,
            RhythmMode::PerfectBalance => 1,
            RhythmMode::ClassicGroove => 2,
        }
    }
}

/// Every mode survives a round trip through its code, and the three codes
/// in use survive a round trip through their mode.
pub proof fn lemma_rhythm_code_roundtrip(m: RhythmMode, code: u8)
    ensures
        rhythm_of_code(code_of_rhythm(m)) == m,
        code <= 2 ==> code_of_rhythm(rhythm_of_code(code)) == code,
{
}

/// `x` held between `lo` and `hi`.
pub open spec fn held(x: usize, lo: usize, hi: usize) -> usize {
    if x < lo {
        lo
    } else if x > hi {
        hi
    } else {
        x
    }
}

fn hold(x: usize, lo: usize, hi: usize) -> (y: usize)
    requires
        lo <= hi,
    ensures
        y == held(x, lo, hi),
{
    if x < lo {
        lo
    } else if x > hi {
        hi
    } else {
        x
    }
}

/// The secondary (polyrhythm) pattern.
#[derive(Clone, Copy, Debug, PartialEq, Eq, Structural)]
pub struct SecondaryRhythm {
    pub steps: usize,
    pub pulses: usize,
    pub rotation: usize,
}

/// The secondary pattern assumed before the engine has reported one.
pub open spec fn default_secondary() -> SecondaryRhythm {
    SecondaryRhythm { steps: 12, pulses: 3, rotation: 0 }
}

impl SecondaryRhythm {
    /// The reported pattern, or twelve steps, three pulses, no rotation.
    pub fn current_or_default(reported: Option<SecondaryRhythm>) -> (s: SecondaryRhythm)
        ensures
            s == match reported {
                Some(r) => r,
                None => default_secondary(),
            },
    {
        match reported {
            Some(r) => r,
            None => SecondaryRhythm { steps: 12, pulses: 3, rotation: 0 },
        }
    }

    /// The pattern with a new step count, held between 4 and 32.
    pub fn with_steps(self, steps: usize) -> (s: SecondaryRhythm)
        ensures
            s == (SecondaryRhythm { steps: held(steps, 4, 32), ..self }),
    {
        SecondaryRhythm { steps: hold(steps, 4, 32), ..self }
    }

    /// The pattern with a new pulse count, held between 1 and 32.
    pub fn with_pulses(self, pulses: usize) -> (s: SecondaryRhythm)
        ensures
            s == (SecondaryRhythm { pulses: held(pulses, 1, 32), ..self }),
    {
        SecondaryRhythm { pulses: hold(pulses, 1, 32), ..self }
    }

    /// The pattern with a new rotation.
    pub fn with_rotation(self, rotation: usize) -> (s: SecondaryRhythm)
        ensures
            s == (SecondaryRhythm { rotation, ..self }),
    {
        SecondaryRhythm { rotation, ..self }
    }
}

/// The whole-number rhythm settings of one request.
#[derive(Clone, Copy, Debug, PartialEq, Eq, Structural)]
pub struct RhythmSettings {
    pub mode: RhythmMode,
    pub steps: usize,
    pub pulses: usize,
    pub rotation: usize,
    pub secondary: SecondaryRhythm,
}

/// The primary step count kept for a request: rounded down to a multiple
/// of four, then held between 16 and 384.
pub open spec fn primary_steps(steps: usize) -> usize {
    held(((steps / 4) * 4) as usize, 16, 384)
}

impl RhythmSettings {
    /// The settings a request asks for: the mode by code, the primary
    /// steps on a multiple of four between 16 and 384, the pulses between 1
    /// and 32, the secondary steps between 4 and 32 and its pulses between 1
    /// and 32; rotations as given.
    pub fn from_request(
        mode: u8,
        steps: usize,
        pulses: usize,
        rotation: usize,
        secondary_steps: usize,
        secondary_pulses: usize,
        secondary_rotation: usize,
    ) -> (s: RhythmSettings)
        ensures
            s.mode == rhythm_of_code(mode),
            s.steps == primary_steps(steps),
            s.pulses == held(pulses, 1, 32),
            s.rotation == rotation,
            s.secondary == (SecondaryRhythm {
                steps: held(secondary_steps, 4, 32),
                pulses: held(secondary_pulses, 1, 32),
                rotation: secondary_rotation,
            }),
    {
        RhythmSettings {
            mode: RhythmMode::from_code(mode),
            steps: hold((steps / 4) * 4, 16, 384),
            pulses: hold(pulses, 1, 32),
            rotation,
            secondary: SecondaryRhythm {
                steps: hold(secondary_steps, 4, 32),
                pulses: hold(secondary_pulses, 1, 32),
                rotation: secondary_rotation,
            },
        }
    }
}

} // verus!
