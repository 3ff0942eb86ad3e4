//! Harmony modes and the result of a harmonic decision.

use vstd::prelude::*;
use crate::chord::{Chord, PitchClass};

verus! {

/// The harmony system in use.
#[derive(Clone, Copy, Debug, PartialEq, Eq, Structural)]
pub enum HarmonyMode {
    /// Emotional-quadrant progressions (Russell circumplex)
    Basic,
    /// Functional grammar, neo-Riemannian transforms and the LCC
    Driver,
    /// A fixed chord chart, cycled through
    Chart,
}

impl Default for HarmonyMode {
    fn default() -> (m: Self)
        ensures
            m == HarmonyMode::Basic,
    {
        HarmonyMode::Basic
    }
}

/// The mode selected by a numeric code from the front end: 0 Basic,
/// 1 Driver, 2 Chart, any other code Driver.
pub open spec fn mode_of_code(code: u8) -> HarmonyMode {
    if code == 0 {
        HarmonyMode::Basic
    } else if code == 2 {
        HarmonyMode::Chart
    } else {
        HarmonyMode::Driver
    }
}

/// The numeric code of a mode.
pub open spec fn code_of_mode(m: HarmonyMode) -> u8 {
    match m {
        HarmonyMode::Basic => 0,
        HarmonyMode::Driver => 1,
        HarmonyMode::Chart => 2,
    }
}

impl HarmonyMode {
    /// The mode for a numeric code (unknown codes select the driver).
    pub fn from_code(code: u8) -> (m: HarmonyMode)
        ensures
            m == mode_of_code(code),
    {
        match code {
            0 => HarmonyMode::Basic,
            2 => HarmonyMode::Chart,
            _ => HarmonyMode::Driver,
        }
    }

    /// The numeric code of the mode.
    pub fn code(&self) -> (c: u8)
        ensures
            c == code_of_mode(*self),
    {
        match self {
            HarmonyMode::Basic => 0,
            HarmonyMode::Driver => 1,
            HarmonyMode::Chart => 2,
        }
    }
}

/// Every mode survives a round trip through its code, and the three codes
/// in use survive a round trip through their mode.
pub proof fn lemma_mode_code_roundtrip(m: HarmonyMode, code: u8)
    ensures
        mode_of_code(code_of_mode(m)) == m,
        code <= 2 ==> code_of_mode(mode_of_code(code)) == code,
{
}

/// The kind of transition between two chords.
#[derive(Clone, Copy, Debug, PartialEq, Eq, Structural)]
pub enum TransitionType {
    /// Functional harmony: V-I, ii-V and the like
    Functional,
    /// Geometric (neo-Riemannian) transformation: P, L, R
    Transformational,
    /// A pivot chord (dim7, aug, sus4) between strategies
    Pivot,
    /// No chord change
    Static,
}

/// The display name of a transition type.
pub open spec fn transition_name(t: TransitionType) -> Seq<char> {
    match t {
        TransitionType::Functional => "Functional"@,
        TransitionType::Transformational => "Transformational"@,
        TransitionType::Pivot => "Pivot"@,
        TransitionType::Static => "Static"@,
    }
}

impl TransitionType {
    /// The display name of the transition type.
    pub fn name(&self) -> (s: &'static str)
        ensures
            s@ == transition_name(*self),
    {
        match self {
            TransitionType::Functional => "Functional",
            TransitionType::Transformational => "Transformational",
            TransitionType::Pivot => "Pivot",
            TransitionType::Static => "Static",
        }
    }
}

/// The result of a harmonic decision.
#[derive(Clone, Debug)]
pub struct HarmonyDecision {
    /// The next chord
    pub next_chord: Chord,
    /// The kind of transition used
    pub transition_type: TransitionType,
    /// Scale suggested for the melody (pitch classes)
    pub suggested_scale: Vec<PitchClass>,
}

} // verus!
