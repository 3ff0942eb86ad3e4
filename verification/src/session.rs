//! The session key: a seed chooses the key (a natural note) and the scale
//! (minor or major pentatonic) of a session, with the same draws every
//! time the seed is replayed.

use vstd::prelude::*;
use rand::{Rng, SeedableRng};
use rand_chacha::ChaCha8Rng;
use crate::melody::{HarmonyNavigator, PitchName, ScaleKind, name_class, scale_notes};

verus! {

/// The seven natural keys a session can be in.
#[derive(Clone, Copy, Debug, PartialEq, Eq, Structural)]
pub enum NaturalKey {
    C,
    D,
    E,
    F,
    G,
    A,
    B,
}

/// The two scales a session can use.
#[derive(Clone, Copy, Debug, PartialEq, Eq, Structural)]
pub enum SessionScale {
    PentatonicMinor,
    PentatonicMajor,
}

/// The key and scale of a session, with the key's pitch class.
#[derive(Clone, Copy, Debug, PartialEq, Eq, Structural)]
pub struct SessionKey {
    pub key: NaturalKey,
    pub scale: SessionScale,
    /// Pitch class of the key (0 = C)
    pub key_pc: u8,
}

/// The keys in draw order.
pub open spec fn key_at(i: int) -> NaturalKey {
    if i == 0 {
        NaturalKey::C
    } else if i == 1 {
        NaturalKey::D
    } else if i == 2 {
        NaturalKey::E
    } else if i == 3 {
        NaturalKey::F
    } else if i == 4 {
        NaturalKey::G
    } else if i == 5 {
        NaturalKey::A
    } else {
        NaturalKey::B
    }
}

/// The pitch class of a natural key.
pub open spec fn key_pitch_class(k: NaturalKey) -> u8 {
    match k {
        NaturalKey::C => 0,
        NaturalKey::D => 2,
        NaturalKey::E => 4,
        NaturalKey::F => 5,
        NaturalKey::G => 7,
        NaturalKey::A => 9,
        NaturalKey::B => 11,
    }
}

impl NaturalKey {
    /// The pitch class of the key (0 = C).
    pub fn pitch_class(self) -> (pc: u8)
        ensures
            pc == key_pitch_class(self),
    {
        match self {
            NaturalKey::C => 0,
            NaturalKey::D => 2,
            NaturalKey::E => 4,
            NaturalKey::F => 5,
            NaturalKey::G => 7,
            NaturalKey::A => 9,
            NaturalKey::B => 11,
        }
    }
}

/// The two draws a session seed gives: the key index (below 7), then the
/// scale index (below 2).
pub uninterp spec fn session_draws(seed: u64) -> (usize, usize);

/// Seeds `rand_chacha`'s `ChaCha8Rng` with `seed_from_u64(seed)` and makes
/// the two draws `gen_range(0..7)` and `gen_range(0..2)` of `rand`. The
/// contract names the pair (`session_draws`) and states the two ranges.
/// `rand_core` documents seeded generators as reproducible (the same seed
/// gives the same output on every run), so the pair depends on the seed
/// alone; `rand` samples a `usize` range at the target's word width, so the
/// name stands for the draws of the target the crate is built for. The
/// ranges are not empty, so `gen_range` does not panic.
#[verifier::external_body]
fn seeded_session_draws(seed: u64) -> (d: (usize, usize))
    ensures
        d == session_draws(seed),
        d.0 < 7,
        d.1 < 2,
{
    let mut rng = ChaCha8Rng::seed_from_u64(seed);
    let k = rng.gen_range(0..7usize);
    let s = rng.gen_range(0..2usize);
    (k, s)
}

/// The note name of a natural key.
pub open spec fn key_name(k: NaturalKey) -> PitchName {
    match k {
        NaturalKey::C => PitchName::C,
        NaturalKey::D => PitchName::D,
        NaturalKey::E => PitchName::E,
        NaturalKey::F => PitchName::F,
        NaturalKey::G => PitchName::G,
        NaturalKey::A => PitchName::A,
        NaturalKey::B => PitchName::B,
    }
}

/// The scale kind of a session scale.
pub open spec fn session_kind(s: SessionScale) -> ScaleKind {
    match s {
        SessionScale::PentatonicMinor => ScaleKind::PentatonicMinor,
        SessionScale::PentatonicMajor => ScaleKind::PentatonicMajor,
    }
}

impl NaturalKey {
    /// The note name of the key.
    pub fn name(self) -> (p: PitchName)
        ensures
            p == key_name(self),
            name_class(p) == key_pitch_class(self),
    {
        match self {
            NaturalKey::C => PitchName::C,
            NaturalKey::D => PitchName::D,
            NaturalKey::E => PitchName::E,
            NaturalKey::F => PitchName::F,
            NaturalKey::G => PitchName::G,
            NaturalKey::A => PitchName::A,
            NaturalKey::B => PitchName::B,
        }
    }
}

impl SessionScale {
    /// The scale kind of the session scale.
    pub fn kind(self) -> (k: ScaleKind)
        ensures
            k == session_kind(self),
    {
        match self {
            SessionScale::PentatonicMinor => ScaleKind::PentatonicMinor,
            SessionScale::PentatonicMajor => ScaleKind::PentatonicMajor,
        }
    }
}

/// The scales in draw order.
pub open spec fn scale_at(i: int) -> SessionScale {
    if i == 0 {
        SessionScale::PentatonicMinor
    } else {
        SessionScale::PentatonicMajor
    }
}

/// The session chosen by two draws: the key among the seven natural keys
/// (C first), then the scale, minor pentatonic first.
pub fn session_from_draws(key_draw: usize, scale_draw: usize) -> (session: SessionKey)
    requires
        key_draw < 7,
        scale_draw < 2,
    ensures
        session.key == key_at(key_draw as int),
        session.scale == scale_at(scale_draw as int),
        session.key_pc == key_pitch_class(session.key),
{
    let key = if key_draw == 0 {
        NaturalKey::C
    } else if key_draw == 1 {
        NaturalKey::D
    } else if key_draw == 2 {
        NaturalKey::E
    } else if key_draw == 3 {
        NaturalKey::F
    } else if key_draw == 4 {
        NaturalKey::G
    } else if key_draw == 5 {
        NaturalKey::A
    } else {
        NaturalKey::B
    };
    let scale = if scale_draw == 0 {
        SessionScale::PentatonicMinor
    } else {
        SessionScale::PentatonicMajor
    };
    SessionKey { key, scale, key_pc: key.pitch_class() }
}

/// The key of the session a seed gives.
pub open spec fn seed_key(seed: u64) -> NaturalKey {
    key_at(session_draws(seed).0 as int)
}

/// The scale of the session a seed gives.
pub open spec fn seed_scale(seed: u64) -> SessionScale {
    scale_at(session_draws(seed).1 as int)
}

/// The key and scale a seed gives a session: the generator seeded with
/// `seed` draws the key among seven, then the scale among two.
pub fn session_key_from_seed(seed: u64) -> (session: SessionKey)
    ensures
        session.key == seed_key(seed),
        session.scale == seed_scale(seed),
        session.key_pc == key_pitch_class(session.key),
        session.key_pc < 12,
        0 <= session_draws(seed).0 < 7,
        0 <= session_draws(seed).1 < 2,
{
    let (k, s) = seeded_session_draws(seed);
    session_from_draws(k, s)
}

/// A seed always gives the same session: two sessions drawn from equal
/// seeds have the same key, scale and key pitch class.
pub proof fn lemma_same_seed_same_session(a: u64, b: u64)
    requires
        a == b,
    ensures
        seed_key(a) == seed_key(b),
        seed_scale(a) == seed_scale(b),
        key_pitch_class(seed_key(a)) == key_pitch_class(seed_key(b)),
{
}

/// The melody navigator of a session: its key and scale from base octave
/// four, at the tonic with the tonic major-seventh chord as context.
pub fn session_navigator(session: SessionKey) -> (nav: HarmonyNavigator)
    ensures
        nav.scale() == scale_notes(key_pitch_class(session.key) as int, session_kind(session.scale), 4),
        nav.index() == 0,
        nav.base_octave() == 4,
        nav.previous_step() == 0,
        nav.key_root() == key_pitch_class(session.key),
{
    HarmonyNavigator::new(session.key.name(), session.scale.kind(), 4)
}

} // verus!
