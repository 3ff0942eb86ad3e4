//! Audio backends and the output of a headless render.

use vstd::prelude::*;

verus! {

/// The audio backend that renders the engine's events.
#[derive(Clone, Copy, Debug, PartialEq, Eq, Structural)]
pub enum AudioBackendType {
    /// The FundSP synthesis graph with the SoundFont player
    FundSP,
}

impl Default for AudioBackendType {
    fn default() -> (b: Self)
        ensures
            b == AudioBackendType::FundSP,
    {
        AudioBackendType::FundSP
    }
}

/// What a headless render produces.
pub struct RenderOutput {
    /// WAV audio bytes (32-bit float PCM, stereo, 44100 Hz)
    pub wav: Vec<u8>,
    /// MIDI file bytes, when MIDI was recorded
    pub midi: Option<Vec<u8>>,
    /// MusicXML score bytes, when a score was recorded
    pub musicxml: Option<Vec<u8>>,
}

} // verus!
