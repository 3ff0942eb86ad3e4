//! Harmonium: verified core of a generative music engine.
//!
//! The modules hold the parts of the engine that decide and compute on
//! plain values: chord and scale theory (Lydian Chromatic Concept), the
//! score timeline, the Standard MIDI File export, the lock-free transport
//! packing, and the integer side of the melody navigator.

pub mod chord;
pub mod decimal;
pub mod engine_control;
pub mod generator;
pub mod harmony;
pub mod lookahead;
pub mod lydian_chromatic;
pub mod melody;
pub mod pages;
pub mod midi_export;
pub mod midi_laws;
pub mod playback;
pub mod render;
pub mod report;
pub mod rhythm;
pub mod session;
pub mod stable_sort;
pub mod timeline;
pub mod transport;
