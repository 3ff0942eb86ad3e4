//! Lightweight snapshots of generated measures for score rendering.

use vstd::prelude::*;
use crate::lydian_chromatic::{ScaleGuidance, same_guidance};
use crate::timeline::{Measure, TimelineNote, TrackId};

verus! {

/// Lightweight snapshot of a note for score rendering.
#[derive(Clone, Copy, Debug, PartialEq, Eq, Structural)]
pub struct NoteSnapshot {
    /// Track: 0=Bass, 1=Lead, 2=Snare, 3=Hat
    pub track: u8,
    /// MIDI note number (0-127)
    pub pitch: u8,
    /// Start position within the measure (step index, 0-based)
    pub start_step: usize,
    /// Duration in steps (0 = trigger-only for percussion)
    pub duration_steps: usize,
    /// MIDI velocity (0-127)
    pub velocity: u8,
}

/// Lightweight snapshot of a generated measure for score rendering.
#[derive(Debug)]
pub struct MeasureSnapshot {
    /// Absolute measure index (1-based)
    pub index: usize,
    /// Tempo at generation time, in microseconds per quarter note
    pub tempo_uspq: u32,
    /// Time signature numerator
    pub time_sig_numerator: usize,
    /// Time signature denominator
    pub time_sig_denominator: usize,
    /// Number of steps in this measure
    pub steps: usize,
    /// Chord name for display
    pub chord_name: String,
    /// Root offset from key (semitones)
    pub chord_root_offset: i32,
    /// Whether the chord is minor
    pub chord_is_minor: bool,
    /// All notes of the measure, flattened across tracks
    pub notes: Vec<NoteSnapshot>,
    /// Improv scale guidance for this measure's chord, when known
    pub scale_guidance: Option<ScaleGuidance>,
}

/// The snapshot of a note on a given track channel.
pub open spec fn note_snapshot(n: TimelineNote, channel: u8) -> NoteSnapshot {
    NoteSnapshot {
        track: channel,
        pitch: n.pitch,
        start_step: n.start_step,
        duration_steps: n.duration_steps,
        velocity: n.velocity,
    }
}

/// Snapshots of a track's notes, in order.
pub open spec fn track_snapshots(notes: Seq<TimelineNote>, channel: u8) -> Seq<NoteSnapshot> {
    notes.map_values(|n: TimelineNote| note_snapshot(n, channel))
}

/// All note snapshots of a measure: bass, then lead, snare and hat.
pub open spec fn measure_note_snapshots(m: Measure) -> Seq<NoteSnapshot> {
    track_snapshots(m.track_notes(TrackId::Bass), 0) + track_snapshots(
        m.track_notes(TrackId::Lead),
        1,
    ) + track_snapshots(m.track_notes(TrackId::Snare), 2) + track_snapshots(
        m.track_notes(TrackId::Hat),
        3,
    )
}

fn push_track_snapshots(notes: &Vec<TimelineNote>, channel: u8, out: &mut Vec<NoteSnapshot>)
    ensures
        final(out)@ == old(out)@ + track_snapshots(notes@, channel),
{
    let ghost start = out@;
    let mut i: usize = 0;
    while i < notes.len()
        invariant
            i <= notes@.len(),
            out@ == start + track_snapshots(notes@.take(i as int), channel),
        decreases notes.len() - i,
    {
        let n = notes[i];
        out.push(
            NoteSnapshot {
                track: channel,
                pitch: n.pitch,
                start_step: n.start_step,
                duration_steps: n.duration_steps,
                velocity: n.velocity,
            },
        );
        i = i + 1;
        assert(out@ =~= start + track_snapshots(notes@.take(i as int), channel));
    }
    assert(notes@.take(i as int) =~= notes@);
}

/// Two snapshots hold the same values: equal fields, equal text and notes,
/// and the same scale guidance when there is one.
pub open spec fn same_snapshot(a: MeasureSnapshot, b: MeasureSnapshot) -> bool {
    &&& a.index == b.index
    &&& a.tempo_uspq == b.tempo_uspq
    &&& a.time_sig_numerator == b.time_sig_numerator
    &&& a.time_sig_denominator == b.time_sig_denominator
    &&& a.steps == b.steps
    &&& a.chord_name@ == b.chord_name@
    &&& a.chord_root_offset == b.chord_root_offset
    &&& a.chord_is_minor == b.chord_is_minor
    &&& a.notes@ == b.notes@
    &&& (a.scale_guidance is Some <==> b.scale_guidance is Some)
    &&& (a.scale_guidance matches Some(g) ==> same_guidance(g, b.scale_guidance->0))
}

impl Clone for MeasureSnapshot {
    fn clone(&self) -> (s: Self)
        ensures
            same_snapshot(s, *self),
    {
        let scale_guidance = match &self.scale_guidance {
            Some(g) => Some(g.clone()),
            None => None,
        };
        let notes = self.notes.clone();
        assert(notes@ =~= self.notes@);
        MeasureSnapshot {
            index: self.index,
            tempo_uspq: self.tempo_uspq,
            time_sig_numerator: self.time_sig_numerator,
            time_sig_denominator: self.time_sig_denominator,
            steps: self.steps,
            chord_name: self.chord_name.clone(),
            chord_root_offset: self.chord_root_offset,
            chord_is_minor: self.chord_is_minor,
            notes,
            scale_guidance,
        }
    }
}

impl MeasureSnapshot {
    /// Creates a snapshot from a full measure: its index, tempo, time
    /// signature, step count, chord context and all notes flattened across
    /// tracks in canonical order, each tagged with its track's channel.
    pub fn from_measure(measure: &Measure) -> (s: Self)
        ensures
            s.index == measure.index,
            s.tempo_uspq == measure.tempo_uspq,
            s.time_sig_numerator == measure.time_signature.numerator,
            s.time_sig_denominator == measure.time_signature.denominator,
            s.steps == measure.steps,
            s.chord_name@ == measure.chord_context.chord_name@,
            s.chord_root_offset == measure.chord_context.root_offset,
            s.chord_is_minor == measure.chord_context.is_minor,
            s.notes@ == measure_note_snapshots(*measure),
            s.scale_guidance is Some <==> measure.chord_context.scale_guidance is Some,
            s.scale_guidance matches Some(g) ==> same_guidance(
                g,
                measure.chord_context.scale_guidance->0,
            ),
    {
        let mut notes: Vec<NoteSnapshot> = Vec::new();
        push_track_snapshots(measure.notes_for_track(TrackId::Bass), 0, &mut notes);
        push_track_snapshots(measure.notes_for_track(TrackId::Lead), 1, &mut notes);
        push_track_snapshots(measure.notes_for_track(TrackId::Snare), 2, &mut notes);
        push_track_snapshots(measure.notes_for_track(TrackId::Hat), 3, &mut notes);
        let scale_guidance = match &measure.chord_context.scale_guidance {
            Some(g) => Some(g.clone()),
            None => None,
        };
        MeasureSnapshot {
            index: measure.index,
            tempo_uspq: measure.tempo_uspq,
            time_sig_numerator: measure.time_signature.numerator,
            time_sig_denominator: measure.time_signature.denominator,
            steps: measure.steps,
            chord_name: measure.chord_context.chord_name.clone(),
            chord_root_offset: measure.chord_context.root_offset,
            chord_is_minor: measure.chord_context.is_minor,
            notes,
            scale_guidance,
        }
    }
}

/// Note event for real-time visualization.
#[derive(Clone, Copy, Debug, PartialEq, Eq, Structural)]
pub struct NoteEvent {
    /// MIDI note number
    pub note_midi: u8,
    /// MIDI velocity (0-127)
    pub velocity: u8,
    /// MIDI channel (0=Bass, 1=Lead, 2=Snare, 3=Hat)
    pub channel: u8,
    /// true = NoteOn, false = NoteOff
    pub is_note_on: bool,
}

/// Note events as the visualisation reads them: four numbers per event,
/// note, channel, a zero step placeholder and velocity.
pub open spec fn flattened_events(notes: Seq<NoteEvent>) -> Seq<u32>
    decreases notes.len(),
{
    if notes.len() == 0 {
        Seq::empty()
    } else {
        flattened_events(notes.drop_last()) + seq![
            notes.last().note_midi as u32,
            notes.last().channel as u32,
            0u32,
            notes.last().velocity as u32,
        ]
    }
}

/// Flattens note events for the visualisation.
pub fn flatten_note_events(notes: &[NoteEvent]) -> (flat: Vec<u32>)
    ensures
        flat@ == flattened_events(notes@),
{
    let mut flat: Vec<u32> = Vec::new();
    let mut i: usize = 0;
    while i < notes.len()
        invariant
            i <= notes@.len(),
            flat@ == flattened_events(notes@.take(i as int)),
        decreases notes.len() - i,
    {
        let n = notes[i];
        assert(notes@.take(i + 1).drop_last() =~= notes@.take(i as int));
        flat.push(n.note_midi as u32);
        flat.push(n.channel as u32);
        flat.push(0);
        flat.push(n.velocity as u32);
        i = i + 1;
        assert(flat@ =~= flattened_events(notes@.take(i as int)));
    }
    assert(notes@.take(i as int) =~= notes@);
    flat
}

} // verus!
