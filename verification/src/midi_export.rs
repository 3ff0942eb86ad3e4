//! Standard MIDI File export of a score timeline.
//!
//! A Type 1 (parallel tracks) file at 480 ticks per quarter note: a tempo
//! track, the bass and lead tracks on channels 0 and 1, and a drum track on
//! General MIDI channel 9 combining snare and hi-hat. Each timeline step is
//! 120 MIDI ticks (a sixteenth note).

use vstd::prelude::*;
use vstd::string::*;
use crate::stable_sort::{TimedNote, sort_timed_notes, stable_sorted, keys_sorted, sort_key,
    lemma_stable_sorted_is_sorted_permutation};
use crate::timeline::{Measure, ScoreTimeline, TimelineNote, TrackId};
use midly::num::{u4, u7, u15, u24, u28};
use midly::{Format, Header, MetaMessage, MidiMessage, Smf, Timing, TrackEvent, TrackEventKind};

verus! {

/// Ticks per quarter note in the output MIDI file.
pub const TICKS_PER_QUARTER: u16 = 480;

/// MIDI ticks per timeline step (480 PPQ / 4 steps per beat).
pub const TICKS_PER_STEP: u32 = 120;

/// MIDI velocity given to notes whose velocity is 0 (trigger events).
pub const DEFAULT_TRIGGER_VELOCITY: u8 = 80;

/// General MIDI percussion channel (0-indexed).
pub const GM_DRUM_CHANNEL: u8 = 9;

/// General MIDI percussion key of the snare drum.
pub const GM_SNARE: u8 = 38;

/// General MIDI percussion key of the closed hi-hat.
pub const GM_HIHAT: u8 = 42;

/// What a track event carries.
#[derive(Clone, Debug, PartialEq, Eq)]
pub enum MidiEventKind {
    NoteOn { channel: u8, key: u8, vel: u8 },
    NoteOff { channel: u8, key: u8, vel: u8 },
    TrackName(Vec<u8>),
    /// Numerator, denominator as a power of two, MIDI clocks per click,
    /// 32nd notes per quarter note.
    TimeSignature(u8, u8, u8, u8),
    /// Microseconds per quarter note.
    Tempo(u32),
    EndOfTrack,
}

/// A track event: a delta time in ticks since the previous event, and what
/// happens.
#[derive(Clone, Debug, PartialEq, Eq)]
pub struct MidiTrackEvent {
    pub delta: u32,
    pub kind: MidiEventKind,
}

/// The absolute start tick of a measure: every preceding measure is taken to
/// have this measure's step count.
pub open spec fn measure_start_tick(m: Measure) -> int {
    ((m.index - 1) as u32) as int * (m.steps as u32) as int * 120
}

/// The start tick of a measure fits in 32 bits.
pub open spec fn start_fits(m: Measure) -> bool {
    m.index >= 1 && measure_start_tick(m) <= u32::MAX
}

/// The note-on tick of a note in a measure starting at `base`.
pub open spec fn note_on_tick(base: int, n: TimelineNote) -> int {
    base + (n.start_step as u32) as int * 120
}

/// The sounding length in ticks of a bass or lead note.
pub open spec fn instrument_duration(n: TimelineNote) -> int {
    if n.duration_steps == 0 {
        60
    } else {
        (n.duration_steps as u32) as int * 120
    }
}

/// The velocity written for a note: trigger notes (velocity 0) get the default.
pub open spec fn written_velocity(n: TimelineNote) -> u8 {
    if n.velocity == 0 {
        DEFAULT_TRIGGER_VELOCITY
    } else {
        n.velocity
    }
}

/// The note-on and note-off of a bass or lead note.
pub open spec fn instrument_pair(base: int, n: TimelineNote, channel: u8) -> Seq<TimedNote> {
    seq![
        TimedNote {
            tick: note_on_tick(base, n) as u32,
            is_off: false,
            channel,
            key: n.pitch,
            vel: written_velocity(n),
        },
        TimedNote {
            tick: (note_on_tick(base, n) + instrument_duration(n)) as u32,
            is_off: true,
            channel,
            key: n.pitch,
            vel: 0,
        },
    ]
}

/// The note-on and note-off of a drum hit on `key`, one step long.
pub open spec fn drum_pair(base: int, n: TimelineNote, key: u8) -> Seq<TimedNote> {
    seq![
        TimedNote {
            tick: note_on_tick(base, n) as u32,
            is_off: false,
            channel: GM_DRUM_CHANNEL,
            key,
            vel: written_velocity(n),
        },
        TimedNote {
            tick: (note_on_tick(base, n) + 120) as u32,
            is_off: true,
            channel: GM_DRUM_CHANNEL,
            key,
            vel: 0,
        },
    ]
}

/// The note events of a list of bass or lead notes, in note order.
pub open spec fn instrument_pairs(base: int, notes: Seq<TimelineNote>, channel: u8) -> Seq<
    TimedNote,
>
    decreases notes.len(),
{
    if notes.len() == 0 {
        Seq::empty()
    } else {
        instrument_pairs(base, notes.drop_last(), channel) + instrument_pair(
            base,
            notes.last(),
            channel,
        )
    }
}

/// The note events of a list of drum hits, in note order.
pub open spec fn drum_pairs(base: int, notes: Seq<TimelineNote>, key: u8) -> Seq<TimedNote>
    decreases notes.len(),
{
    if notes.len() == 0 {
        Seq::empty()
    } else {
        drum_pairs(base, notes.drop_last(), key) + drum_pair(base, notes.last(), key)
    }
}

/// The unsorted note events of one instrument track over all measures.
pub open spec fn instrument_timed(ms: Seq<Measure>, track: TrackId, channel: u8) -> Seq<TimedNote>
    decreases ms.len(),
{
    if ms.len() == 0 {
        Seq::empty()
    } else {
        instrument_timed(ms.drop_last(), track, channel) + instrument_pairs(
            measure_start_tick(ms.last()),
            ms.last().track_notes(track),
            channel,
        )
    }
}

/// The unsorted note events of the drum track: per measure, the snare hits
/// then the hi-hat hits.
pub open spec fn drum_timed(ms: Seq<Measure>) -> Seq<TimedNote>
    decreases ms.len(),
{
    if ms.len() == 0 {
        Seq::empty()
    } else {
        drum_timed(ms.drop_last()) + drum_pairs(
            measure_start_tick(ms.last()),
            ms.last().track_notes(TrackId::Snare),
            GM_SNARE,
        ) + drum_pairs(measure_start_tick(ms.last()), ms.last().track_notes(TrackId::Hat), GM_HIHAT)
    }
}

/// Every tick of a bass or lead note of the measure fits in 32 bits.
pub open spec fn instrument_notes_fit(base: int, notes: Seq<TimelineNote>) -> bool {
    forall|i: int|
        0 <= i < notes.len() ==> note_on_tick(base, #[trigger] notes[i]) + instrument_duration(
            notes[i],
        ) <= u32::MAX
}

/// Every tick of a drum hit of the measure fits in 32 bits.
pub open spec fn drum_notes_fit(base: int, notes: Seq<TimelineNote>) -> bool {
    forall|i: int| 0 <= i < notes.len() ==> note_on_tick(base, #[trigger] notes[i]) + 120 <= u32::MAX
}

/// A measure can be exported to a bass or lead track without overflow.
pub open spec fn instrument_ready(m: Measure, track: TrackId) -> bool {
    start_fits(m) && instrument_notes_fit(measure_start_tick(m), m.track_notes(track))
}

/// A measure can be exported to the drum track without overflow.
pub open spec fn drums_ready(m: Measure) -> bool {
    &&& start_fits(m)
    &&& drum_notes_fit(measure_start_tick(m), m.track_notes(TrackId::Snare))
    &&& drum_notes_fit(measure_start_tick(m), m.track_notes(TrackId::Hat))
}

/// The MIDI event of a timed note.
pub open spec fn note_kind(e: TimedNote) -> MidiEventKind {
    if e.is_off {
        MidiEventKind::NoteOff { channel: e.channel, key: e.key, vel: e.vel }
    } else {
        MidiEventKind::NoteOn { channel: e.channel, key: e.key, vel: e.vel }
    }
}

/// The delta time of the `i`-th event: ticks since the previous event
/// (since tick 0 for the first), never negative.
pub open spec fn delta_at(s: Seq<TimedNote>, i: int) -> u32 {
    let prev: int = if i == 0 { 0 } else { s[i - 1].tick as int };
    if s[i].tick as int >= prev { (s[i].tick - prev) as u32 } else { 0 }
}

/// Timed notes turned into delta-time track events.
pub open spec fn delta_events(s: Seq<TimedNote>) -> Seq<MidiTrackEvent> {
    Seq::new(s.len(), |i: int| MidiTrackEvent { delta: delta_at(s, i), kind: note_kind(s[i]) })
}

/// `track` is a track named `name` holding `body`, then an end-of-track.
pub open spec fn is_named_track(
    track: Seq<MidiTrackEvent>,
    name: Seq<u8>,
    body: Seq<MidiTrackEvent>,
) -> bool {
    &&& track.len() == body.len() + 2
    &&& track[0].delta == 0
    &&& track[0].kind matches MidiEventKind::TrackName(v) && v@ == name
    &&& track.subrange(1, body.len() + 1int) == body
    &&& track.last() == MidiTrackEvent { delta: 0, kind: MidiEventKind::EndOfTrack }
}

/// The absolute start tick of a measure.
pub fn measure_start(m: &Measure) -> (tick: u32)
    requires
        start_fits(*m),
    ensures
        tick == measure_start_tick(*m),
{
    let a = (m.index - 1) as u32;
    let b = m.steps as u32;
    assert(a as int * b as int <= a as int * b as int * 120) by (nonlinear_arith);
    a * b * TICKS_PER_STEP
}

/// MIDI writes the time signature denominator as its base-2 logarithm.
pub open spec fn denominator_power(denom: usize) -> u8 {
    if denom == 1 { 0 }
    else if denom == 2 { 1 }
    else if denom == 4 { 2 }
    else if denom == 8 { 3 }
    else if denom == 16 { 4 }
    else { 2 }
}

/// The base-2 logarithm of a time signature denominator (1, 2, 4, 8, 16);
/// any other denominator is written as a quarter note (2).
pub fn denom_to_power(denom: usize) -> (p: u8)
    ensures
        p == denominator_power(denom),
{
    match denom {
        1 => 0,
        2 => 1,
        4 => 2,
        8 => 3,
        16 => 4,
        _ => 2,
    }
}

/// Turns sorted-or-not timed notes into delta-time track events.
fn to_delta_events(s: &Vec<TimedNote>, out: &mut Vec<MidiTrackEvent>)
    ensures
        final(out)@ == old(out)@ + delta_events(s@),
{
    let ghost start = out@;
    let mut prev_tick: u32 = 0;
    let mut i: usize = 0;
    while i < s.len()
        invariant
            i <= s@.len(),
            out@ == start + delta_events(s@).take(i as int),
            i > 0 ==> prev_tick == s@[i - 1].tick,
            i == 0 ==> prev_tick == 0,
        decreases s.len() - i,
    {
        let e = s[i];
        let delta = e.tick.saturating_sub(prev_tick);
        let kind = if e.is_off {
            MidiEventKind::NoteOff { channel: e.channel, key: e.key, vel: e.vel }
        } else {
            MidiEventKind::NoteOn { channel: e.channel, key: e.key, vel: e.vel }
        };
        out.push(MidiTrackEvent { delta, kind });
        prev_tick = e.tick;
        i = i + 1;
        assert(out@ =~= start + delta_events(s@).take(i as int));
    }
    assert(delta_events(s@).take(i as int) =~= delta_events(s@));
}

/// Appends the note-on/note-off pairs of bass or lead notes.
fn push_instrument_pairs(
    base: u32,
    notes: &Vec<TimelineNote>,
    channel: u8,
    events: &mut Vec<TimedNote>,
)
    requires
        instrument_notes_fit(base as int, notes@),
    ensures
        final(events)@ == old(events)@ + instrument_pairs(base as int, notes@, channel),
{
    let ghost start = events@;
    let mut j: usize = 0;
    while j < notes.len()
        invariant
            j <= notes@.len(),
            instrument_notes_fit(base as int, notes@),
            events@ == start + instrument_pairs(base as int, notes@.take(j as int), channel),
        decreases notes.len() - j,
    {
        let note = notes[j];
        assert(note == notes@[j as int]);
        let on_tick = base + (note.start_step as u32) * TICKS_PER_STEP;
        let vel = if note.velocity == 0 { DEFAULT_TRIGGER_VELOCITY } else { note.velocity };
        let dur_ticks = if note.duration_steps == 0 {
            TICKS_PER_STEP / 2
        } else {
            (note.duration_steps as u32) * TICKS_PER_STEP
        };
        let off_tick = on_tick + dur_ticks;
        events.push(TimedNote { tick: on_tick, is_off: false, channel, key: note.pitch, vel });
        events.push(TimedNote { tick: off_tick, is_off: true, channel, key: note.pitch, vel: 0 });
        j = j + 1;
        assert(notes@.take(j as int).drop_last() =~= notes@.take(j - 1));
        assert(events@ =~= start + instrument_pairs(base as int, notes@.take(j as int), channel));
    }
    assert(notes@.take(j as int) =~= notes@);
}

/// Appends the note-on/note-off pairs of drum hits on `key`.
fn push_drum_pairs(base: u32, notes: &Vec<TimelineNote>, key: u8, events: &mut Vec<TimedNote>)
    requires
        drum_notes_fit(base as int, notes@),
    ensures
        final(events)@ == old(events)@ + drum_pairs(base as int, notes@, key),
{
    let ghost start = events@;
    let mut j: usize = 0;
    while j < notes.len()
        invariant
            j <= notes@.len(),
            drum_notes_fit(base as int, notes@),
            events@ == start + drum_pairs(base as int, notes@.take(j as int), key),
        decreases notes.len() - j,
    {
        let note = notes[j];
        assert(note == notes@[j as int]);
        let on_tick = base + (note.start_step as u32) * TICKS_PER_STEP;
        let vel = if note.velocity == 0 { DEFAULT_TRIGGER_VELOCITY } else { note.velocity };
        events.push(
            TimedNote { tick: on_tick, is_off: false, channel: GM_DRUM_CHANNEL, key, vel },
        );
        events.push(
            TimedNote {
                tick: on_tick + TICKS_PER_STEP,
                is_off: true,
                channel: GM_DRUM_CHANNEL,
                key,
                vel: 0,
            },
        );
        j = j + 1;
        assert(notes@.take(j as int).drop_last() =~= notes@.take(j - 1));
        assert(events@ =~= start + drum_pairs(base as int, notes@.take(j as int), key));
    }
    assert(notes@.take(j as int) =~= notes@);
}

/// The bass or lead track: its name, the notes of `track_id` on `channel`
/// sorted by tick (note-offs first at equal ticks) with delta times, and
/// the end-of-track.
pub fn build_instrument_track(measures: &[Measure], track_id: TrackId, channel: u8, name: &str) -> (track:
    Vec<MidiTrackEvent>)
    requires
        forall|i: int| 0 <= i < measures@.len() ==> instrument_ready(#[trigger] measures@[i], track_id),
    ensures
        is_named_track(
            track@,
            name.spec_bytes(),
            delta_events(stable_sorted(instrument_timed(measures@, track_id, channel))),
        ),
{
    let mut events: Vec<TimedNote> = Vec::new();
    let mut i: usize = 0;
    while i < measures.len()
        invariant
            i <= measures@.len(),
            forall|k: int| 0 <= k < measures@.len() ==> instrument_ready(#[trigger] measures@[k], track_id),
            events@ == instrument_timed(measures@.take(i as int), track_id, channel),
        decreases measures.len() - i,
    {
        let measure = &measures[i];
        assert(instrument_ready(measures@[i as int], track_id));
        let base_tick = measure_start(measure);
        push_instrument_pairs(base_tick, measure.notes_for_track(track_id), channel, &mut events);
        i = i + 1;
        assert(measures@.take(i as int).drop_last() =~= measures@.take(i - 1));
    }
    assert(measures@.take(i as int) =~= measures@);
    let sorted = sort_timed_notes(&events);
    let mut track: Vec<MidiTrackEvent> = Vec::new();
    let name_bytes = vstd::slice::slice_to_vec(name.as_bytes());
    track.push(MidiTrackEvent { delta: 0, kind: MidiEventKind::TrackName(name_bytes) });
    to_delta_events(&sorted, &mut track);
    track.push(MidiTrackEvent { delta: 0, kind: MidiEventKind::EndOfTrack });
    assert(track@.subrange(1, track@.len() - 1) =~= delta_events(sorted@));
    track
}

/// The drum track: named "Drums", the snare and hi-hat hits on channel 9
/// sorted by tick (note-offs first at equal ticks) with delta times, and
/// the end-of-track.
pub fn build_drum_track(measures: &[Measure]) -> (track: Vec<MidiTrackEvent>)
    requires
        forall|i: int| 0 <= i < measures@.len() ==> drums_ready(#[trigger] measures@[i]),
    ensures
        is_named_track(track@, "Drums".spec_bytes(), delta_events(stable_sorted(drum_timed(measures@)))),
{
    let mut events: Vec<TimedNote> = Vec::new();
    let mut i: usize = 0;
    while i < measures.len()
        invariant
            i <= measures@.len(),
            forall|k: int| 0 <= k < measures@.len() ==> drums_ready(#[trigger] measures@[k]),
            events@ == drum_timed(measures@.take(i as int)),
        decreases measures.len() - i,
    {
        let measure = &measures[i];
        assert(drums_ready(measures@[i as int]));
        let base_tick = measure_start(measure);
        push_drum_pairs(base_tick, measure.notes_for_track(TrackId::Snare), GM_SNARE, &mut events);
        push_drum_pairs(base_tick, measure.notes_for_track(TrackId::Hat), GM_HIHAT, &mut events);
        i = i + 1;
        assert(measures@.take(i as int).drop_last() =~= measures@.take(i - 1));
    }
    assert(measures@.take(i as int) =~= measures@);
    let sorted = sort_timed_notes(&events);
    let mut track: Vec<MidiTrackEvent> = Vec::new();
    let name_bytes = vstd::slice::slice_to_vec("Drums".as_bytes());
    track.push(MidiTrackEvent { delta: 0, kind: MidiEventKind::TrackName(name_bytes) });
    to_delta_events(&sorted, &mut track);
    track.push(MidiTrackEvent { delta: 0, kind: MidiEventKind::EndOfTrack });
    assert(track@.subrange(1, track@.len() - 1) =~= delta_events(sorted@));
    track
}

/// Ticks from `from` up to `to`, or 0 when `to` is earlier.
pub open spec fn ticks_since(to: int, from: int) -> u32 {
    if to >= from { (to - from) as u32 } else { 0 }
}

/// The time signature event of a measure.
pub open spec fn time_signature_event(delta: u32, num: usize, denom: usize) -> MidiTrackEvent {
    MidiTrackEvent {
        delta,
        kind: MidiEventKind::TimeSignature(num as u8, denominator_power(denom), 24, 8),
    }
}

/// The tempo track's events and running state after the given measures:
/// the events so far, the tick of the last event, the last time signature
/// and the last tempo written.
pub open spec fn tempo_fold(ms: Seq<Measure>) -> (
    Seq<MidiTrackEvent>,
    int,
    Option<(usize, usize)>,
    Option<u32>,
)
    decreases ms.len(),
{
    if ms.len() == 0 {
        (Seq::empty(), 0, None, None)
    } else {
        let prev = tempo_fold(ms.drop_last());
        let m = ms.last();
        let start = measure_start_tick(m);
        let ts = (m.time_signature.numerator, m.time_signature.denominator);
        let after_ts = if prev.2 != Some(ts) {
            (
                prev.0.push(time_signature_event(ticks_since(start, prev.1), ts.0, ts.1)),
                start,
                Some(ts),
            )
        } else {
            (prev.0, prev.1, prev.2)
        };
        if prev.3 != Some(m.tempo_uspq) {
            (
                after_ts.0.push(
                    MidiTrackEvent {
                        delta: ticks_since(start, after_ts.1),
                        kind: MidiEventKind::Tempo(m.tempo_uspq),
                    },
                ),
                start,
                after_ts.2,
                Some(m.tempo_uspq),
            )
        } else {
            (after_ts.0, after_ts.1, after_ts.2, prev.3)
        }
    }
}

/// The tempo track: named "Tempo Map", a time signature event wherever the
/// time signature changes (and at the first measure), a tempo event
/// wherever the tempo changes (and at the first measure), and the
/// end-of-track.
pub fn build_tempo_track(measures: &[Measure]) -> (track: Vec<MidiTrackEvent>)
    requires
        forall|i: int| 0 <= i < measures@.len() ==> start_fits(#[trigger] measures@[i]),
    ensures
        is_named_track(track@, "Tempo Map".spec_bytes(), tempo_fold(measures@).0),
{
    let mut track: Vec<MidiTrackEvent> = Vec::new();
    let name_bytes = vstd::slice::slice_to_vec("Tempo Map".as_bytes());
    track.push(MidiTrackEvent { delta: 0, kind: MidiEventKind::TrackName(name_bytes) });
    let ghost head = track@;
    let mut current_tick: u32 = 0;
    let mut last_tempo: Option<u32> = None;
    let mut last_time_sig: Option<(usize, usize)> = None;
    let mut i: usize = 0;
    while i < measures.len()
        invariant
            i <= measures@.len(),
            forall|k: int| 0 <= k < measures@.len() ==> start_fits(#[trigger] measures@[k]),
            head.len() == 1,
            track@ == head + tempo_fold(measures@.take(i as int)).0,
            current_tick as int == tempo_fold(measures@.take(i as int)).1,
            last_time_sig == tempo_fold(measures@.take(i as int)).2,
            last_tempo == tempo_fold(measures@.take(i as int)).3,
        decreases measures.len() - i,
    {
        let measure = &measures[i];
        assert(start_fits(measures@[i as int]));
        assert(measures@.take(i + 1).drop_last() =~= measures@.take(i as int));
        let measure_start_tick = measure_start(measure);
        let ts = (measure.time_signature.numerator, measure.time_signature.denominator);
        let ts_changed = match last_time_sig {
            Some(prev) => prev.0 != ts.0 || prev.1 != ts.1,
            None => true,
        };
        if ts_changed {
            let delta = measure_start_tick.saturating_sub(current_tick);
            track.push(
                MidiTrackEvent {
                    delta,
                    kind: MidiEventKind::TimeSignature(
                        ts.0 as u8,
                        denom_to_power(ts.1),
                        24,
                        8,
                    ),
                },
            );
            current_tick = measure_start_tick;
            last_time_sig = Some(ts);
        }
        let tempo_changed = match last_tempo {
            Some(prev) => prev != measure.tempo_uspq,
            None => true,
        };
        if tempo_changed {
            let delta = measure_start_tick.saturating_sub(current_tick);
            track.push(
                MidiTrackEvent { delta, kind: MidiEventKind::Tempo(measure.tempo_uspq) },
            );
            current_tick = measure_start_tick;
            last_tempo = Some(measure.tempo_uspq);
        }
        i = i + 1;
        assert(track@ =~= head + tempo_fold(measures@.take(i as int)).0);
    }
    assert(measures@.take(i as int) =~= measures@);
    track.push(MidiTrackEvent { delta: 0, kind: MidiEventKind::EndOfTrack });
    assert(track@.subrange(1, track@.len() - 1) =~= tempo_fold(measures@).0);
    track
}

/// An event of the `midly` crate, carried opaquely from the event builders
/// below to the file writer.
#[verifier::external_type_specification]
#[verifier::external_body]
pub struct ExSmfTrackEvent<'a>(TrackEvent<'a>);

/// The bytes that `midly` writes for a Standard MIDI File of `tracks` in
/// parallel format at `ticks_per_quarter` ticks per quarter note.
pub uninterp spec fn smf_bytes(ticks_per_quarter: u16, tracks: Seq<Seq<MidiTrackEvent>>) -> Seq<
    u8,
>;

/// The tracks as sequences of events.
pub open spec fn track_seqs(tracks: Seq<Vec<MidiTrackEvent>>) -> Seq<Seq<MidiTrackEvent>> {
    tracks.map_values(|t: Vec<MidiTrackEvent>| t@)
}

/// A track-name event's name has at most 64 bytes.
pub open spec fn name_fits(e: MidiTrackEvent) -> bool {
    e.kind matches MidiEventKind::TrackName(v) ==> v@.len() <= 64
}

/// The most bytes `midly` writes for one event: a delta of at most four
/// bytes (a 28-bit variable-length number), then a status byte and two data
/// bytes for a note (fewer under running status), or 0xFF, the meta type,
/// a one-byte length (the name has at most 64 bytes) and the data for a
/// meta event.
pub open spec fn event_size_bound(e: MidiTrackEvent) -> int {
    4 + match e.kind {
        MidiEventKind::NoteOn { .. } => 3int,
        MidiEventKind::NoteOff { .. } => 3int,
        MidiEventKind::TrackName(v) => 3 + v@.len() as int,
        MidiEventKind::TimeSignature(..) => 7int,
        MidiEventKind::Tempo(_) => 6int,
        MidiEventKind::EndOfTrack => 3int,
    }
}

/// The most bytes `midly` writes for the events of a track.
pub open spec fn track_size_bound(s: Seq<MidiTrackEvent>) -> int
    decreases s.len(),
{
    if s.len() == 0 {
        0
    } else {
        track_size_bound(s.drop_last()) + event_size_bound(s.last())
    }
}

/// The tracks stay within what `midly` writes without error: at most 65535
/// tracks (its 16-bit track count), track names of at most 64 bytes (far
/// below its 256MB limit on one event), and no track whose events can take
/// more bytes than its 32-bit chunk length counts.
pub open spec fn smf_writable(tracks: Seq<Vec<MidiTrackEvent>>) -> bool {
    &&& tracks.len() <= 65535
    &&& forall|t: int|
        0 <= t < tracks.len() ==> {
            &&& track_size_bound((#[trigger] tracks[t])@) <= 0xFFFF_FFFF
            &&& forall|e: int|
                0 <= e < tracks[t]@.len() ==> name_fits(#[trigger] tracks[t]@[e])
        }
}

/// A track of events each taking at most `c` bytes after the first takes
/// at most the first's bound and `c` bytes per further event.
proof fn lemma_track_size_le(s: Seq<MidiTrackEvent>, c: int)
    requires
        s.len() >= 1,
        c >= 0,
        forall|i: int| 1 <= i < s.len() ==> event_size_bound(#[trigger] s[i]) <= c,
    ensures
        track_size_bound(s) <= event_size_bound(s[0]) + c * (s.len() - 1),
    decreases s.len(),
{
    if s.len() == 1 {
        assert(s.drop_last() =~= Seq::<MidiTrackEvent>::empty());
        assert(s.last() == s[0]);
        reveal_with_fuel(track_size_bound, 2);
        assert(c * (s.len() - 1) == 0) by (nonlinear_arith)
            requires
                s.len() == 1,
        ;
    } else {
        let t = s.drop_last();
        assert(t[0] == s[0]);
        assert forall|i: int| 1 <= i < t.len() implies event_size_bound(#[trigger] t[i]) <= c by {
            assert(t[i] == s[i]);
        }
        lemma_track_size_le(t, c);
        assert(event_size_bound(s[s.len() - 1]) <= c);
        assert(track_size_bound(s) == track_size_bound(t) + event_size_bound(s[s.len() - 1]));
        assert(c * (s.len() - 1) == c * (t.len() - 1) + c) by (nonlinear_arith)
            requires
                t.len() == s.len() - 1,
        ;
    }
}

/// The fourteen header bytes of a Standard MIDI File: "MThd", a header
/// length of 6, the parallel format (1), the track count and the ticks per
/// quarter note, big-endian.
pub open spec fn smf_header(track_count: int, ticks_per_quarter: int) -> Seq<u8> {
    seq![
        0x4Du8, 0x54, 0x68, 0x64, 0, 0, 0, 6, 0, 1,
        (track_count / 256) as u8, (track_count % 256) as u8,
        (ticks_per_quarter / 256) as u8, (ticks_per_quarter % 256) as u8,
    ]
}

/// The four bytes of `b` at `at`, read as a big-endian number.
pub open spec fn be_u32_at(b: Seq<u8>, at: int) -> int {
    b[at] as int * 0x100_0000 + b[at + 1] as int * 0x1_0000 + b[at + 2] as int * 0x100
        + b[at + 3] as int
}

/// From `at` on, `b` holds exactly `count` track chunks, one after the
/// other: each the bytes "MTrk", a big-endian 32-bit length, and that many
/// bytes of events.
pub open spec fn track_chunks_from(b: Seq<u8>, at: int, count: nat) -> bool
    decreases count,
{
    if count == 0 {
        at == b.len()
    } else {
        &&& 0 <= at
        &&& at + 8 <= b.len()
        &&& b.subrange(at, at + 4) == seq![0x4Du8, 0x54, 0x72, 0x6B]
        &&& track_chunks_from(b, at + 8 + be_u32_at(b, at + 4), (count - 1) as nat)
    }
}

/// `midly`'s note-on event: the delta masked to 28 bits, the channel to 4
/// bits, the key and velocity to 7 bits. Nothing is stated of the value,
/// which Verus cannot look into.
#[verifier::external_body]
fn smf_note_on(delta: u32, channel: u8, key: u8, vel: u8) -> TrackEvent<'static> {
    TrackEvent {
        delta: u28::new(delta),
        kind: TrackEventKind::Midi {
            channel: u4::new(channel),
            message: MidiMessage::NoteOn { key: u7::new(key), vel: u7::new(vel) },
        },
    }
}

/// `midly`'s note-off event, masked as the note-on. Nothing is stated of
/// the value.
#[verifier::external_body]
fn smf_note_off(delta: u32, channel: u8, key: u8, vel: u8) -> TrackEvent<'static> {
    TrackEvent {
        delta: u28::new(delta),
        kind: TrackEventKind::Midi {
            channel: u4::new(channel),
            message: MidiMessage::NoteOff { key: u7::new(key), vel: u7::new(vel) },
        },
    }
}

/// `midly`'s track-name meta event, borrowing the name bytes. Nothing is
/// stated of the value.
#[verifier::external_body]
fn smf_track_name<'a>(delta: u32, name: &'a [u8]) -> TrackEvent<'a> {
    TrackEvent { delta: u28::new(delta), kind: TrackEventKind::Meta(MetaMessage::TrackName(name)) }
}

/// `midly`'s time-signature meta event. Nothing is stated of the value.
#[verifier::external_body]
fn smf_time_signature(delta: u32, a: u8, b: u8, c: u8, d: u8) -> TrackEvent<'static> {
    TrackEvent {
        delta: u28::new(delta),
        kind: TrackEventKind::Meta(MetaMessage::TimeSignature(a, b, c, d)),
    }
}

/// `midly`'s tempo meta event, the tempo masked to 24 bits. Nothing is
/// stated of the value.
#[verifier::external_body]
fn smf_tempo(delta: u32, uspq: u32) -> TrackEvent<'static> {
    TrackEvent { delta: u28::new(delta), kind: TrackEventKind::Meta(MetaMessage::Tempo(u24::new(uspq))) }
}

/// `midly`'s end-of-track meta event. Nothing is stated of the value.
#[verifier::external_body]
fn smf_end_of_track(delta: u32) -> TrackEvent<'static> {
    TrackEvent { delta: u28::new(delta), kind: TrackEventKind::Meta(MetaMessage::EndOfTrack) }
}

/// The `midly` event of a track event.
fn to_smf_event<'a>(e: &'a MidiTrackEvent) -> TrackEvent<'a> {
    match &e.kind {
        MidiEventKind::NoteOn { channel, key, vel } => smf_note_on(e.delta, *channel, *key, *vel),
        MidiEventKind::NoteOff { channel, key, vel } => smf_note_off(e.delta, *channel, *key, *vel),
        MidiEventKind::TrackName(name) => smf_track_name(e.delta, name.as_slice()),
        MidiEventKind::TimeSignature(a, b, c, d) => smf_time_signature(e.delta, *a, *b, *c, *d),
        MidiEventKind::Tempo(t) => smf_tempo(e.delta, *t),
        MidiEventKind::EndOfTrack => smf_end_of_track(e.delta),
    }
}

/// Writes the tracks as a parallel-format Standard MIDI File with
/// `midly`'s `Smf::write_std` into a byte vector. The contract names the
/// bytes (`smf_bytes`), states the fourteen header bytes that `midly`
/// writes first (`Chunk::write_header`) and that one track chunk per track
/// follows, each "MTrk" and its 32-bit length before the encoded events
/// (`Chunk::write_to_vec`); the encoding of the events is left to the name. The `requires` keeps out the inputs on which `midly` reports an
/// error.
#[verifier::external_body]
fn write_smf(ticks_per_quarter: u16, tracks: &Vec<Vec<MidiTrackEvent>>) -> (bytes: Vec<u8>)
    requires
        ticks_per_quarter < 0x8000,
        smf_writable(tracks@),
    ensures
        bytes@ == smf_bytes(ticks_per_quarter, track_seqs(tracks@)),
        bytes@.len() >= 14,
        bytes@.subrange(0, 14) == smf_header(tracks@.len() as int, ticks_per_quarter as int),
        track_chunks_from(bytes@, 14, tracks@.len()),
{
    let mut smf = Smf::new(Header::new(Format::Parallel, Timing::Metrical(u15::new(ticks_per_quarter))));
    smf.tracks = tracks.iter().map(|t| t.iter().map(to_smf_event).collect()).collect();
    let mut bytes = Vec::new();
    smf.write_std(&mut bytes).unwrap();
    bytes
}

/// Every measure can be exported to every track without overflow.
pub open spec fn export_ready(ms: Seq<Measure>) -> bool {
    forall|i: int|
        0 <= i < ms.len() ==> {
            &&& instrument_ready(#[trigger] ms[i], TrackId::Bass)
            &&& instrument_ready(ms[i], TrackId::Lead)
            &&& drums_ready(ms[i])
        }
}

/// Number of notes of a track over all measures.
pub open spec fn track_note_count(ms: Seq<Measure>, t: TrackId) -> nat
    decreases ms.len(),
{
    if ms.len() == 0 {
        0
    } else {
        track_note_count(ms.drop_last(), t) + ms.last().track_notes(t).len()
    }
}

/// The timeline is small enough for every track to fit in a 4GB chunk at
/// the most bytes per event the file writer can take: the tempo track
/// takes at most 11 bytes for each of its (at most two per measure) events
/// and a note track 7 bytes for each of its two events per note, besides
/// the name (at most 71 bytes) and the end of the track (7 bytes).
pub open spec fn export_sized(ms: Seq<Measure>) -> bool {
    &&& ms.len() <= 195_225_782
    &&& track_note_count(ms, TrackId::Bass) <= 306_783_372
    &&& track_note_count(ms, TrackId::Lead) <= 306_783_372
    &&& track_note_count(ms, TrackId::Snare) + track_note_count(ms, TrackId::Hat) <= 306_783_372
}

/// The end-of-track event.
pub open spec fn end_of_track() -> MidiTrackEvent {
    MidiTrackEvent { delta: 0, kind: MidiEventKind::EndOfTrack }
}

/// The tracks exported for the measures `ms`: for no measure, a single
/// track holding only an end-of-track; otherwise the tempo track, the bass
/// track on channel 0, the lead track on channel 1 and the drum track.
pub open spec fn is_midi_export(tracks: Seq<Seq<MidiTrackEvent>>, ms: Seq<Measure>) -> bool {
    if ms.len() == 0 {
        tracks == seq![seq![end_of_track()]]
    } else {
        &&& tracks.len() == 4
        &&& is_named_track(tracks[0], "Tempo Map".spec_bytes(), tempo_fold(ms).0)
        &&& is_named_track(
            tracks[1],
            "Bass".spec_bytes(),
            delta_events(stable_sorted(instrument_timed(ms, TrackId::Bass, 0))),
        )
        &&& is_named_track(
            tracks[2],
            "Lead".spec_bytes(),
            delta_events(stable_sorted(instrument_timed(ms, TrackId::Lead, 1))),
        )
        &&& is_named_track(tracks[3], "Drums".spec_bytes(), delta_events(stable_sorted(drum_timed(ms))))
    }
}

proof fn lemma_instrument_pairs_len(base: int, notes: Seq<TimelineNote>, channel: u8)
    ensures
        instrument_pairs(base, notes, channel).len() == 2 * notes.len(),
    decreases notes.len(),
{
    if notes.len() > 0 {
        lemma_instrument_pairs_len(base, notes.drop_last(), channel);
    }
}

proof fn lemma_drum_pairs_len(base: int, notes: Seq<TimelineNote>, key: u8)
    ensures
        drum_pairs(base, notes, key).len() == 2 * notes.len(),
    decreases notes.len(),
{
    if notes.len() > 0 {
        lemma_drum_pairs_len(base, notes.drop_last(), key);
    }
}

proof fn lemma_instrument_timed_len(ms: Seq<Measure>, t: TrackId, channel: u8)
    ensures
        instrument_timed(ms, t, channel).len() == 2 * track_note_count(ms, t),
    decreases ms.len(),
{
    if ms.len() > 0 {
        lemma_instrument_timed_len(ms.drop_last(), t, channel);
        lemma_instrument_pairs_len(measure_start_tick(ms.last()), ms.last().track_notes(t), channel);
    }
}

proof fn lemma_drum_timed_len(ms: Seq<Measure>)
    ensures
        drum_timed(ms).len() == 2 * (track_note_count(ms, TrackId::Snare) + track_note_count(
            ms,
            TrackId::Hat,
        )),
    decreases ms.len(),
{
    if ms.len() > 0 {
        lemma_drum_timed_len(ms.drop_last());
        lemma_drum_pairs_len(
            measure_start_tick(ms.last()),
            ms.last().track_notes(TrackId::Snare),
            GM_SNARE,
        );
        lemma_drum_pairs_len(measure_start_tick(ms.last()), ms.last().track_notes(TrackId::Hat), GM_HIHAT);
    }
}

proof fn lemma_tempo_fold_len(ms: Seq<Measure>)
    ensures
        tempo_fold(ms).0.len() <= 2 * ms.len(),
        forall|e: int| 0 <= e < tempo_fold(ms).0.len() ==> name_fits(#[trigger] tempo_fold(ms).0[e]),
        forall|e: int|
            0 <= e < tempo_fold(ms).0.len() ==> event_size_bound(#[trigger] tempo_fold(ms).0[e]) <= 11,
    decreases ms.len(),
{
    if ms.len() > 0 {
        lemma_tempo_fold_len(ms.drop_last());
    }
}

proof fn lemma_ascii_name_len(s: &str, n: nat)
    requires
        is_ascii(s),
        s@.len() == n,
    ensures
        s.spec_bytes().len() == n,
{
    broadcast use is_ascii_spec_bytes;
}

/// The tracks of the MIDI export of a timeline.
pub fn timeline_to_midi_tracks(timeline: &ScoreTimeline) -> (tracks: Vec<Vec<MidiTrackEvent>>)
    requires
        export_ready(timeline.stored()),
    ensures
        is_midi_export(track_seqs(tracks@), timeline.stored()),
{
    let measures = timeline.measures();
    if measures.len() == 0 {
        let mut only: Vec<MidiTrackEvent> = Vec::new();
        only.push(MidiTrackEvent { delta: 0, kind: MidiEventKind::EndOfTrack });
        let mut tracks: Vec<Vec<MidiTrackEvent>> = Vec::new();
        tracks.push(only);
        assert(track_seqs(tracks@) =~= seq![seq![end_of_track()]]);
        return tracks;
    }
    let ms = measures.as_slice();
    let mut tracks: Vec<Vec<MidiTrackEvent>> = Vec::new();
    tracks.push(build_tempo_track(ms));
    tracks.push(build_instrument_track(ms, TrackId::Bass, 0, "Bass"));
    tracks.push(build_instrument_track(ms, TrackId::Lead, 1, "Lead"));
    tracks.push(build_drum_track(ms));
    tracks
}

/// A minimal MIDI file: one track holding only an end-of-track.
pub fn empty_midi() -> (bytes: Vec<u8>)
    ensures
        bytes@ == smf_bytes(TICKS_PER_QUARTER, seq![seq![end_of_track()]]),
        bytes@.len() >= 14,
        bytes@.subrange(0, 14) == smf_header(1, TICKS_PER_QUARTER as int),
        track_chunks_from(bytes@, 14, 1),
{
    let mut only: Vec<MidiTrackEvent> = Vec::new();
    only.push(MidiTrackEvent { delta: 0, kind: MidiEventKind::EndOfTrack });
    let mut tracks: Vec<Vec<MidiTrackEvent>> = Vec::new();
    tracks.push(only);
    assert(track_seqs(tracks@) =~= seq![seq![end_of_track()]]);
    assert(tracks@[0]@.drop_last() =~= Seq::<MidiTrackEvent>::empty());
    assert(track_size_bound(tracks@[0]@) == 7) by {
        reveal_with_fuel(track_size_bound, 2);
    }
    assert forall|e: int| 0 <= e < tracks@[0]@.len() implies name_fits(#[trigger] tracks@[0]@[e]) by {}
    write_smf(TICKS_PER_QUARTER, &tracks)
}

/// Converts a timeline to the bytes of a Type 1 Standard MIDI File at 480
/// ticks per quarter note: a single empty track for an empty timeline;
/// otherwise the tempo, bass, lead and drum tracks.
pub fn timeline_to_midi(timeline: &ScoreTimeline) -> (bytes: Vec<u8>)
    requires
        export_ready(timeline.stored()),
        export_sized(timeline.stored()),
    ensures
        exists|tracks: Seq<Seq<MidiTrackEvent>>|
            is_midi_export(tracks, timeline.stored()) && bytes@ == smf_bytes(
                TICKS_PER_QUARTER,
                tracks,
            ),
        bytes@.len() >= 14,
        bytes@.subrange(0, 14) == smf_header(
            if timeline.stored().len() == 0 { 1 } else { 4 },
            TICKS_PER_QUARTER as int,
        ),
        track_chunks_from(bytes@, 14, if timeline.stored().len() == 0 { 1 } else { 4 }),
{
    if timeline.is_empty() {
        let bytes = empty_midi();
        assert(is_midi_export(seq![seq![end_of_track()]], timeline.stored()));
        return bytes;
    }
    let tracks = timeline_to_midi_tracks(timeline);
    let ghost ms = timeline.stored();
    proof {
        lemma_tempo_fold_len(ms);
        lemma_instrument_timed_len(ms, TrackId::Bass, 0);
        lemma_instrument_timed_len(ms, TrackId::Lead, 1);
        lemma_drum_timed_len(ms);
        lemma_stable_sorted_is_sorted_permutation(instrument_timed(ms, TrackId::Bass, 0));
        lemma_stable_sorted_is_sorted_permutation(instrument_timed(ms, TrackId::Lead, 1));
        lemma_stable_sorted_is_sorted_permutation(drum_timed(ms));
        reveal_strlit("Tempo Map");
        reveal_strlit("Bass");
        reveal_strlit("Lead");
        reveal_strlit("Drums");
        lemma_ascii_name_len("Tempo Map", 9);
        lemma_ascii_name_len("Bass", 4);
        lemma_ascii_name_len("Lead", 4);
        lemma_ascii_name_len("Drums", 5);
        assert forall|t: int| 0 <= t < tracks@.len() implies {
            &&& track_size_bound((#[trigger] tracks@[t])@) <= 0xFFFF_FFFF
            &&& forall|e: int| 0 <= e < tracks@[t]@.len() ==> name_fits(#[trigger] tracks@[t]@[e])
        } by {
            let tr = tracks@[t]@;
            assert(tr == track_seqs(tracks@)[t]);
            assert forall|e: int| 0 <= e < tr.len() implies name_fits(#[trigger] tr[e]) by {
                if 1 <= e < tr.len() - 1 {
                    assert(tr[e] == tr.subrange(1, tr.len() - 1)[e - 1]);
                }
            }
            let c: int = if t == 0 { 11 } else { 7 };
            assert forall|i: int| 1 <= i < tr.len() implies event_size_bound(#[trigger] tr[i]) <= c by {
                if i < tr.len() - 1 {
                    assert(tr[i] == tr.subrange(1, tr.len() - 1)[i - 1]);
                }
            }
            lemma_track_size_le(tr, c);
            if t == 0 {
                assert(event_size_bound(tr[0]) == 16);
            } else if t == 3 {
                assert(event_size_bound(tr[0]) == 12);
            } else {
                assert(event_size_bound(tr[0]) == 11);
            }
            if t == 0 {
                assert(tr.len() - 1 <= 2 * ms.len() + 1);
                assert(11 * (tr.len() - 1) <= 11 * (2 * 195_225_782 + 1)) by (nonlinear_arith)
                    requires
                        tr.len() - 1 <= 2 * ms.len() + 1,
                        ms.len() <= 195_225_782,
                ;
            } else {
                let n: int = if t == 1 {
                    track_note_count(ms, TrackId::Bass) as int
                } else if t == 2 {
                    track_note_count(ms, TrackId::Lead) as int
                } else {
                    (track_note_count(ms, TrackId::Snare) + track_note_count(ms, TrackId::Hat)) as int
                };
                assert(tr.len() - 1 == 2 * n + 1);
                assert(n <= 306_783_372);
                assert(7 * (tr.len() - 1) <= 7 * (2 * 306_783_372 + 1)) by (nonlinear_arith)
                    requires
                        tr.len() - 1 == 2 * n + 1,
                        n <= 306_783_372,
                ;
            }
        }
    }
    write_smf(TICKS_PER_QUARTER, &tracks)
}

/// Whether the notes of a bass or lead track fit in 32-bit ticks from `base`.
fn instrument_track_fits(base: u64, notes: &Vec<TimelineNote>) -> (ok: bool)
    requires
        base <= u32::MAX,
    ensures
        ok == instrument_notes_fit(base as int, notes@),
{
    let mut i: usize = 0;
    while i < notes.len()
        invariant
            base <= u32::MAX,
            i <= notes@.len(),
            forall|j: int|
                0 <= j < i ==> note_on_tick(base as int, #[trigger] notes@[j]) + instrument_duration(
                    notes@[j],
                ) <= u32::MAX,
        decreases notes.len() - i,
    {
        let n = notes[i];
        let on = base + (n.start_step as u32) as u64 * 120;
        let len: u64 = if n.duration_steps == 0 {
            60
        } else {
            (n.duration_steps as u32) as u64 * 120
        };
        if on + len > 0xFFFF_FFFF {
            assert(!(note_on_tick(base as int, notes@[i as int]) + instrument_duration(notes@[i as int])
                <= u32::MAX));
            return false;
        }
        i = i + 1;
    }
    true
}

/// Whether the hits of a drum track fit in 32-bit ticks from `base`.
fn drum_track_fits(base: u64, notes: &Vec<TimelineNote>) -> (ok: bool)
    requires
        base <= u32::MAX,
    ensures
        ok == drum_notes_fit(base as int, notes@),
{
    let mut i: usize = 0;
    while i < notes.len()
        invariant
            base <= u32::MAX,
            i <= notes@.len(),
            forall|j: int| 0 <= j < i ==> note_on_tick(base as int, #[trigger] notes@[j]) + 120 <= u32::MAX,
        decreases notes.len() - i,
    {
        let n = notes[i];
        let on = base + (n.start_step as u32) as u64 * 120;
        if on + 120 > 0xFFFF_FFFF {
            assert(!(note_on_tick(base as int, notes@[i as int]) + 120 <= u32::MAX));
            return false;
        }
        i = i + 1;
    }
    true
}

/// Whether a measure exports without overflow on every track.
fn measure_exports(m: &Measure) -> (ok: bool)
    ensures
        ok == (instrument_ready(*m, TrackId::Bass) && instrument_ready(*m, TrackId::Lead)
            && drums_ready(*m)),
{
    if m.index < 1 {
        return false;
    }
    let a = ((m.index - 1) as u32) as u128;
    let b = (m.steps as u32) as u128;
    assert(a * b <= 0xFFFF_FFFF * 0xFFFF_FFFF) by (nonlinear_arith)
        requires
            a <= 0xFFFF_FFFF,
            b <= 0xFFFF_FFFF,
    ;
    let start = a * b * 120;
    if start > 0xFFFF_FFFF {
        return false;
    }
    let base = start as u64;
    instrument_track_fits(base, m.notes_for_track(TrackId::Bass)) && instrument_track_fits(
        base,
        m.notes_for_track(TrackId::Lead),
    ) && drum_track_fits(base, m.notes_for_track(TrackId::Snare)) && drum_track_fits(
        base,
        m.notes_for_track(TrackId::Hat),
    )
}

/// Whether a timeline can be exported: every measure fits in 32-bit ticks
/// and every track stays within the event limit of the file writer.
pub fn export_fits(timeline: &ScoreTimeline) -> (ok: bool)
    ensures
        ok == (export_ready(timeline.stored()) && export_sized(timeline.stored())),
{
    let ms = timeline.measures();
    let ghost s = ms@;
    if ms.len() > 195_225_782 {
        return false;
    }
    let mut bass: u128 = 0;
    let mut lead: u128 = 0;
    let mut drums: u128 = 0;
    let mut i: usize = 0;
    while i < ms.len()
        invariant
            s == ms@,
            s == timeline.stored(),
            s.len() <= 195_225_782,
            i <= s.len(),
            forall|j: int|
                0 <= j < i ==> {
                    &&& instrument_ready(#[trigger] s[j], TrackId::Bass)
                    &&& instrument_ready(s[j], TrackId::Lead)
                    &&& drums_ready(s[j])
                },
            bass == track_note_count(s.take(i as int), TrackId::Bass),
            lead == track_note_count(s.take(i as int), TrackId::Lead),
            drums == track_note_count(s.take(i as int), TrackId::Snare) + track_note_count(
                s.take(i as int),
                TrackId::Hat,
            ),
            bass <= 306_783_372,
            lead <= 306_783_372,
            drums <= 306_783_372,
        decreases s.len() - i,
    {
        let m = &ms[i];
        if !measure_exports(m) {
            proof {
                assert(s[i as int] == *m);
                if export_ready(s) {
                    assert(instrument_ready(s[i as int], TrackId::Bass) && instrument_ready(
                        s[i as int],
                        TrackId::Lead,
                    ) && drums_ready(s[i as int]));
                    assert(false);
                }
            }
            return false;
        }
        assert(s.take(i + 1).drop_last() =~= s.take(i as int));
        assert(s.take(i + 1).last() == s[i as int]);
        let nb = m.notes_for_track(TrackId::Bass).len() as u128;
        let nl = m.notes_for_track(TrackId::Lead).len() as u128;
        let nd = m.notes_for_track(TrackId::Snare).len() as u128 + m.notes_for_track(
            TrackId::Hat,
        ).len() as u128;
        if nb > 306_783_372 - bass || nl > 306_783_372 - lead || nd > 306_783_372 - drums {
            proof {
                assert(s[i as int] == *m);
                let t = s.take(i + 1);
                assert(track_note_count(t, TrackId::Bass) == bass + nb);
                assert(track_note_count(t, TrackId::Lead) == lead + nl);
                assert(track_note_count(t, TrackId::Snare) + track_note_count(t, TrackId::Hat)
                    == drums + nd);
                lemma_note_count_monotone(s, TrackId::Bass, i + 1);
                lemma_note_count_monotone(s, TrackId::Lead, i + 1);
                lemma_note_count_monotone(s, TrackId::Snare, i + 1);
                lemma_note_count_monotone(s, TrackId::Hat, i + 1);
                assert(s.take(s.len() as int) =~= s);
            }
            return false;
        }
        bass = bass + nb;
        lead = lead + nl;
        drums = drums + nd;
        i = i + 1;
    }
    assert(s.take(s.len() as int) =~= s);
    true
}

proof fn lemma_note_count_monotone(s: Seq<Measure>, t: TrackId, i: int)
    requires
        0 <= i <= s.len(),
    ensures
        track_note_count(s.take(i), t) <= track_note_count(s, t),
    decreases s.len() - i,
{
    if i < s.len() {
        lemma_note_count_monotone(s, t, i + 1);
        assert(s.take(i + 1).drop_last() =~= s.take(i));
    } else {
        assert(s.take(i) =~= s);
    }
}

/// Converts a timeline to a Standard MIDI File when it can be exported
/// (see `export_fits`); `None` otherwise.
pub fn try_timeline_to_midi(timeline: &ScoreTimeline) -> (bytes: Option<Vec<u8>>)
    ensures
        bytes is Some <==> (export_ready(timeline.stored()) && export_sized(timeline.stored())),
        bytes matches Some(b) ==> exists|tracks: Seq<Seq<MidiTrackEvent>>|
            is_midi_export(tracks, timeline.stored()) && b@ == smf_bytes(TICKS_PER_QUARTER, tracks),
        bytes matches Some(b) ==> b@.len() >= 14 && b@.subrange(0, 14) == smf_header(
            if timeline.stored().len() == 0 { 1 } else { 4 },
            TICKS_PER_QUARTER as int,
        ) && track_chunks_from(b@, 14, if timeline.stored().len() == 0 { 1 } else { 4 }),
{
    if export_fits(timeline) {
        Some(timeline_to_midi(timeline))
    } else {
        None
    }
}

} // verus!
