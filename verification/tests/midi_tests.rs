use harmonium::midi_export::{export_fits, try_timeline_to_midi};
use harmonium::midi_export::{timeline_to_midi, GM_DRUM_CHANNEL, TICKS_PER_QUARTER};
use harmonium::timeline::{Articulation, Measure, ScoreTimeline, TimeSignature, TimelineNote, TrackId};
use midly::num::u15;
use midly::{Format, MetaMessage, MidiMessage, Smf, Timing, TrackEvent, TrackEventKind};

/// Tempo of 120 beats per minute, in microseconds per quarter note.
const USPQ_120: u32 = 500_000;

fn note(id: u64, pitch: u8, start_step: usize, duration_steps: usize, velocity: u8, articulation: Articulation) -> TimelineNote {
    TimelineNote { id, pitch, start_step, duration_steps, velocity, articulation }
}

fn make_test_timeline() -> ScoreTimeline {
    let mut timeline = ScoreTimeline::new(10);
    let mut measure = Measure::new(1, TimeSignature::new(4, 4), USPQ_120, 16);

    // Bass: root on beat 1 and 3
    measure.add_note(TrackId::Bass, note(1, 36, 0, 4, 100, Articulation::Normal));
    measure.add_note(TrackId::Bass, note(2, 43, 8, 4, 90, Articulation::Normal));

    // Lead: quarter note melody
    for (i, pitch) in [60u8, 64, 67, 72].iter().enumerate() {
        measure.add_note(TrackId::Lead, note(10 + i as u64, *pitch, i * 4, 4, 80, Articulation::Normal));
    }

    // Snare on beat 2 and 4
    measure.add_note(TrackId::Snare, note(20, 38, 4, 0, 100, Articulation::Trigger));
    measure.add_note(TrackId::Snare, note(21, 38, 12, 0, 100, Articulation::Trigger));

    // Hat on every beat
    for step in (0..16).step_by(4) {
        measure.add_note(TrackId::Hat, note(30 + step as u64 / 4, 42, step, 0, 70, Articulation::Trigger));
    }

    timeline.push_measure(measure);
    timeline
}

fn count_note_ons(track: &[TrackEvent]) -> usize {
    track
        .iter()
        .filter(|e| matches!(e.kind, TrackEventKind::Midi { message: MidiMessage::NoteOn { .. }, .. }))
        .count()
}

#[test]
fn test_empty_timeline_produces_valid_midi() {
    let timeline = ScoreTimeline::new(10);
    let bytes = timeline_to_midi(&timeline);
    assert!(!bytes.is_empty());
    // Should start with MIDI header "MThd"
    assert_eq!(&bytes[0..4], b"MThd");
}

#[test]
fn test_single_measure_roundtrip() {
    let timeline = make_test_timeline();
    let bytes = timeline_to_midi(&timeline);
    let smf = Smf::parse(&bytes).expect("generated MIDI should parse");
    // Should have 4 tracks: tempo + bass + lead + drums
    assert_eq!(smf.tracks.len(), 4);
    assert_eq!(smf.header.format, Format::Parallel);
    assert_eq!(smf.header.timing, Timing::Metrical(u15::new(TICKS_PER_QUARTER)));
}

#[test]
fn test_note_counts() {
    let timeline = make_test_timeline();
    let bytes = timeline_to_midi(&timeline);
    let smf = Smf::parse(&bytes).expect("generated MIDI should parse");
    assert_eq!(count_note_ons(&smf.tracks[1]), 2);
    assert_eq!(count_note_ons(&smf.tracks[2]), 4);
    assert_eq!(count_note_ons(&smf.tracks[3]), 6);
}

#[test]
fn test_tempo_meta_event() {
    let timeline = make_test_timeline();
    let bytes = timeline_to_midi(&timeline);
    let smf = Smf::parse(&bytes).expect("generated MIDI should parse");
    let has_tempo = smf.tracks[0]
        .iter()
        .any(|e| matches!(e.kind, TrackEventKind::Meta(MetaMessage::Tempo(t)) if t.as_int() == 500_000));
    assert!(has_tempo, "Expected tempo meta event for 120 BPM");
}

#[test]
fn test_time_signature_meta_event() {
    let timeline = make_test_timeline();
    let bytes = timeline_to_midi(&timeline);
    let smf = Smf::parse(&bytes).expect("generated MIDI should parse");
    let has_ts = smf.tracks[0]
        .iter()
        .any(|e| matches!(e.kind, TrackEventKind::Meta(MetaMessage::TimeSignature(4, 2, _, _))));
    assert!(has_ts, "Expected 4/4 time signature");
}

#[test]
fn test_drum_channel() {
    let timeline = make_test_timeline();
    let bytes = timeline_to_midi(&timeline);
    let smf = Smf::parse(&bytes).expect("generated MIDI should parse");
    for event in &smf.tracks[3] {
        if let TrackEventKind::Midi { channel, .. } = event.kind {
            assert_eq!(channel.as_int(), GM_DRUM_CHANNEL, "Drum events should be on channel 9");
        }
    }
}

#[test]
fn test_multi_measure() {
    let mut timeline = ScoreTimeline::new(10);
    for i in 1..=4 {
        let mut measure = Measure::new(i, TimeSignature::new(4, 4), USPQ_120, 16);
        measure.add_note(TrackId::Lead, note(i as u64, 60, 0, 4, 80, Articulation::Normal));
        timeline.push_measure(measure);
    }
    let bytes = timeline_to_midi(&timeline);
    let smf = Smf::parse(&bytes).expect("generated MIDI should parse");
    assert_eq!(count_note_ons(&smf.tracks[2]), 4);
}

#[test]
fn midi_note_on_ticks_follow_steps_and_measures() {
    let mut timeline = ScoreTimeline::new(10);
    for i in 1..=2 {
        let mut measure = Measure::new(i, TimeSignature::new(4, 4), USPQ_120, 16);
        measure.add_note(TrackId::Lead, note(i as u64, 60, 4, 2, 80, Articulation::Normal));
        timeline.push_measure(measure);
    }
    let bytes = timeline_to_midi(&timeline);
    let smf = Smf::parse(&bytes).expect("generated MIDI should parse");
    // Absolute ticks of the note-ons: step 4 of bar 1 and of bar 2, at 120 ticks a step.
    let mut tick = 0u32;
    let mut on_ticks = Vec::new();
    for e in &smf.tracks[2] {
        tick += e.delta.as_int();
        if matches!(e.kind, TrackEventKind::Midi { message: MidiMessage::NoteOn { .. }, .. }) {
            on_ticks.push(tick);
        }
    }
    assert_eq!(on_ticks, vec![480, 1920 + 480]);
}

#[test]
fn midi_three_four_time_signature() {
    let mut timeline = ScoreTimeline::new(10);
    timeline.push_measure(Measure::new(1, TimeSignature::new(3, 4), USPQ_120, 12));
    let bytes = timeline_to_midi(&timeline);
    let smf = Smf::parse(&bytes).expect("generated MIDI should parse");
    let has_ts = smf.tracks[0]
        .iter()
        .any(|e| matches!(e.kind, TrackEventKind::Meta(MetaMessage::TimeSignature(3, 2, _, _))));
    assert!(has_ts);
}

#[test]
fn export_refuses_measures_before_bar_one() {
    let mut timeline = ScoreTimeline::new(10);
    timeline.push_measure(Measure::new(0, TimeSignature::new(4, 4), USPQ_120, 16));
    assert!(!export_fits(&timeline));
    assert!(try_timeline_to_midi(&timeline).is_none());
    let ok = make_test_timeline();
    assert!(export_fits(&ok));
    assert_eq!(try_timeline_to_midi(&ok), Some(timeline_to_midi(&ok)));
}

fn chunk_lengths(bytes: &[u8]) -> Vec<usize> {
    let mut at = 14;
    let mut lengths = Vec::new();
    while at < bytes.len() {
        assert_eq!(&bytes[at..at + 4], b"MTrk");
        let len = u32::from_be_bytes([bytes[at + 4], bytes[at + 5], bytes[at + 6], bytes[at + 7]]) as usize;
        lengths.push(len);
        at += 8 + len;
    }
    assert_eq!(at, bytes.len());
    lengths
}

#[test]
fn midi_file_is_header_then_one_chunk_per_track() {
    let bytes = timeline_to_midi(&make_test_timeline());
    assert_eq!(&bytes[0..4], b"MThd");
    assert_eq!(&bytes[10..12], &[0, 4]);
    assert_eq!(chunk_lengths(&bytes).len(), 4);
    let empty = timeline_to_midi(&ScoreTimeline::new(4));
    assert_eq!(chunk_lengths(&empty), vec![4]);
    let smf = Smf::parse(&empty).expect("empty MIDI should parse");
    assert_eq!(smf.tracks.len(), 1);
}
