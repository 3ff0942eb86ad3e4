use harmonium::playback::{LiveMidiEvent, MONITOR_CHANNEL};
use harmonium::report::{flatten_note_events, NoteEvent};
use harmonium::rhythm::{RhythmMode, RhythmSettings, SecondaryRhythm};
use harmonium::transport::{live_midi_action, PlaybackAction};

#[test]
fn rhythm_mode_codes() {
    assert_eq!(RhythmMode::from_code(1), RhythmMode::PerfectBalance);
    assert_eq!(RhythmMode::from_code(2), RhythmMode::ClassicGroove);
    assert_eq!(RhythmMode::from_code(7), RhythmMode::Euclidean);
    for m in [RhythmMode::Euclidean, RhythmMode::PerfectBalance, RhythmMode::ClassicGroove] {
        assert_eq!(RhythmMode::from_code(m.code()), m);
    }
}

#[test]
fn rhythm_requests_are_held_in_range() {
    let s = RhythmSettings::from_request(1, 50, 0, 3, 40, 99, 2);
    assert_eq!(s.mode, RhythmMode::PerfectBalance);
    assert_eq!(s.steps, 48);
    assert_eq!(s.pulses, 1);
    assert_eq!(s.rotation, 3);
    assert_eq!(s.secondary, SecondaryRhythm { steps: 32, pulses: 32, rotation: 2 });
    assert_eq!(RhythmSettings::from_request(0, 7, 40, 0, 1, 1, 0).steps, 16);
}

#[test]
fn secondary_rhythm_updates_one_field() {
    let cur = SecondaryRhythm::current_or_default(None);
    assert_eq!(cur, SecondaryRhythm { steps: 12, pulses: 3, rotation: 0 });
    assert_eq!(cur.with_steps(2), SecondaryRhythm { steps: 4, pulses: 3, rotation: 0 });
    assert_eq!(cur.with_pulses(0).pulses, 1);
    assert_eq!(cur.with_rotation(5).rotation, 5);
}

#[test]
fn live_keys_play_on_the_monitor_channel() {
    let on = live_midi_action(LiveMidiEvent { on: true, note: 60, velocity: 100 });
    assert_eq!(on, PlaybackAction::NoteOn { channel: MONITOR_CHANNEL, note: 60, velocity: 100 });
    let off = live_midi_action(LiveMidiEvent { on: false, note: 60, velocity: 0 });
    assert_eq!(off, PlaybackAction::NoteOff { channel: 8, note: 60 });
}

#[test]
fn note_events_flatten_to_quadruples() {
    let notes = [
        NoteEvent { note_midi: 60, velocity: 90, channel: 1, is_note_on: true },
        NoteEvent { note_midi: 36, velocity: 0, channel: 0, is_note_on: false },
    ];
    assert_eq!(flatten_note_events(&notes), vec![60, 1, 0, 90, 36, 0, 0, 0]);
}
