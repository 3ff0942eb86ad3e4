use harmonium::engine_control::{EngineAction, EngineCommand, EngineTransport, TransportParams};
use harmonium::transport::{buffer_chunks, shutdown_commands};
use harmonium::pages::find_page;
use harmonium::lookahead::lead_note_placements;
use harmonium::report::NoteSnapshot;
use harmonium::engine_control::{mute_edges, refill_end, regeneration_from, report_due, report_step, RecorderState};
use harmonium::harmony::HarmonyMode;
use harmonium::pages::{
    absorb_snapshots, buffered_measures, merge_snapshots, preview_end, publish_measure,
    regeneration_start, retain_before,
};
use harmonium::report::MeasureSnapshot;
use harmonium::session::{session_from_draws, session_key_from_seed, session_navigator, NaturalKey, SessionScale};
use harmonium::timeline::{Measure, TimeSignature};
use harmonium::transport::{PlaybackAction, PlaybackControl, RecordFormat, TransportCommand};

fn snapshot(index: usize, steps: usize) -> MeasureSnapshot {
    MeasureSnapshot {
        index,
        tempo_uspq: 500_000,
        time_sig_numerator: 4,
        time_sig_denominator: 4,
        steps,
        chord_name: "I".to_string(),
        chord_root_offset: 0,
        chord_is_minor: false,
        notes: Vec::new(),
        scale_guidance: None,
    }
}

fn off(channel: u8) -> PlaybackAction {
    PlaybackAction::AllNotesOff { channel }
}

#[test]
fn seek_stops_tracks_and_lands_on_bar_one_or_later() {
    let mut control = PlaybackControl::new();
    let actions = control.apply(TransportCommand::Seek(0));
    assert_eq!(actions, vec![off(0), off(1), off(2), off(3), PlaybackAction::SeekTo { bar: 1 }]);
    let actions = control.apply(TransportCommand::SeekPlayhead(12));
    assert_eq!(actions.last(), Some(&PlaybackAction::SeekTo { bar: 12 }));
}

#[test]
fn set_loop_wraps_to_start_bar() {
    let mut control = PlaybackControl::new();
    assert!(control.apply(TransportCommand::SetLoop { start_bar: 3, end_bar: 5 }).is_empty());
    assert_eq!(control.loop_region(), Some((3, 5)));
    assert_eq!(control.loop_restart(5), None);
    assert_eq!(control.loop_restart(6), Some(3));
    control.apply(TransportCommand::SetLoop { start_bar: 0, end_bar: 0 });
    assert_eq!(control.loop_region(), Some((1, 1)));
    control.apply(TransportCommand::ClearLoop);
    assert_eq!(control.loop_restart(100), None);
}

#[test]
fn muting_drops_note_ons_and_silences_newly_muted() {
    let mut control = PlaybackControl::new();
    assert_eq!(control.apply(TransportCommand::SetChannelMute { channel: 2, muted: true }), vec![off(2)]);
    assert!(!control.forwards_note_on(2));
    assert!(control.forwards_note_on(1));
    assert!(control.forwards_note_on(20));
    let actions = control.apply(TransportCommand::SetMutedChannels(vec![true, false, true, true]));
    // Channel 2 was already muted: only 0 and 3 are newly silenced.
    assert_eq!(actions, vec![off(0), off(3)]);
    assert!(!control.forwards_note_on(0));
    assert!(control.apply(TransportCommand::SetChannelMute { channel: 16, muted: true }).is_empty());
}

#[test]
fn output_mute_and_routing() {
    let mut control = PlaybackControl::new();
    assert_eq!(control.apply(TransportCommand::SetOutputMute(true)).len(), 4);
    assert!(control.output_muted());
    assert!(control.apply(TransportCommand::SetOutputMute(false)).is_empty());
    assert_eq!(
        control.apply(TransportCommand::SetChannelRoute { channel: 3, bank_id: 2 }),
        vec![PlaybackAction::SetChannelRoute { channel: 3, bank: 2 }]
    );
    assert!(control.apply(TransportCommand::SetChannelRoute { channel: 16, bank_id: 2 }).is_empty());
}

#[test]
fn recording_commands_toggle_formats() {
    let mut control = PlaybackControl::new();
    let actions = control.apply(TransportCommand::StartRecording(RecordFormat::MusicXml));
    assert_eq!(
        actions,
        vec![PlaybackAction::SendMusicalParams, PlaybackAction::StartRecording(RecordFormat::MusicXml)]
    );
    assert!(control.is_recording(RecordFormat::MusicXml));
    assert!(!control.is_recording(RecordFormat::Wav));
    control.apply(TransportCommand::StopRecording(RecordFormat::MusicXml));
    assert!(!control.is_recording(RecordFormat::MusicXml));
}

#[test]
fn recorder_sync_follows_wishes() {
    let mut rec = RecorderState { wav: false, midi: true, musicxml: false };
    let actions = rec.sync(true, false, true);
    assert_eq!(
        actions,
        vec![
            PlaybackAction::StartRecording(RecordFormat::Wav),
            PlaybackAction::StopRecording(RecordFormat::Midi),
            PlaybackAction::SendMusicalParams,
            PlaybackAction::StartRecording(RecordFormat::MusicXml),
        ]
    );
    assert!(rec.sync(true, false, true).is_empty());
}

#[test]
fn mute_edges_report_new_mutes_only() {
    let mut last = vec![false; 16];
    last[1] = true;
    let silenced = mute_edges(&[true, true, false, true], &mut last);
    assert_eq!(silenced, vec![0, 3]);
    assert_eq!(&last[..4], &[true, true, false, true]);
    assert!(mute_edges(&[true, true, false, true], &mut last).is_empty());
}

#[test]
fn control_pass_decisions() {
    assert_eq!(regeneration_from(5, true), 5);
    assert_eq!(regeneration_from(5, false), 6);
    assert_eq!(refill_end(3, 20), 11);
    assert_eq!(refill_end(3, 7), 7);
    assert_eq!(report_step(8, 16, 48), 24);
    assert_eq!(report_step(8, 16, 16), 8);
    assert_eq!(report_step(8, 0, 48), 8);
    assert!(report_due(4, false));
    assert!(!report_due(5, false));
    assert!(report_due(5, true));
}

#[test]
fn regeneration_points() {
    assert_eq!(regeneration_start(0), 1);
    assert_eq!(regeneration_start(7), 8);
    assert_eq!(preview_end(0, 4), 5);
    assert_eq!(preview_end(7, 4), 11);
}

#[test]
fn publishing_replaces_or_appends() {
    let mut pages = Vec::new();
    publish_measure(&mut pages, Measure::new(2, TimeSignature::default(), 500_000, 16));
    publish_measure(&mut pages, Measure::new(1, TimeSignature::default(), 500_000, 16));
    publish_measure(&mut pages, Measure::new(2, TimeSignature::default(), 400_000, 12));
    assert_eq!(pages.len(), 2);
    assert_eq!(pages[0].index, 2);
    assert_eq!(pages[0].steps, 12);
    retain_before(&mut pages, 2);
    assert_eq!(pages.len(), 1);
    assert_eq!(pages[0].index, 1);
}

#[test]
fn merged_buffer_is_sorted_unique_and_capped() {
    let mut buffer = vec![snapshot(3, 16), snapshot(1, 16)];
    merge_snapshots(&mut buffer, vec![snapshot(2, 16), snapshot(3, 12), snapshot(5, 16)]);
    let indices: Vec<usize> = buffer.iter().map(|m| m.index).collect();
    assert_eq!(indices, vec![1, 2, 3, 5]);
    // The earlier snapshot of bar 3 is kept.
    assert_eq!(buffer[2].steps, 16);

    let mut big = Vec::new();
    merge_snapshots(&mut big, (1..=300).rev().map(|i| snapshot(i, 16)).collect());
    assert_eq!(big.len(), 256);
    assert_eq!(big[0].index, 45);
    assert_eq!(big[255].index, 300);
}

#[test]
fn absorbed_snapshots_replace_by_bar() {
    let mut buffer = vec![snapshot(1, 16), snapshot(2, 16)];
    absorb_snapshots(&mut buffer, vec![snapshot(2, 12), snapshot(4, 16)]);
    let indices: Vec<usize> = buffer.iter().map(|m| m.index).collect();
    assert_eq!(indices, vec![1, 2, 4]);
    assert_eq!(buffer[1].steps, 12);
    let found = buffered_measures(&buffer, 2, 2);
    assert_eq!(found.len(), 1);
    assert_eq!(found[0].index, 2);
    assert_eq!(buffered_measures(&buffer, 1, 10).len(), 3);
}

#[test]
fn session_key_is_reproducible() {
    for seed in [0u64, 1, 42, 12345, u64::MAX] {
        let a = session_key_from_seed(seed);
        let b = session_key_from_seed(seed);
        assert_eq!(a, b);
        assert_eq!(a.key_pc, a.key.pitch_class());
        let nav = session_navigator(a);
        assert_eq!(nav.global_key_root(), a.key_pc);
    }
    assert_eq!(NaturalKey::G.pitch_class(), 7);
}

#[test]
fn harmony_mode_codes() {
    assert_eq!(HarmonyMode::from_code(0), HarmonyMode::Basic);
    assert_eq!(HarmonyMode::from_code(2), HarmonyMode::Chart);
    assert_eq!(HarmonyMode::from_code(9), HarmonyMode::Driver);
    for m in [HarmonyMode::Basic, HarmonyMode::Driver, HarmonyMode::Chart] {
        assert_eq!(HarmonyMode::from_code(m.code()), m);
    }
}

#[test]
fn buffers_are_chunked_at_step_boundaries() {
    // 10 frames, 3 frames into a 4-frame step.
    let (chunks, counter) = buffer_chunks(10, 3, 4);
    assert_eq!(chunks, vec![(1, true), (4, true), (4, true), (1, false)]);
    assert_eq!(counter, 1);
    let ticks = chunks.iter().filter(|c| c.1).count();
    assert_eq!(ticks, (3 + 10) / 4);
    assert_eq!(chunks.iter().map(|c| c.0).sum::<usize>(), 10);
    assert_eq!(buffer_chunks(0, 2, 4), (vec![], 2));
}

#[test]
fn shutdown_mutes_then_stops_recordings() {
    assert!(shutdown_commands(false, false, false).is_empty());
    let cmds = shutdown_commands(true, false, true);
    assert_eq!(cmds.len(), 18);
    assert!(matches!(cmds[0], TransportCommand::SetChannelMute { channel: 0, muted: true }));
    assert!(matches!(cmds[15], TransportCommand::SetChannelMute { channel: 15, muted: true }));
    assert!(matches!(cmds[16], TransportCommand::StopRecording(RecordFormat::Wav)));
    assert!(matches!(cmds[17], TransportCommand::StopRecording(RecordFormat::MusicXml)));
}

#[test]
fn pages_are_found_by_bar() {
    let mut pages = Vec::new();
    publish_measure(&mut pages, Measure::new(3, TimeSignature::default(), 500_000, 16));
    publish_measure(&mut pages, Measure::new(4, TimeSignature::default(), 500_000, 12));
    assert_eq!(find_page(&pages, 4).map(|m| m.steps), Some(12));
    assert!(find_page(&pages, 5).is_none());
}

#[test]
fn lead_notes_are_placed_on_the_beat_grid() {
    let mut m = snapshot(2, 16);
    m.notes.push(NoteSnapshot { track: 1, pitch: 64, start_step: 6, duration_steps: 2, velocity: 90 });
    m.notes.push(NoteSnapshot { track: 0, pitch: 36, start_step: 0, duration_steps: 4, velocity: 90 });
    let mut empty = snapshot(3, 0);
    empty.notes.push(NoteSnapshot { track: 1, pitch: 60, start_step: 0, duration_steps: 4, velocity: 90 });
    let placed = lead_note_placements(&[m, empty]);
    assert_eq!(placed.len(), 1);
    assert_eq!((placed[0].bar, placed[0].start_step, placed[0].ticks_per_beat, placed[0].beats), (2, 6, 4, 4));
}

#[test]
fn session_draws_pick_key_and_scale() {
    let s = session_from_draws(4, 1);
    assert_eq!(s.key, NaturalKey::G);
    assert_eq!(s.scale, SessionScale::PentatonicMajor);
    assert_eq!(s.key_pc, 7);
    assert_eq!(session_from_draws(0, 0).key_pc, 0);
    assert_eq!(session_from_draws(6, 0).key_pc, 11);
    // Different seeds reach different keys.
    let keys: std::collections::HashSet<u8> = (0..64u64).map(|seed| session_key_from_seed(seed).key_pc).collect();
    assert!(keys.len() > 1);
}

#[test]
fn engine_seek_playhead_requeues_written_bars() {
    let mut t = EngineTransport::new(vec![false; 16], vec![-1; 16], 2, 14);
    assert_eq!(t.writehead_lookahead(), 4);
    assert_eq!(t.key_root(), 2);
    let actions = t.apply(EngineCommand::SeekPlayhead(5), 9);
    assert_eq!(
        &actions[4..],
        &[
            EngineAction::SeekPlayhead { bar: 5 },
            EngineAction::DrainMeasures,
            EngineAction::RequeueBars { from: 5, to: 9 },
            EngineAction::SetWriteheadBar { bar: 9 },
        ]
    );
    let actions = t.apply(EngineCommand::Seek(0), 9);
    assert_eq!(actions.last(), Some(&EngineAction::DeterministicSeek { bar: 1 }));
}

#[test]
fn engine_new_seed_resets_to_bar_one() {
    let mut t = EngineTransport::new(vec![false; 16], vec![-1; 16], 8, 0);
    t.apply(EngineCommand::SetLoop { start_bar: 2, end_bar: 4 }, 1);
    assert_eq!(t.loop_restart(5), Some(2));
    let actions = t.apply(EngineCommand::SetSeed(42), 17);
    assert_eq!(actions[0], EngineAction::ApplySeed { seed: 42 });
    assert_eq!(actions.last(), Some(&EngineAction::DeterministicSeek { bar: 1 }));
    assert_eq!(t.loop_restart(5), None);
    assert_eq!(t.key_root(), session_key_from_seed(42).key_pc);
    t.apply(EngineCommand::SetKeyRoot(19), 17);
    assert_eq!(t.key_root(), 7);
    t.apply(EngineCommand::SetChannelMute { channel: 1, muted: true }, 17);
    assert!(!t.forwards_note_on(1));
    t.apply(EngineCommand::SetWriteheadLookahead(12), 17);
    assert_eq!(t.writehead_lookahead(), 12);
}

#[test]
fn reset_restores_defaults_and_rewinds() {
    let mut t = EngineTransport::new(vec![false; 16], vec![-1; 16], 8, 0);
    t.apply(EngineCommand::SetLoop { start_bar: 2, end_bar: 4 }, 1);
    t.apply(EngineCommand::SetChannelMute { channel: 1, muted: true }, 1);
    t.apply(EngineCommand::SetKeyRoot(7), 1);
    let defaults = TransportParams {
        muted_channels: vec![false; 16],
        channel_routing: vec![-1; 16],
        record_wav: false,
        record_midi: false,
        record_musicxml: false,
        key_root: 0,
    };
    let actions = t.apply(EngineCommand::Reset(defaults), 9);
    assert_eq!(
        actions,
        vec![
            EngineAction::ResetParams,
            EngineAction::DrainMeasures,
            EngineAction::ResetPlayhead,
            EngineAction::ResetWritehead,
        ]
    );
    assert_eq!(t.loop_restart(5), None);
    assert!(t.forwards_note_on(1));
    assert_eq!(t.key_root(), 0);
    assert_eq!(t.writehead_lookahead(), 8);
}
