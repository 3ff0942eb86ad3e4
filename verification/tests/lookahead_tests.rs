use harmonium::lookahead::{
    build_tempo_markings, chord_root_midi, current_cycle, get_scale_for_chord, note_name_to_pitch,
    parse_chord_name_to_info, pattern_bytes, poly_steps, TempoMarking,
};

#[test]
fn note_names_to_pitch_classes() {
    assert_eq!(note_name_to_pitch("C"), 0);
    assert_eq!(note_name_to_pitch("F#"), 6);
    assert_eq!(note_name_to_pitch("Bb"), 10);
    assert_eq!(note_name_to_pitch("Cb"), 11);
    assert_eq!(note_name_to_pitch("B#"), 0);
    assert_eq!(note_name_to_pitch(""), 0);
    assert_eq!(note_name_to_pitch("X"), 0);
}

#[test]
fn chord_names_split_into_root_and_quality() {
    let info = parse_chord_name_to_info("F#m7");
    assert_eq!(info.root, "F#");
    assert_eq!(info.quality, "m7");
    assert_eq!(info.display_name, "F#m7");
    assert!(info.bass.is_none());

    let info = parse_chord_name_to_info("Bbmaj7");
    assert_eq!((info.root.as_str(), info.quality.as_str()), ("Bb", "maj7"));

    let info = parse_chord_name_to_info("G");
    assert_eq!((info.root.as_str(), info.quality.as_str()), ("G", ""));

    let info = parse_chord_name_to_info("Cø7");
    assert_eq!((info.root.as_str(), info.quality.as_str()), ("C", "ø7"));
}

#[test]
fn unknown_chord_reads_as_c() {
    for name in ["", "?"] {
        let info = parse_chord_name_to_info(name);
        assert_eq!(info.root, "C");
        assert_eq!(info.quality, "");
        assert_eq!(info.display_name, "C");
    }
}

#[test]
fn chord_roots_in_middle_octave() {
    assert_eq!(chord_root_midi("Am"), 69);
    assert_eq!(chord_root_midi("Eb7"), 63);
    assert_eq!(chord_root_midi("?"), 60);
}

#[test]
fn scale_suggestions_follow_quality() {
    let s = get_scale_for_chord("Dm7").unwrap();
    assert_eq!(s.name, "D Dorian");
    assert_eq!(s.notes, vec![62, 64, 65, 67, 69, 71, 60]);

    let s = get_scale_for_chord("G7").unwrap();
    assert_eq!(s.name, "G Mixolydian");
    assert_eq!(s.notes, vec![67, 69, 71, 60, 62, 64, 65]);

    let s = get_scale_for_chord("Bm7b5").unwrap();
    assert_eq!(s.name, "B Locrian");
    assert_eq!(s.notes, vec![71, 60, 62, 64, 65, 67, 69]);

    let s = get_scale_for_chord("Cø").unwrap();
    assert_eq!(s.name, "C Locrian");

    let s = get_scale_for_chord("Cdim7").unwrap();
    assert_eq!(s.name, "C Diminished");
    assert_eq!(s.notes.len(), 8);

    let s = get_scale_for_chord("Fmaj7").unwrap();
    assert_eq!(s.name, "F Lydian");
    assert_eq!(s.notes, vec![65, 67, 69, 71, 60, 62, 64]);

    let s = get_scale_for_chord("C").unwrap();
    assert_eq!(s.name, "C Lydian");
}

#[test]
fn tempo_markings_only_on_changes() {
    let bars = vec![(5usize, 120u32), (6, 120), (7, 96), (8, 96), (9, 120)];
    let marks = build_tempo_markings(&bars, Some(120));
    assert_eq!(
        marks,
        vec![TempoMarking { bar: 7, bpm: 96 }, TempoMarking { bar: 9, bpm: 120 }]
    );
    let marks = build_tempo_markings(&bars, None);
    assert_eq!(marks[0], TempoMarking { bar: 5, bpm: 120 });
    assert_eq!(marks.len(), 3);
    assert!(build_tempo_markings(&vec![], Some(100)).is_empty());
}

#[test]
fn cycle_counts_progressions() {
    assert_eq!(current_cycle(9, 4), 3);
    assert_eq!(current_cycle(3, 4), 1);
    assert_eq!(current_cycle(9, 0), 1);
}

#[test]
fn pattern_bytes_mark_hits() {
    let pattern = [true, false, false, true, true];
    assert_eq!(pattern_bytes(&pattern, 4), vec![1, 0, 0, 1]);
    let long = vec![true; 300];
    assert_eq!(pattern_bytes(&long, 250).len(), 192);
}

#[test]
fn poly_steps_round_and_clamp() {
    assert_eq!(poly_steps(50), 48);
    assert_eq!(poly_steps(3), 16);
    assert_eq!(poly_steps(1000), 384);
    assert_eq!(poly_steps(64), 64);
}
