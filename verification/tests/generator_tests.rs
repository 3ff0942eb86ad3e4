use harmonium::chord::{Chord, ChordQuality, ChordType};
use harmonium::generator::{
    advance_chart, beat_accent, shaped_velocity,
    bass_note_duration, bass_pitch, calculate_lead_duration, chart_root_offset, chord_change_due,
    format_chord_name, hat_voice, lay_out_cell, next_chart_index, notation_safe_duration,
    quarter_fill, snare_voice, BassDegree,
};

#[test]
fn chord_names_are_roman_numerals() {
    assert_eq!(format_chord_name(0, ChordQuality::Major), "I");
    assert_eq!(format_chord_name(9, ChordQuality::Minor), "vim");
    assert_eq!(format_chord_name(7, ChordQuality::Dominant7), "V7");
    assert_eq!(format_chord_name(1, ChordQuality::Sus2), "?sus2");
}

#[test]
fn lead_durations_are_notation_safe() {
    let pattern = [true, false, false, false, false, true, false, false, false, false, false, false, true, false, false, false];
    // Five steps to the next lead trigger: clamped to a quarter.
    assert_eq!(calculate_lead_duration(0, 16, &pattern, false, 12), 4);
    // Seven steps: dotted quarter.
    assert_eq!(calculate_lead_duration(5, 16, &pattern, false, 12), 6);
    // At high tension the fill zone mutes the trigger at 12: to the bar's end.
    assert_eq!(calculate_lead_duration(5, 16, &pattern, true, 12), 8);
    for raw in 0..40 {
        let d = notation_safe_duration(raw);
        assert!([16, 12, 8, 6, 4, 3, 2, 1].contains(&d));
        if raw >= 1 {
            assert!(d <= raw);
        }
    }
}

#[test]
fn long_gaps_fill_with_quarters() {
    assert_eq!(quarter_fill(14), vec![4, 4, 4, 2]);
    assert_eq!(quarter_fill(12), vec![4, 4, 4]);
    assert!(quarter_fill(0).is_empty());
}

#[test]
fn cells_lay_out_inside_the_gap() {
    assert_eq!(lay_out_cell(4, 8, &[3, 3, 2]), vec![(4, 3), (7, 3), (10, 2)]);
    // A cell longer than the gap is cut at the gap's end.
    assert_eq!(lay_out_cell(0, 4, &[3, 3]), vec![(0, 3), (3, 1)]);
    assert_eq!(lay_out_cell(0, 2, &[4, 4]), vec![(0, 2)]);
}

#[test]
fn drum_voices() {
    assert_eq!(snare_voice(0, false, false, false), 38);
    assert_eq!(snare_voice(5, true, true, false), 37);
    assert_eq!(snare_voice(12, true, true, true), 41);
    assert_eq!(snare_voice(13, false, false, true), 45);
    assert_eq!(snare_voice(14, false, false, true), 50);
    assert_eq!(hat_voice(0, true, false, false, false), (49, true));
    assert_eq!(hat_voice(4, true, true, true, false), (51, false));
    assert_eq!(hat_voice(3, false, true, false, false), (46, false));
    assert_eq!(hat_voice(2, false, false, false, true), (44, false));
    assert_eq!(hat_voice(2, false, false, false, false), (42, false));
}

#[test]
fn bass_notes() {
    assert_eq!(bass_note_duration(true, false, 10), 4);
    assert_eq!(bass_note_duration(true, false, 3), 3);
    assert_eq!(bass_note_duration(false, true, 10), 1);
    assert_eq!(bass_note_duration(false, false, 1), 1);
    assert_eq!(bass_note_duration(false, false, 9), 2);
    assert_eq!(bass_pitch(0, false, BassDegree::Root), 36);
    assert_eq!(bass_pitch(9, true, BassDegree::Third), 48);
    assert_eq!(bass_pitch(7, false, BassDegree::Fifth), 50);
    assert_eq!(bass_pitch(-20, false, BassDegree::ApproachBelow), 28);
    assert_eq!(bass_pitch(40, false, BassDegree::ApproachAbove), 60);
}

#[test]
fn chart_stepping() {
    assert!(chord_change_due(8, 4));
    assert!(!chord_change_due(9, 4));
    assert!(chord_change_due(0, 0));
    assert!(!chord_change_due(3, 0));
    assert_eq!(chart_root_offset(2, 7), 7);
    assert_eq!(chart_root_offset(9, 0), 9);
    assert_eq!(next_chart_index(3, 4), 0);
    assert_eq!(next_chart_index(1, 4), 2);
}

#[test]
fn velocity_accents_and_limits() {
    assert_eq!(beat_accent(0, 4), 18);
    assert_eq!(beat_accent(4, 4), -8);
    assert_eq!(beat_accent(8, 4), 18);
    assert_eq!(beat_accent(5, 4), -20);
    assert_eq!(beat_accent(0, 0), -20);
    assert_eq!(shaped_velocity(80, 18, 10, 5, 0), 113);
    assert_eq!(shaped_velocity(120, 18, 10, 5, 0), 127);
    assert_eq!(shaped_velocity(10, -20, 0, 0, -5), 20);
}

#[test]
fn chart_advances_one_chord_every_k_bars() {
    // ii - V - I in C, a chord every two bars from bar 0.
    let chart = [
        Chord::new(2, ChordType::Minor7),
        Chord::new(7, ChordType::Dominant7),
        Chord::new(0, ChordType::Major7),
    ];
    let mut index = 0;
    let mut in_effect = Vec::new();
    let mut current = None;
    for bar in 0..8 {
        let (change, next) = advance_chart(&chart, index, bar, 2, 0);
        if let Some((chord, offset)) = change {
            assert_eq!(offset, chord.root as i32);
            current = Some(chord.root);
        }
        index = next;
        in_effect.push(current.unwrap());
        // The chord at bar n is chart[(n / k) % len].
        assert_eq!(current, Some(chart[(bar / 2) % 3].root));
    }
    assert_eq!(in_effect, vec![2, 2, 7, 7, 0, 0, 2, 2]);
    // Before bar 8, four changes (bars 0, 2, 4, 6): ((8 - 1) / 2 + 1) % 3.
    assert_eq!(index, 1);
    // A chart in G: the root is an offset above the key.
    let (change, next) = advance_chart(&chart, 1, 4, 4, 7);
    assert_eq!(change.map(|(c, o)| (c.root, o)), Some((7, 0)));
    assert_eq!(next, 2);
    // No change due, or an empty chart: nothing moves.
    assert_eq!(advance_chart(&chart, 1, 5, 4, 7), (None, 1));
    assert_eq!(advance_chart(&[], 0, 0, 4, 7), (None, 0));
}
