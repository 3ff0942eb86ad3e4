use harmonium::chord::ChordQuality;
use harmonium::melody::{weighted_sample, HarmonyNavigator, MotifDevelopment, PitchName, ScaleKind};
use rand::rngs::StdRng;
use rand::{Rng, SeedableRng};

fn c_pentatonic() -> HarmonyNavigator {
    HarmonyNavigator::new(PitchName::C, ScaleKind::PentatonicMajor, 4)
}

#[test]
fn test_weighted_steps_tonic_strong_beat() {
    let navigator = c_pentatonic();
    let (steps, weights) = navigator.get_weighted_steps(0, true);
    let stay_weight = steps.iter().position(|&s| s == 0).map_or(0, |i| weights[i]);
    let arpeggiate_weight: u32 = steps
        .iter()
        .enumerate()
        .filter(|&(_, &s)| s == 2 || s == 4)
        .map(|(i, _)| weights[i])
        .sum();
    assert!(arpeggiate_weight > stay_weight);
}

#[test]
fn test_weighted_steps_chord_tone() {
    let navigator = c_pentatonic();
    let (steps, weights) = navigator.get_weighted_steps(2, true);
    assert!(steps.contains(&0));
    assert!(steps.contains(&1) || steps.contains(&-1));
    assert!(steps.contains(&3) || steps.contains(&-3));
    assert!(weights.iter().sum::<u32>() == 100);
}

#[test]
fn test_probabilistic_movement_distribution() {
    let mut navigator = c_pentatonic();
    let mut rng = StdRng::seed_from_u64(2024);
    let mut movements = Vec::new();
    for _ in 0..100 {
        let prev_index = navigator.current_index();
        let ticket = (rng.gen::<f32>() * 100.0) as u64;
        navigator.next_note(false, ticket);
        movements.push(navigator.current_index() - prev_index);
    }
    let steps = movements.iter().filter(|&&m| m.abs() <= 1).count();
    let leaps = movements.iter().filter(|&&m| m.abs() >= 3).count();
    assert!(steps > 10, "Should still have some stepwise motion, got {steps}");
    assert!(leaps > 10, "Should have significant leaps for variety, got {leaps}");
}

#[test]
fn test_chord_context_changes_stability() {
    let mut navigator = c_pentatonic();
    navigator.set_chord_context(0, ChordQuality::Major);
    assert!(navigator.is_in_current_chord(0));
    navigator.set_chord_context(9, ChordQuality::Minor);
    assert!(navigator.is_in_current_chord(0));
    navigator.set_chord_context(5, ChordQuality::Major);
    let chord_notes = navigator.current_chord_notes();
    assert_eq!(chord_notes.len(), 4);
    assert!(chord_notes.contains(&5));
    assert!(chord_notes.contains(&9));
    assert!(chord_notes.contains(&0));
}

#[test]
fn test_chord_progression_cycle() {
    let mut navigator = c_pentatonic();
    let progression = [
        (0, ChordQuality::Major),
        (9, ChordQuality::Minor),
        (5, ChordQuality::Major),
        (7, ChordQuality::Major),
    ];
    for (root_offset, quality) in &progression {
        navigator.set_chord_context(*root_offset, *quality);
        assert_eq!(navigator.current_chord_notes().len(), 4);
        for &pc in navigator.current_chord_notes() {
            assert!(pc < 12);
        }
    }
}

#[test]
fn navigator_starts_on_tonic_major_seventh() {
    let navigator = HarmonyNavigator::new(PitchName::D, ScaleKind::Diatonic, 4);
    assert_eq!(navigator.global_key_root(), 2);
    assert_eq!(navigator.current_chord_notes(), &vec![2, 6, 9, 1]);
    assert_eq!(navigator.current_index(), 0);
    assert_eq!(navigator.octave(), 4);
    // The scale lists the octave note too: seven degrees plus the octave.
    assert_eq!(navigator.scale_len(), 8);
}

#[test]
fn sus2_context_has_three_notes() {
    let mut navigator = c_pentatonic();
    navigator.set_chord_context(2, ChordQuality::Sus2);
    assert_eq!(navigator.current_chord_notes(), &vec![2, 4, 9]);
    navigator.set_chord_context(11, ChordQuality::Diminished);
    assert_eq!(navigator.current_chord_notes(), &vec![11, 2, 5, 8]);
}

#[test]
fn weighted_sample_skips_zero_weights() {
    let items = [1, 2, 3];
    let weights = [0, 5, 5];
    assert_eq!(weighted_sample(&items, &weights, 0), 2);
    assert_eq!(weighted_sample(&items, &weights, 4), 2);
    assert_eq!(weighted_sample(&items, &weights, 5), 3);
    assert_eq!(weighted_sample(&items, &weights, 9), 3);
    // A ticket past the total falls back to the last candidate.
    assert_eq!(weighted_sample(&items, &weights, 10), 3);
}

#[test]
fn weighted_sample_degenerate_inputs() {
    assert_eq!(weighted_sample(&[], &[], 3), 0);
    assert_eq!(weighted_sample(&[7, 8], &[0, 0], 0), 7);
}

#[test]
fn midi_note_wraps_octaves() {
    // C pentatonic major from C4: C D E G A C (six notes, octave included).
    let mut navigator = c_pentatonic();
    assert_eq!(navigator.midi_note(), 60);
    navigator.step_toward(6, 10);
    assert_eq!(navigator.current_index(), 6);
    assert_eq!(navigator.midi_note(), 72);
    navigator.step_toward(-1, 10);
    assert_eq!(navigator.current_index(), -1);
    // Degree -1 is the last note (C5) one scale length down: C4.
    assert_eq!(navigator.midi_note(), 60);
    navigator.step_toward(-3, 10);
    // Degree -3 is the fourth note (G4) shifted down an octave: G3.
    assert_eq!(navigator.midi_note(), 55);
}

#[test]
fn step_toward_moves_at_most_max_step() {
    let mut navigator = c_pentatonic();
    navigator.step_toward(10, 3);
    assert_eq!(navigator.current_index(), 3);
    navigator.step_toward(2, 3);
    assert_eq!(navigator.current_index(), 2);
    navigator.step_toward(-20, 0);
    assert_eq!(navigator.current_index(), 2);
}

#[test]
fn apply_step_stays_within_three_octaves() {
    let mut navigator = c_pentatonic();
    navigator.apply_step(100);
    assert_eq!(navigator.current_index(), 18);
    navigator.apply_step(-100);
    assert_eq!(navigator.current_index(), -18);
}

#[test]
fn hybrid_gap_fill_turns_back_after_large_leap() {
    let mut navigator = c_pentatonic();
    navigator.apply_step(6);
    // A further leap of three or more upward becomes a step down.
    assert_eq!(navigator.finish_hybrid_step(4), -1);
    // A small step is kept.
    assert_eq!(navigator.finish_hybrid_step(2), 2);
}

#[test]
fn hybrid_run_is_broken_after_six_steps() {
    let mut navigator = c_pentatonic();
    navigator.apply_step(1);
    for _ in 0..5 {
        assert_eq!(navigator.finish_hybrid_step(1), 1);
    }
    assert_eq!(navigator.finish_hybrid_step(1), -1);
    // The run count restarted.
    assert_eq!(navigator.finish_hybrid_step(1), 1);
}

#[test]
fn markov_gap_fill_after_leap() {
    let mut navigator = c_pentatonic();
    navigator.apply_step(5);
    // From degree 5 (not the tonic), ticket 0 picks the table's first step,
    // which goes up: after a leap of five it becomes a step down.
    let before = navigator.current_index();
    navigator.next_note(false, 0);
    assert_eq!(navigator.current_index(), before - 1);
}

#[test]
fn structured_note_adds_chromatic_offset() {
    let mut navigator = c_pentatonic();
    let midi = navigator.finish_structured_note(1, 1);
    // Degree 1 is D4 (62), raised a semitone.
    assert_eq!(midi, 63);
    // The offset is spent: the next note sounds plain.
    assert_eq!(navigator.apply_step(0), 62);
}

#[test]
fn motif_is_recorded_then_developed() {
    let mut navigator = c_pentatonic();
    // Nothing recorded yet: nothing to replay.
    navigator.develop_motif(MotifDevelopment::Exact);
    assert_eq!(navigator.motif_step(), None);
    navigator.remember_step(2);
    navigator.remember_step(-1);
    navigator.remember_step(3);
    navigator.develop_motif(MotifDevelopment::Invert);
    assert_eq!(navigator.motif_step(), Some(-2));
    navigator.finish_structured_note(-2, 0);
    assert_eq!(navigator.motif_step(), Some(1));
    navigator.develop_motif(MotifDevelopment::Fragment);
    navigator.finish_structured_note(-2, 0);
    // Half of three intervals is one: the motif is exhausted after one.
    assert_eq!(navigator.motif_step(), None);
    navigator.develop_motif(MotifDevelopment::Embellish { perturbations: vec![1] });
    assert_eq!(navigator.motif_step(), Some(-1));
    navigator.develop_motif(MotifDevelopment::NewMaterial);
    assert_eq!(navigator.motif_step(), None);
}

#[test]
fn sequence_development_shifts_position() {
    let mut navigator = c_pentatonic();
    navigator.remember_step(1);
    navigator.develop_motif(MotifDevelopment::Sequence { shift: 2 });
    assert_eq!(navigator.current_index(), 2);
    assert_eq!(navigator.motif_step(), Some(1));
}

#[test]
fn register_jump_after_three_bars() {
    let mut navigator = c_pentatonic();
    assert!(!navigator.count_bar());
    assert!(!navigator.count_bar());
    assert!(navigator.count_bar());
    // Near the tonic the drawn direction decides.
    assert!(!navigator.jump_direction_is_forced());
    navigator.jump_register(false, true);
    assert_eq!(navigator.current_index(), 6);
    assert!(!navigator.count_bar());
    navigator.jump_register(true, true);
    assert_eq!(navigator.current_index(), 18);
    // Far above the tonic the jump goes down whatever was drawn.
    assert!(navigator.jump_direction_is_forced());
    navigator.jump_register(true, true);
    assert_eq!(navigator.current_index(), 6);
}

#[test]
fn scales_follow_their_interval_tables() {
    // D major from D4: D E F# G A B C# D, the octave included.
    let mut navigator = HarmonyNavigator::new(PitchName::D, ScaleKind::Diatonic, 4);
    let mut midi = Vec::new();
    for _ in 0..8 {
        midi.push(navigator.midi_note());
        navigator.step_toward(navigator.current_index() + 1, 1);
    }
    assert_eq!(midi, vec![62, 64, 66, 67, 69, 71, 73, 74]);
    // B flat blues from Bb3 wraps into the next octave.
    let navigator = HarmonyNavigator::new(PitchName::Bb, ScaleKind::Blues, 3);
    assert_eq!(navigator.midi_note(), 58);
    assert_eq!(navigator.global_key_root(), 10);
    assert_eq!(PitchName::Cb.pitch_class(), 11);
    assert_eq!(PitchName::Es.pitch_class(), 5);
}

#[test]
fn scale_climbs_and_repeats_only_at_the_seam() {
    // The scale list ends on the octave, so the step from its last note to
    // the next lap is the one step that keeps the pitch.
    let mut navigator = c_pentatonic();
    let mut midi = Vec::new();
    for _ in 0..13 {
        midi.push(navigator.midi_note());
        navigator.step_toward(navigator.current_index() + 1, 1);
    }
    assert_eq!(midi, vec![60, 62, 64, 67, 69, 72, 72, 74, 76, 79, 81, 84, 84]);
    for k in 0..12 {
        assert!(midi[k] <= midi[k + 1]);
        assert_eq!(midi[k] == midi[k + 1], (k + 1) % 6 == 0);
    }
}

#[test]
fn chromatic_offset_only_off_the_strong_beat() {
    assert_eq!(HarmonyNavigator::chromatic_offset(true, true, true), 0);
    assert_eq!(HarmonyNavigator::chromatic_offset(false, false, true), 0);
    assert_eq!(HarmonyNavigator::chromatic_offset(false, true, true), 1);
    assert_eq!(HarmonyNavigator::chromatic_offset(false, true, false), -1);
}
