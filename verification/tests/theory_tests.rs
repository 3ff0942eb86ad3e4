use harmonium::chord::{Chord, ChordType};
use harmonium::lydian_chromatic::{LccLevel, LydianChromaticConcept};

#[test]
fn test_parent_lydian_major() {
    let lcc = LydianChromaticConcept::new();

    // C Major -> C Lydian
    let c_maj = Chord::new(0, ChordType::Major);
    assert_eq!(lcc.parent_lydian(&c_maj), 0);

    // G Major -> G Lydian
    let g_maj = Chord::new(7, ChordType::Major);
    assert_eq!(lcc.parent_lydian(&g_maj), 7);
}

#[test]
fn test_parent_lydian_minor() {
    let lcc = LydianChromaticConcept::new();

    let a_min = Chord::new(9, ChordType::Minor);
    assert_eq!(lcc.parent_lydian(&a_min), 6);

    let c_min = Chord::new(0, ChordType::Minor);
    assert_eq!(lcc.parent_lydian(&c_min), 9);
}

#[test]
fn test_get_scale_lydian() {
    let lcc = LydianChromaticConcept::new();
    let c_lydian = lcc.get_scale(0, LccLevel::Lydian);
    assert_eq!(c_lydian, vec![0, 2, 4, 6, 7, 9, 11]);
}

#[test]
fn test_get_scale_whole_tone() {
    let lcc = LydianChromaticConcept::new();
    let c_whole_tone = lcc.get_scale(0, LccLevel::AuxiliaryAugmented);
    assert_eq!(c_whole_tone, vec![0, 2, 4, 6, 8, 10]);
}

#[test]
fn test_get_scale_chromatic() {
    let lcc = LydianChromaticConcept::new();
    let chromatic = lcc.get_scale(0, LccLevel::Chromatic);
    assert_eq!(chromatic.len(), 12);
    assert_eq!(chromatic, vec![0, 1, 2, 3, 4, 5, 6, 7, 8, 9, 10, 11]);
}

#[test]
fn test_is_valid_note() {
    let lcc = LydianChromaticConcept::new();
    let c_maj = Chord::new(0, ChordType::Major);
    // Lowest tension selects the Lydian level: F# is in C Lydian, F is not.
    assert!(lcc.is_valid_note_at_level(6, &c_maj, LccLevel::Lydian));
    assert!(!lcc.is_valid_note_at_level(5, &c_maj, LccLevel::Lydian));
    // Highest tension selects the chromatic level: everything is valid.
    assert!(lcc.is_valid_note_at_level(5, &c_maj, LccLevel::Chromatic));
}

#[test]
fn test_scale_guidance_cmaj_low_tension() {
    let lcc = LydianChromaticConcept::new();
    let c_maj = Chord::new(0, ChordType::Major);
    let g = lcc.scale_guidance_at_level(&c_maj, "I".to_string(), LccLevel::Lydian);
    assert_eq!(g.chord_symbol, "I");
    assert_eq!(g.chord_root, 0);
    assert_eq!(g.chord_tones, vec![0, 4, 7]);
    assert_eq!(g.scale_name, "Lydian");
    assert_eq!(g.lcc_level, 1);
    assert_eq!(g.scale_notes, vec![0, 2, 4, 6, 7, 9, 11]);
}

#[test]
fn test_scale_guidance_minor_uses_parent_lydian() {
    let lcc = LydianChromaticConcept::new();
    let dm7 = Chord::new(2, ChordType::Minor7);
    let g = lcc.scale_guidance_at_level(&dm7, "ii".to_string(), LccLevel::Lydian);
    assert_eq!(g.chord_root, 2);
    assert_eq!(g.chord_tones, dm7.pitch_classes());
    assert_eq!(g.lcc_level, 1);
    let parent = (2 + 9) % 12;
    assert_eq!(g.scale_notes, lcc.get_scale(parent, LccLevel::Lydian));
}

#[test]
fn level_numbers_round_trip() {
    for v in 1..=12u8 {
        assert_eq!(LccLevel::from_u8(v).map(|l| l.value()), Some(v));
    }
    assert_eq!(LccLevel::from_u8(0), None);
    assert_eq!(LccLevel::from_u8(13), None);
    assert_eq!(LccLevel::from_u8(12).map(|l| l.name()), Some("Chromatic"));
}

#[test]
fn filter_notes_keeps_scale_members_in_order() {
    let lcc = LydianChromaticConcept::new();
    let c_maj = Chord::new(0, ChordType::Major);
    let kept = lcc.filter_notes_at_level(&[0, 1, 5, 6, 11, 6], &c_maj, LccLevel::Lydian);
    assert_eq!(kept, vec![0, 6, 11, 6]);
}
