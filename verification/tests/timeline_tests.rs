use harmonium::timeline::{MusicalPosition, TrackId};

#[test]
fn test_musical_position_ordering() {
    let a = MusicalPosition::new(1, 1, 0);
    let b = MusicalPosition::new(1, 2, 0);
    let c = MusicalPosition::new(2, 1, 0);
    assert!(a < b);
    assert!(b < c);
}

#[test]
fn test_musical_position_step_in_bar() {
    let pos = MusicalPosition::new(1, 2, 1);
    assert_eq!(pos.step_in_bar(4), 5);
}

#[test]
fn test_musical_position_display() {
    let pos = MusicalPosition::new(3, 2, 1);
    assert_eq!(pos.display_string(), "3:2.1");
}

#[test]
fn test_track_id_channel() {
    assert_eq!(TrackId::Bass.channel(), 0);
    assert_eq!(TrackId::Lead.channel(), 1);
    assert_eq!(TrackId::Snare.channel(), 2);
    assert_eq!(TrackId::Hat.channel(), 3);
}

use harmonium::timeline::{Articulation, Measure, ScoreTimeline, TimeSignature, TimelineNote};

/// Tempo of 120 beats per minute, in microseconds per quarter note.
const USPQ_120: u32 = 500_000;

#[test]
fn test_measure_creation() {
    let measure = Measure::new(1, TimeSignature::default(), USPQ_120, 16);
    assert_eq!(measure.index, 1);
    assert_eq!(measure.steps, 16);
    assert_eq!(measure.total_notes(), 0);
    assert_eq!(measure.track_count(), 4);
}

#[test]
fn test_measure_add_note() {
    let mut measure = Measure::new(1, TimeSignature::default(), USPQ_120, 16);
    measure.add_note(
        TrackId::Bass,
        TimelineNote {
            id: 1,
            pitch: 36,
            start_step: 0,
            duration_steps: 1,
            velocity: 100,
            articulation: Articulation::Staccato,
        },
    );
    assert_eq!(measure.total_notes(), 1);
    assert_eq!(measure.notes_for_track(TrackId::Bass).len(), 1);
    assert_eq!(measure.notes_for_track(TrackId::Lead).len(), 0);
}

#[test]
fn test_score_timeline_push_and_get() {
    let mut timeline = ScoreTimeline::new(10);
    let measure = Measure::new(1, TimeSignature::default(), USPQ_120, 16);
    timeline.push_measure(measure);
    assert_eq!(timeline.len(), 1);
    assert!(timeline.get_measure(1).is_some());
    assert!(timeline.get_measure(2).is_none());
}

#[test]
fn test_score_timeline_sliding_window() {
    let mut timeline = ScoreTimeline::new(3);
    for i in 1..=5 {
        timeline.push_measure(Measure::new(i, TimeSignature::default(), USPQ_120, 16));
    }
    assert_eq!(timeline.len(), 3);
    assert_eq!(timeline.first_index(), Some(3));
    assert_eq!(timeline.last_index(), Some(5));
    assert!(timeline.get_measure(1).is_none());
    assert!(timeline.get_measure(3).is_some());
}

#[test]
fn test_score_timeline_invalidate() {
    let mut timeline = ScoreTimeline::new(10);
    for i in 1..=5 {
        timeline.push_measure(Measure::new(i, TimeSignature::default(), USPQ_120, 16));
    }
    timeline.invalidate_from(3);
    assert_eq!(timeline.len(), 2);
    assert_eq!(timeline.last_index(), Some(2));
}

#[test]
fn test_note_id_monotonic() {
    let mut timeline = ScoreTimeline::new(10);
    let id1 = timeline.next_note_id();
    let id2 = timeline.next_note_id();
    let id3 = timeline.next_note_id();
    assert_eq!(id1, 1);
    assert_eq!(id2, 2);
    assert_eq!(id3, 3);
}

#[test]
fn time_signature_default_is_four_four() {
    let ts = TimeSignature::default();
    assert_eq!((ts.numerator, ts.denominator), (4, 4));
}

#[test]
fn invalidate_keeps_earlier_measures_in_order() {
    let mut timeline = ScoreTimeline::new(10);
    for i in [4usize, 1, 7, 2] {
        timeline.push_measure(Measure::new(i, TimeSignature::default(), USPQ_120, 16));
    }
    timeline.invalidate_from(3);
    let kept: Vec<usize> = timeline.measures().iter().map(|m| m.index).collect();
    assert_eq!(kept, vec![1, 2]);
    assert!(timeline.contains_index(1));
    assert!(!timeline.contains_index(4));
}

#[test]
fn track_notes_come_back_sorted_by_start_step() {
    let mut measure = Measure::new(1, TimeSignature::default(), USPQ_120, 16);
    let at = |id: u64, start_step: usize| TimelineNote {
        id,
        pitch: 60,
        start_step,
        duration_steps: 1,
        velocity: 90,
        articulation: Articulation::Normal,
    };
    measure.add_note(TrackId::Lead, at(1, 8));
    measure.add_note(TrackId::Lead, at(2, 0));
    measure.add_note(TrackId::Lead, at(3, 8));
    measure.add_note(TrackId::Lead, at(4, 4));
    let order: Vec<(u64, usize)> =
        measure.notes_for_track(TrackId::Lead).iter().map(|n| (n.id, n.start_step)).collect();
    // Sorted by start step; notes starting together keep the order they came in.
    assert_eq!(order, vec![(2, 0), (4, 4), (1, 8), (3, 8)]);
    assert_eq!(measure.notes_for_track(TrackId::Bass).len(), 0);
}
