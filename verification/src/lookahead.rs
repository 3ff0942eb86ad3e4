//! Reading ahead for a practising player: chord names split into root and
//! quality, note names turned into pitch classes, the improvisation scale
//! suggested for a chord, and the tempo changes over upcoming bars.

use vstd::prelude::*;
use vstd::string::*;
use crate::report::{MeasureSnapshot, NoteSnapshot};

verus! {

/// A chord name split into its root and its quality.
pub struct ChordInfo {
    pub root: String,
    pub quality: String,
    pub display_name: String,
    pub bass: Option<String>,
}

/// A scale suggested for improvising over a chord.
pub struct ScaleSuggestionData {
    /// Root and scale name, as in "D Dorian"
    pub name: String,
    /// MIDI notes of the scale in the octave from middle C
    pub notes: Vec<u8>,
}

/// A tempo change: from bar `bar` on, `bpm` beats per minute.
#[derive(Clone, Copy, Debug, PartialEq, Eq, Structural)]
pub struct TempoMarking {
    pub bar: u32,
    pub bpm: u32,
}

/// The pitch class of a natural note letter (C for anything else).
pub open spec fn letter_pitch(c: char) -> int {
    if c == 'C' {
        0
    } else if c == 'D' {
        2
    } else if c == 'E' {
        4
    } else if c == 'F' {
        5
    } else if c == 'G' {
        7
    } else if c == 'A' {
        9
    } else if c == 'B' {
        11
    } else {
        0
    }
}

/// The pitch class of a note name: its letter, raised by a sharp or (when
/// there is no sharp) lowered by a flat anywhere in the name.
pub open spec fn name_pitch(name: Seq<char>) -> int {
    let base = if name.len() == 0 {
        0
    } else {
        letter_pitch(name[0])
    };
    let modifier = if name.contains('#') {
        1int
    } else if name.contains('b') {
        11int
    } else {
        0int
    };
    (base + modifier) % 12
}

/// Whether `pat` occurs in `s` as a run of consecutive characters.
pub open spec fn has_infix(s: Seq<char>, pat: Seq<char>) -> bool {
    exists|i: int| 0 <= i <= s.len() - pat.len() && #[trigger] s.subrange(i, i + pat.len()) == pat
}

/// The length of the root of a chord name: the letter, with a following
/// sharp or flat.
pub open spec fn root_len(name: Seq<char>) -> int {
    if name.len() > 1 && (name[1] == '#' || name[1] == 'b') {
        2
    } else {
        1
    }
}

/// Whether a chord name stands for no chord (empty or a question mark).
pub open spec fn no_chord(name: Seq<char>) -> bool {
    name.len() == 0 || name == seq!['?']
}

/// Whether a chord name can be split: it is empty or starts with an ASCII
/// character (the split is made on bytes).
pub open spec fn splittable(name: Seq<char>) -> bool {
    name.len() == 0 || (name[0] as u32) < 128
}

/// The root of a chord name, "C" for no chord.
pub open spec fn chord_root(name: Seq<char>) -> Seq<char> {
    if no_chord(name) {
        seq!['C']
    } else {
        name.take(root_len(name))
    }
}

/// The quality of a chord name: what follows the root.
pub open spec fn chord_quality(name: Seq<char>) -> Seq<char> {
    if no_chord(name) {
        Seq::empty()
    } else {
        name.skip(root_len(name))
    }
}

/// The scale suggested for a chord quality, with its intervals from the
/// root: half-diminished gives Locrian, diminished gives the diminished
/// scale, major gives Lydian, minor gives Dorian, a seventh gives
/// Mixolydian, and anything else Lydian.
pub open spec fn suggested_scale(quality: Seq<char>) -> (Seq<char>, Seq<int>) {
    if has_infix(quality, seq!['m', '7', 'b', '5']) || has_infix(quality, seq!['ø']) {
        (seq!['L', 'o', 'c', 'r', 'i', 'a', 'n'], seq![0int, 1, 3, 5, 6, 8, 10])
    } else if has_infix(quality, seq!['d', 'i', 'm']) {
        (
            seq!['D', 'i', 'm', 'i', 'n', 'i', 's', 'h', 'e', 'd'],
            seq![0int, 2, 3, 5, 6, 8, 9, 11],
        )
    } else if has_infix(quality, seq!['m', 'a', 'j']) {
        (seq!['L', 'y', 'd', 'i', 'a', 'n'], seq![0int, 2, 4, 6, 7, 9, 11])
    } else if (quality.len() > 0 && quality[0] == 'm') || has_infix(quality, seq!['m', 'i', 'n']) {
        (seq!['D', 'o', 'r', 'i', 'a', 'n'], seq![0int, 2, 3, 5, 7, 9, 10])
    } else if quality.contains('7') {
        (seq!['M', 'i', 'x', 'o', 'l', 'y', 'd', 'i', 'a', 'n'], seq![0int, 2, 4, 5, 7, 9, 10])
    } else {
        (seq!['L', 'y', 'd', 'i', 'a', 'n'], seq![0int, 2, 4, 6, 7, 9, 11])
    }
}

/// Whether `c` occurs in `s`.
fn has_char(s: &str, c: char) -> (found: bool)
    ensures
        found == s@.contains(c),
{
    let n = s.unicode_len();
    let mut i: usize = 0;
    while i < n
        invariant
            n == s@.len(),
            i <= n,
            forall|j: int| 0 <= j < i ==> s@[j] != c,
        decreases n - i,
    {
        if s.get_char(i) == c {
            assert(s@[i as int] == c);
            return true;
        }
        i = i + 1;
    }
    false
}

/// Whether `pat` occurs in `s` as a run of consecutive characters.
fn contains_str(s: &str, pat: &str) -> (found: bool)
    ensures
        found == has_infix(s@, pat@),
{
    let n = s.unicode_len();
    let m = pat.unicode_len();
    if m > n {
        assert forall|i: int| 0 <= i <= n - m implies #[trigger] s@.subrange(i, i + m) != pat@ by {}
        return false;
    }
    let mut i: usize = 0;
    while i <= n - m
        invariant
            n == s@.len(),
            m == pat@.len(),
            m <= n,
            i <= n - m + 1,
            forall|k: int| 0 <= k < i ==> #[trigger] s@.subrange(k, k + m) != pat@,
        decreases n - m + 1 - i,
    {
        let mut j: usize = 0;
        let mut matched = true;
        while matched && j < m
            invariant
                n == s@.len(),
                m == pat@.len(),
                i + m <= n,
                j <= m,
                forall|t: int| 0 <= t < j ==> s@[i + t] == pat@[t],
                !matched ==> j < m && s@[i + j] != pat@[j as int],
            decreases m - j + (if matched {
                1int
            } else {
                0int
            }),
        {
            if s.get_char(i + j) != pat.get_char(j) {
                matched = false;
            } else {
                j = j + 1;
            }
        }
        if matched {
            assert(s@.subrange(i as int, i + m) =~= pat@);
            return true;
        }
        assert(s@.subrange(i as int, i + m) != pat@) by {
            assert(s@.subrange(i as int, i + m)[j as int] == s@[i + j]);
        }
        i = i + 1;
    }
    false
}

/// The pitch class of a note name (0 = C): its letter, plus one for a
/// sharp, or minus one for a flat, modulo twelve.
pub fn note_name_to_pitch(name: &str) -> (pitch: u8)
    ensures
        pitch == name_pitch(name@),
        pitch < 12,
{
    let n = name.unicode_len();
    let first = if n == 0 {
        'C'
    } else {
        name.get_char(0)
    };
    let base: u8 = if first == 'C' {
        0
    } else if first == 'D' {
        2
    } else if first == 'E' {
        4
    } else if first == 'F' {
        5
    } else if first == 'G' {
        7
    } else if first == 'A' {
        9
    } else if first == 'B' {
        11
    } else {
        0
    };
    let modifier: u8 = if has_char(name, '#') {
        1
    } else if has_char(name, 'b') {
        11
    } else {
        0
    };
    (base + modifier) % 12
}

/// Splits a chord name into root (the letter and any sharp or flat) and
/// quality (the rest); an empty name or "?" reads as a C chord.
pub fn parse_chord_name_to_info(chord_name: &str) -> (info: ChordInfo)
    requires
        splittable(chord_name@),
    ensures
        info.root@ == chord_root(chord_name@),
        info.quality@ == chord_quality(chord_name@),
        info.display_name@ == chord_root(chord_name@) + chord_quality(chord_name@),
        info.bass is None,
{
    let n = chord_name.unicode_len();
    let unknown = n == 0 || (n == 1 && chord_name.get_char(0) == '?');
    assert(unknown == no_chord(chord_name@)) by {
        if n == 1 && chord_name@[0] == '?' {
            assert(chord_name@ =~= seq!['?']);
        }
    }
    if unknown {
        let root = String::from_str("C");
        let display_name = String::from_str("C");
        proof {
            reveal_strlit("C");
        }
        return ChordInfo { root, quality: String::new(), display_name, bass: None };
    }
    let root_end: usize = if n > 1 && (chord_name.get_char(1) == '#' || chord_name.get_char(1)
        == 'b') {
        2
    } else {
        1
    };
    let root_str = chord_name.substring_char(0, root_end);
    let quality_str = chord_name.substring_char(root_end, n);
    let root = String::from_str(root_str);
    let quality = String::from_str(quality_str);
    let mut display_name = String::from_str(root_str);
    display_name.append(quality_str);
    assert(root_str@ =~= chord_name@.take(root_len(chord_name@)));
    assert(quality_str@ =~= chord_name@.skip(root_len(chord_name@)));
    ChordInfo { root, quality, display_name, bass: None }
}

/// The MIDI note of a chord's root in the octave from middle C.
pub fn chord_root_midi(chord_name: &str) -> (midi: u8)
    requires
        splittable(chord_name@),
    ensures
        midi == name_pitch(chord_root(chord_name@)) + 60,
{
    let info = parse_chord_name_to_info(chord_name);
    note_name_to_pitch(info.root.as_str()) + 60
}

/// The scale to improvise over a chord: its name after the chord's root,
/// and its notes in the octave from middle C.
pub fn get_scale_for_chord(chord_name: &str) -> (suggestion: Option<ScaleSuggestionData>)
    requires
        splittable(chord_name@),
    ensures
        suggestion matches Some(s) && {
            let root = chord_root(chord_name@);
            let (name, intervals) = suggested_scale(chord_quality(chord_name@));
            &&& s.name@ == root + seq![' '] + name
            &&& s.notes@.len() == intervals.len()
            &&& forall|i: int|
                0 <= i < intervals.len() ==> #[trigger] s.notes@[i] == (name_pitch(root)
                    + intervals[i]) % 12 + 60
        },
{
    let info = parse_chord_name_to_info(chord_name);
    let root_pitch = note_name_to_pitch(info.root.as_str());
    let q = info.quality.as_str();
    let ghost qv = chord_quality(chord_name@);
    assert(q@ == qv);
    proof {
        reveal_strlit("m7b5");
        reveal_strlit("ø");
        reveal_strlit("dim");
        reveal_strlit("maj");
        reveal_strlit("min");
        reveal_strlit("Locrian");
        reveal_strlit("Diminished");
        reveal_strlit("Lydian");
        reveal_strlit("Dorian");
        reveal_strlit("Mixolydian");
        reveal_strlit(" ");
    }
    let starts_minor = q.unicode_len() > 0 && q.get_char(0) == 'm';
    let (scale_name, intervals): (&str, Vec<u8>) = if contains_str(q, "m7b5") || contains_str(
        q,
        "ø",
    ) {
        ("Locrian", vec![0, 1, 3, 5, 6, 8, 10])
    } else if contains_str(q, "dim") {
        ("Diminished", vec![0, 2, 3, 5, 6, 8, 9, 11])
    } else if contains_str(q, "maj") {
        ("Lydian", vec![0, 2, 4, 6, 7, 9, 11])
    } else if starts_minor || contains_str(q, "min") {
        ("Dorian", vec![0, 2, 3, 5, 7, 9, 10])
    } else if has_char(q, '7') {
        ("Mixolydian", vec![0, 2, 4, 5, 7, 9, 10])
    } else {
        ("Lydian", vec![0, 2, 4, 6, 7, 9, 11])
    };
    let ghost expected = suggested_scale(qv);
    assert("m7b5"@ == seq!['m', '7', 'b', '5']);
    assert("ø"@ == seq!['ø']);
    assert("dim"@ == seq!['d', 'i', 'm']);
    assert("maj"@ == seq!['m', 'a', 'j']);
    assert("min"@ == seq!['m', 'i', 'n']);
    assert(scale_name@ == expected.0);
    assert(intervals@.map_values(|i: u8| i as int) =~= expected.1);
    let mut notes: Vec<u8> = Vec::new();
    let mut i: usize = 0;
    while i < intervals.len()
        invariant
            i <= intervals@.len(),
            root_pitch < 12,
            forall|k: int| 0 <= k < intervals@.len() ==> #[trigger] intervals@[k] < 12,
            notes@.len() == i,
            forall|k: int|
                0 <= k < i ==> #[trigger] notes@[k] == (root_pitch + intervals@[k]) % 12 + 60,
        decreases intervals.len() - i,
    {
        notes.push((root_pitch + intervals[i]) % 12 + 60);
        i = i + 1;
    }
    let mut name = String::from_str(info.root.as_str());
    name.append(" ");
    name.append(scale_name);
    assert forall|k: int| 0 <= k < expected.1.len() implies #[trigger] notes@[k] == (name_pitch(
        chord_root(chord_name@),
    ) + expected.1[k]) % 12 + 60 by {
        assert(expected.1[k] == intervals@.map_values(|i: u8| i as int)[k]);
    }
    Some(ScaleSuggestionData { name, notes })
}

/// The tempo markings over upcoming bars, given each bar with its tempo:
/// a marking wherever the tempo differs from the one before (`previous`
/// for the first bar).
pub open spec fn tempo_changes(bars: Seq<(usize, u32)>, previous: Option<u32>) -> Seq<TempoMarking>
    decreases bars.len(),
{
    if bars.len() == 0 {
        Seq::empty()
    } else if previous != Some(bars[0].1) {
        seq![TempoMarking { bar: bars[0].0 as u32, bpm: bars[0].1 }] + tempo_changes(
            bars.drop_first(),
            Some(bars[0].1),
        )
    } else {
        tempo_changes(bars.drop_first(), previous)
    }
}

/// The tempo markings for upcoming bars (bar and rounded tempo each),
/// given the tempo of the bar before them, if known.
pub fn build_tempo_markings(bars: &Vec<(usize, u32)>, preceding_bpm: Option<u32>) -> (markings: Vec<
    TempoMarking,
>)
    ensures
        markings@ == tempo_changes(bars@, preceding_bpm),
{
    let mut markings: Vec<TempoMarking> = Vec::new();
    let mut prev = preceding_bpm;
    let mut i: usize = 0;
    assert(bars@.skip(0) =~= bars@);
    assert(markings@ + tempo_changes(bars@, preceding_bpm) =~= tempo_changes(bars@, preceding_bpm));
    while i < bars.len()
        invariant
            i <= bars@.len(),
            markings@ + tempo_changes(bars@.skip(i as int), prev) == tempo_changes(
                bars@,
                preceding_bpm,
            ),
        decreases bars.len() - i,
    {
        let (bar, bpm) = bars[i];
        let ghost rest = bars@.skip(i as int);
        let ghost old_prev = prev;
        let ghost old_markings = markings@;
        assert(rest[0] == (bar, bpm));
        assert(rest.drop_first() =~= bars@.skip(i + 1));
        if prev != Some(bpm) {
            let mark = TempoMarking { bar: bar as u32, bpm };
            markings.push(mark);
            prev = Some(bpm);
            assert(tempo_changes(rest, old_prev) == seq![mark] + tempo_changes(
                bars@.skip(i + 1),
                Some(bpm),
            ));
            assert(markings@ + tempo_changes(bars@.skip(i + 1), prev) =~= old_markings
                + tempo_changes(rest, old_prev));
        } else {
            assert(tempo_changes(rest, old_prev) == tempo_changes(bars@.skip(i + 1), prev));
        }
        i = i + 1;
    }
    assert(bars@.skip(i as int) =~= Seq::<(usize, u32)>::empty());
    assert(markings@ + Seq::<TempoMarking>::empty() =~= markings@);
    markings
}

/// Most steps of a rhythm pattern shown.
pub const MAX_PATTERN_STEPS: usize = 192;

/// The progression cycle a bar falls in: bar over progression length, plus
/// one; cycle one when the length is unknown (zero).
pub fn current_cycle(current_bar: usize, progression_length: usize) -> (cycle: usize)
    requires
        progression_length == 0 || current_bar / progression_length < usize::MAX,
    ensures
        cycle == if progression_length > 0 {
            current_bar / progression_length + 1
        } else {
            1
        },
{
    if progression_length > 0 {
        current_bar / progression_length + 1
    } else {
        1
    }
}

/// A rhythm pattern for display: its first `steps` steps (at most the
/// display limit), one byte each, 1 for a hit and 0 for a rest.
pub fn pattern_bytes(pattern: &[bool], steps: usize) -> (bytes: Vec<u8>)
    requires
        min_usize(steps, MAX_PATTERN_STEPS) <= pattern@.len(),
    ensures
        bytes@.len() == min_usize(steps, MAX_PATTERN_STEPS),
        forall|i: int|
            0 <= i < bytes@.len() ==> #[trigger] bytes@[i] == if pattern@[i] {
                1u8
            } else {
                0u8
            },
{
    let len = if steps < MAX_PATTERN_STEPS {
        steps
    } else {
        MAX_PATTERN_STEPS
    };
    let mut bytes: Vec<u8> = Vec::new();
    let mut i: usize = 0;
    while i < len
        invariant
            len <= pattern@.len(),
            i <= len,
            bytes@.len() == i,
            forall|k: int|
                0 <= k < i ==> #[trigger] bytes@[k] == if pattern@[k] {
                    1u8
                } else {
                    0u8
                },
        decreases len - i,
    {
        bytes.push(if pattern[i] {
            1
        } else {
            0
        });
        i = i + 1;
    }
    bytes
}

/// The smaller of two sizes.
pub open spec fn min_usize(a: usize, b: usize) -> usize {
    if a <= b {
        a
    } else {
        b
    }
}

/// The polyrhythm step count kept for a request: rounded down to a
/// multiple of four, then held between 16 and 384.
pub fn poly_steps(steps: usize) -> (valid: usize)
    ensures
        valid == if (steps / 4) * 4 < 16 {
            16
        } else if (steps / 4) * 4 > 384 {
            384
        } else {
            (steps / 4) * 4
        },
        valid % 4 == 0,
        16 <= valid <= 384,
{
    let rounded = (steps / 4) * 4;
    if rounded < 16 {
        16
    } else if rounded > 384 {
        384
    } else {
        rounded
    }
}

/// Where a lead note of a buffered measure falls, in whole steps: its bar,
/// start and length in steps, the steps per beat and beats in its bar.
#[derive(Clone, Copy, Debug, PartialEq, Eq, Structural)]
pub struct LeadNotePlacement {
    pub bar: usize,
    pub start_step: usize,
    pub duration_steps: usize,
    pub ticks_per_beat: usize,
    pub beats: usize,
    pub pitch: u8,
    pub velocity: u8,
}

/// Whether a measure can be read in beats: it has beats, steps, and at
/// least one step per beat.
pub open spec fn readable_in_beats(m: MeasureSnapshot) -> bool {
    m.time_sig_numerator != 0 && m.steps != 0 && m.steps / m.time_sig_numerator != 0
}

/// The placements of the lead notes (track 1) of one measure, in order.
pub open spec fn measure_lead_placements(m: MeasureSnapshot) -> Seq<LeadNotePlacement> {
    if readable_in_beats(m) {
        m.notes@.filter(|n: NoteSnapshot| n.track == 1).map_values(
            |n: NoteSnapshot|
                LeadNotePlacement {
                    bar: m.index,
                    start_step: n.start_step,
                    duration_steps: n.duration_steps,
                    ticks_per_beat: (m.steps / m.time_sig_numerator) as usize,
                    beats: m.time_sig_numerator,
                    pitch: n.pitch,
                    velocity: n.velocity,
                },
        )
    } else {
        Seq::empty()
    }
}

/// The placements of the lead notes of several measures, measure by
/// measure.
pub open spec fn lead_placements(ms: Seq<MeasureSnapshot>) -> Seq<LeadNotePlacement>
    decreases ms.len(),
{
    if ms.len() == 0 {
        Seq::empty()
    } else {
        lead_placements(ms.drop_last()) + measure_lead_placements(ms.last())
    }
}

/// The lead notes of buffered measures placed on the beat grid, measure by
/// measure; measures without beats or steps are skipped.
pub fn lead_note_placements(measures: &[MeasureSnapshot]) -> (placed: Vec<LeadNotePlacement>)
    ensures
        placed@ == lead_placements(measures@),
{
    let mut placed: Vec<LeadNotePlacement> = Vec::new();
    let mut i: usize = 0;
    while i < measures.len()
        invariant
            i <= measures@.len(),
            placed@ == lead_placements(measures@.take(i as int)),
        decreases measures.len() - i,
    {
        let m = &measures[i];
        let ghost before = placed@;
        assert(measures@.take(i + 1).drop_last() =~= measures@.take(i as int));
        let beats = m.time_sig_numerator;
        if beats != 0 && m.steps != 0 && m.steps / beats != 0 {
            let tpb = m.steps / beats;
            let ghost pred = |n: NoteSnapshot| n.track == 1;
            let ghost f = |n: NoteSnapshot|
                LeadNotePlacement {
                    bar: m.index,
                    start_step: n.start_step,
                    duration_steps: n.duration_steps,
                    ticks_per_beat: tpb,
                    beats,
                    pitch: n.pitch,
                    velocity: n.velocity,
                };
            let mut k: usize = 0;
            while k < m.notes.len()
                invariant
                    k <= m.notes@.len(),
                    m == &measures@[i as int],
                    tpb == m.steps / beats,
                    beats == m.time_sig_numerator,
                    pred == (|n: NoteSnapshot| n.track == 1),
                    f == (|n: NoteSnapshot|
                        LeadNotePlacement {
                            bar: m.index,
                            start_step: n.start_step,
                            duration_steps: n.duration_steps,
                            ticks_per_beat: tpb,
                            beats,
                            pitch: n.pitch,
                            velocity: n.velocity,
                        }),
                    placed@ == before + m.notes@.take(k as int).filter(pred).map_values(f),
                decreases m.notes.len() - k,
            {
                let n = m.notes[k];
                reveal_with_fuel(Seq::filter, 1);
                assert(m.notes@.take(k + 1).drop_last() =~= m.notes@.take(k as int));
                if n.track == 1 {
                    placed.push(
                        LeadNotePlacement {
                            bar: m.index,
                            start_step: n.start_step,
                            duration_steps: n.duration_steps,
                            ticks_per_beat: tpb,
                            beats,
                            pitch: n.pitch,
                            velocity: n.velocity,
                        },
                    );
                }
                k = k + 1;
                assert(placed@ =~= before + m.notes@.take(k as int).filter(pred).map_values(f));
            }
            assert(m.notes@.take(k as int) =~= m.notes@);
            assert(placed@ =~= lead_placements(measures@.take(i as int)) + measure_lead_placements(
                *m,
            ));
        } else {
            assert(placed@ =~= lead_placements(measures@.take(i as int)) + measure_lead_placements(
                *m,
            ));
        }
        i = i + 1;
    }
    assert(measures@.take(i as int) =~= measures@);
    placed
}

} // verus!
