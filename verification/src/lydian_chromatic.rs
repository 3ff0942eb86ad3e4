//! Lydian Chromatic Concept (George Russell): twelve levels of tonal gravity,
//! from the Lydian scale (most consonant) to the chromatic scale.

use vstd::prelude::*;
use vstd::string::*;
use crate::chord::{Chord, ChordType, PitchClass, transpose_pc, total_movement, chord_pitch_classes};

verus! {

/// Improv guidance for one chord: the suggested scale and the chord tones.
#[derive(Debug, PartialEq, Eq)]
pub struct ScaleGuidance {
    /// Display symbol for the chord (e.g. "Dm7", or a roman numeral).
    pub chord_symbol: String,
    /// Absolute root pitch class of the chord (0-11, 0 = C).
    pub chord_root: u8,
    /// Chord-tone pitch classes (0-11).
    pub chord_tones: Vec<u8>,
    /// Name of the suggested scale.
    pub scale_name: String,
    /// Scale pitch classes (0-11) to play over this chord.
    pub scale_notes: Vec<u8>,
    /// LCC level 1-12 (1 = Lydian, 12 = chromatic).
    pub lcc_level: u8,
}

/// Two guidances hold the same symbol, root, tones, scale name, scale
/// notes and level.
pub open spec fn same_guidance(a: ScaleGuidance, b: ScaleGuidance) -> bool {
    &&& a.chord_symbol@ == b.chord_symbol@
    &&& a.chord_root == b.chord_root
    &&& a.chord_tones@ == b.chord_tones@
    &&& a.scale_name@ == b.scale_name@
    &&& a.scale_notes@ == b.scale_notes@
    &&& a.lcc_level == b.lcc_level
}

impl Clone for ScaleGuidance {
    fn clone(&self) -> (g: Self)
        ensures
            same_guidance(g, *self),
    {
        ScaleGuidance {
            chord_symbol: self.chord_symbol.clone(),
            chord_root: self.chord_root,
            chord_tones: self.chord_tones.clone(),
            scale_name: self.scale_name.clone(),
            scale_notes: self.scale_notes.clone(),
            lcc_level: self.lcc_level,
        }
    }
}

/// The twelve levels of tonal gravity.
#[derive(Clone, Copy, Debug, PartialEq, Eq, Structural)]
pub enum LccLevel {
    Lydian,
    LydianAugmented,
    LydianDiminished,
    LydianFlatSeventh,
    AuxiliaryAugmented,
    AuxiliaryDiminishedBlues,
    LydianAugmentedFlatSeventh,
    AuxiliaryDiminished,
    AuxiliaryAugmentedBlues,
    MajorPentatonic,
    JapaneseIn,
    Chromatic,
}

/// The level number, 1 (Lydian) to 12 (Chromatic).
pub open spec fn level_number(l: LccLevel) -> u8 {
    match l {
        LccLevel::Lydian => 1,
        LccLevel::LydianAugmented => 2,
        LccLevel::LydianDiminished => 3,
        LccLevel::LydianFlatSeventh => 4,
        LccLevel::AuxiliaryAugmented => 5,
        LccLevel::AuxiliaryDiminishedBlues => 6,
        LccLevel::LydianAugmentedFlatSeventh => 7,
        LccLevel::AuxiliaryDiminished => 8,
        LccLevel::AuxiliaryAugmentedBlues => 9,
        LccLevel::MajorPentatonic => 10,
        LccLevel::JapaneseIn => 11,
        LccLevel::Chromatic => 12,
    }
}

/// The display name of each level's scale.
pub open spec fn level_name(l: LccLevel) -> Seq<char> {
    match l {
        LccLevel::Lydian => "Lydian"@,
        LccLevel::LydianAugmented => "Lydian Augmented"@,
        LccLevel::LydianDiminished => "Lydian Diminished"@,
        LccLevel::LydianFlatSeventh => "Lydian b7"@,
        LccLevel::AuxiliaryAugmented => "Aux. Augmented"@,
        LccLevel::AuxiliaryDiminishedBlues => "Aux. Dim. Blues"@,
        LccLevel::LydianAugmentedFlatSeventh => "Lydian Aug. b7"@,
        LccLevel::AuxiliaryDiminished => "Aux. Diminished"@,
        LccLevel::AuxiliaryAugmentedBlues => "Aux. Aug. Blues"@,
        LccLevel::MajorPentatonic => "Major Pentatonic"@,
        LccLevel::JapaneseIn => "Japanese In"@,
        LccLevel::Chromatic => "Chromatic"@,
    }
}

/// Scale intervals (semitones above the parent tonic) of each level.
pub open spec fn lcc_intervals(l: LccLevel) -> Seq<u8> {
    match l {
        LccLevel::Lydian => seq![0u8, 2, 4, 6, 7, 9, 11],
        LccLevel::LydianAugmented => seq![0u8, 2, 4, 6, 8, 9, 11],
        LccLevel::LydianDiminished => seq![0u8, 2, 3, 6, 7, 9, 11],
        LccLevel::LydianFlatSeventh => seq![0u8, 2, 4, 6, 7, 9, 10],
        LccLevel::AuxiliaryAugmented => seq![0u8, 2, 4, 6, 8, 10],
        LccLevel::AuxiliaryDiminishedBlues => seq![0u8, 1, 3, 4, 6, 7, 9, 10],
        LccLevel::LydianAugmentedFlatSeventh => seq![0u8, 2, 4, 6, 8, 9, 10],
        LccLevel::AuxiliaryDiminished => seq![0u8, 1, 3, 4, 6, 7, 9, 10],
        LccLevel::AuxiliaryAugmentedBlues => seq![0u8, 2, 3, 5, 6, 8, 9, 11],
        LccLevel::MajorPentatonic => seq![0u8, 2, 4, 7, 9],
        LccLevel::JapaneseIn => seq![0u8, 1, 5, 7, 8],
        LccLevel::Chromatic => seq![0u8, 1, 2, 3, 4, 5, 6, 7, 8, 9, 10, 11],
    }
}

/// The scale of a level rooted on `parent`, as pitch classes.
pub open spec fn lcc_scale(parent: u8, l: LccLevel) -> Seq<u8> {
    lcc_intervals(l).map_values(|i: u8| transpose_pc(parent as int, i as int))
}

/// The chord-type families that take the root itself as their parent tonic.
pub open spec fn parent_offset(t: ChordType) -> int {
    match t {
        ChordType::Minor | ChordType::Minor7 | ChordType::MinorMajor7 | ChordType::Minor6 => 9,
        ChordType::HalfDiminished | ChordType::Diminished | ChordType::Diminished7 => 1,
        _ => 0,
    }
}

/// The parent Lydian tonic of a chord.
pub open spec fn parent_lydian_of(c: Chord) -> u8 {
    if parent_offset(c.chord_type) == 0 {
        c.root
    } else {
        transpose_pc(c.root as int, parent_offset(c.chord_type))
    }
}

/// The level suggested for a voice-leading distance between two chords.
pub open spec fn level_for_distance(d: int) -> LccLevel {
    if d <= 1 {
        LccLevel::Lydian
    } else if d <= 3 {
        LccLevel::LydianAugmented
    } else if d <= 5 {
        LccLevel::LydianFlatSeventh
    } else if d <= 7 {
        LccLevel::AuxiliaryDiminished
    } else {
        LccLevel::Chromatic
    }
}

impl LccLevel {
    /// Converts a level number (1-12) to a level.
    pub fn from_u8(value: u8) -> (l: Option<LccLevel>)
        ensures
            (1 <= value <= 12) <==> l.is_some(),
            l matches Some(level) ==> level_number(level) == value,
    {
        match value {
            1 => Some(LccLevel::Lydian),
            2 => Some(LccLevel::LydianAugmented),
            3 => Some(LccLevel::LydianDiminished),
            4 => Some(LccLevel::LydianFlatSeventh),
            5 => Some(LccLevel::AuxiliaryAugmented),
            6 => Some(LccLevel::AuxiliaryDiminishedBlues),
            7 => Some(LccLevel::LydianAugmentedFlatSeventh),
            8 => Some(LccLevel::AuxiliaryDiminished),
            9 => Some(LccLevel::AuxiliaryAugmentedBlues),
            10 => Some(LccLevel::MajorPentatonic),
            11 => Some(LccLevel::JapaneseIn),
            12 => Some(LccLevel::Chromatic),
            _ => None,
        }
    }

    /// The level number, 1 (Lydian) to 12 (Chromatic).
    pub fn value(&self) -> (v: u8)
        ensures
            v == level_number(*self),
            1 <= v <= 12,
    {
        match self {
            LccLevel::Lydian => 1,
            LccLevel::LydianAugmented => 2,
            LccLevel::LydianDiminished => 3,
            LccLevel::LydianFlatSeventh => 4,
            LccLevel::AuxiliaryAugmented => 5,
            LccLevel::AuxiliaryDiminishedBlues => 6,
            LccLevel::LydianAugmentedFlatSeventh => 7,
            LccLevel::AuxiliaryDiminished => 8,
            LccLevel::AuxiliaryAugmentedBlues => 9,
            LccLevel::MajorPentatonic => 10,
            LccLevel::JapaneseIn => 11,
            LccLevel::Chromatic => 12,
        }
    }

    /// The name of the level's scale.
    pub fn name(&self) -> (s: &'static str)
        ensures
            s@ == level_name(*self),
    {
        match self {
            LccLevel::Lydian => "Lydian",
            LccLevel::LydianAugmented => "Lydian Augmented",
            LccLevel::LydianDiminished => "Lydian Diminished",
            LccLevel::LydianFlatSeventh => "Lydian b7",
            LccLevel::AuxiliaryAugmented => "Aux. Augmented",
            LccLevel::AuxiliaryDiminishedBlues => "Aux. Dim. Blues",
            LccLevel::LydianAugmentedFlatSeventh => "Lydian Aug. b7",
            LccLevel::AuxiliaryDiminished => "Aux. Diminished",
            LccLevel::AuxiliaryAugmentedBlues => "Aux. Aug. Blues",
            LccLevel::MajorPentatonic => "Major Pentatonic",
            LccLevel::JapaneseIn => "Japanese In",
            LccLevel::Chromatic => "Chromatic",
        }
    }
}

/// Every level number round-trips: the level that `from_u8` gives for a
/// number carries that number, and every level's number maps back to it.
pub proof fn lemma_level_number_roundtrip(l: LccLevel)
    ensures
        1 <= level_number(l) <= 12,
        forall|m: LccLevel| level_number(m) == level_number(l) ==> m == l,
{
}


/// The precomputed interval table row of a level (padded with 255).
pub open spec fn table_row(idx: int) -> Seq<u8> {
    if idx == 0 { seq![0u8, 2, 4, 6, 7, 9, 11, 255] }
    else if idx == 1 { seq![0u8, 2, 4, 6, 8, 9, 11, 255] }
    else if idx == 2 { seq![0u8, 2, 3, 6, 7, 9, 11, 255] }
    else if idx == 3 { seq![0u8, 2, 4, 6, 7, 9, 10, 255] }
    else if idx == 4 { seq![0u8, 2, 4, 6, 8, 10, 255, 255] }
    else if idx == 5 { seq![0u8, 1, 3, 4, 6, 7, 9, 10] }
    else if idx == 6 { seq![0u8, 2, 4, 6, 8, 9, 10, 255] }
    else if idx == 7 { seq![0u8, 1, 3, 4, 6, 7, 9, 10] }
    else if idx == 8 { seq![0u8, 2, 3, 5, 6, 8, 9, 11] }
    else if idx == 9 { seq![0u8, 2, 4, 7, 9, 255, 255, 255] }
    else if idx == 10 { seq![0u8, 1, 5, 7, 8, 255, 255, 255] }
    else { seq![0u8, 1, 2, 3, 4, 5, 6, 7] }
}

/// Number of notes of each level's scale.
pub open spec fn table_len(idx: int) -> usize {
    if idx == 4 { 6 }
    else if idx == 5 || idx == 7 || idx == 8 { 8 }
    else if idx == 9 || idx == 10 { 5 }
    else if idx == 11 { 12 }
    else { 7 }
}

/// The Lydian Chromatic Concept with its precomputed scale tables.
pub struct LydianChromaticConcept {
    /// Intervals for each level, in semitones from the parent tonic.
    scale_intervals: [[u8; 8]; 12],
    /// Number of notes per scale.
    scale_lengths: [usize; 12],
}

impl LydianChromaticConcept {
    /// The tables hold the interval rows and scale lengths of the twelve levels.
    #[verifier::type_invariant]
    spec fn tables_hold(self) -> bool {
        &&& forall|l: int| 0 <= l < 12 ==> #[trigger] self.scale_intervals@[l]@ == table_row(l)
        &&& forall|l: int| 0 <= l < 12 ==> #[trigger] self.scale_lengths@[l] == table_len(l)
    }

    /// The interval row held for the level at index `idx` (level number
    /// minus one), padded with 255 to eight entries.
    pub closed spec fn interval_row(self, idx: int) -> Seq<u8> {
        self.scale_intervals@[idx]@
    }

    /// The scale length held for the level at index `idx`.
    pub closed spec fn scale_length(self, idx: int) -> usize {
        self.scale_lengths@[idx]
    }

    /// Creates the concept with its precomputed tables: for each of the
    /// twelve levels, its interval row and its scale length.
    pub fn new() -> (lcc: Self)
        ensures
            forall|l: int| 0 <= l < 12 ==> #[trigger] lcc.interval_row(l) == table_row(l),
            forall|l: int| 0 <= l < 12 ==> #[trigger] lcc.scale_length(l) == table_len(l),
    {
        let scale_intervals: [[u8; 8]; 12] = [
            [0, 2, 4, 6, 7, 9, 11, 255],
            [0, 2, 4, 6, 8, 9, 11, 255],
            [0, 2, 3, 6, 7, 9, 11, 255],
            [0, 2, 4, 6, 7, 9, 10, 255],
            [0, 2, 4, 6, 8, 10, 255, 255],
            [0, 1, 3, 4, 6, 7, 9, 10],
            [0, 2, 4, 6, 8, 9, 10, 255],
            [0, 1, 3, 4, 6, 7, 9, 10],
            [0, 2, 3, 5, 6, 8, 9, 11],
            [0, 2, 4, 7, 9, 255, 255, 255],
            [0, 1, 5, 7, 8, 255, 255, 255],
            [0, 1, 2, 3, 4, 5, 6, 7],
        ];
        let scale_lengths: [usize; 12] = [7, 7, 7, 7, 6, 8, 7, 8, 8, 5, 5, 12];
        assert(scale_intervals@[0]@ =~= table_row(0));
        assert(scale_intervals@[1]@ =~= table_row(1));
        assert(scale_intervals@[2]@ =~= table_row(2));
        assert(scale_intervals@[3]@ =~= table_row(3));
        assert(scale_intervals@[4]@ =~= table_row(4));
        assert(scale_intervals@[5]@ =~= table_row(5));
        assert(scale_intervals@[6]@ =~= table_row(6));
        assert(scale_intervals@[7]@ =~= table_row(7));
        assert(scale_intervals@[8]@ =~= table_row(8));
        assert(scale_intervals@[9]@ =~= table_row(9));
        assert(scale_intervals@[10]@ =~= table_row(10));
        assert(scale_intervals@[11]@ =~= table_row(11));
        LydianChromaticConcept { scale_intervals, scale_lengths }
    }
}

/// The table row of a level holds its intervals, followed by padding.
proof fn lemma_table_matches(l: LccLevel)
    ensures
        l != LccLevel::Chromatic ==> table_row(level_number(l) - 1).take(
            table_len(level_number(l) - 1) as int,
        ) == lcc_intervals(l),
        l != LccLevel::Chromatic ==> table_len(level_number(l) - 1) <= 8,
        lcc_intervals(l).len() == table_len(level_number(l) - 1),
        lcc_intervals(l).len() >= 1,
        lcc_intervals(l)[0] == 0,
        forall|k: int| 0 <= k < lcc_intervals(l).len() ==> lcc_intervals(l)[k] <= lcc_intervals(
            l,
        ).last(),
        lcc_intervals(l).last() <= 11,
{
    match l {
        LccLevel::Lydian => { assert(table_row(0).take(7) =~= lcc_intervals(l)); },
        LccLevel::LydianAugmented => { assert(table_row(1).take(7) =~= lcc_intervals(l)); },
        LccLevel::LydianDiminished => { assert(table_row(2).take(7) =~= lcc_intervals(l)); },
        LccLevel::LydianFlatSeventh => { assert(table_row(3).take(7) =~= lcc_intervals(l)); },
        LccLevel::AuxiliaryAugmented => { assert(table_row(4).take(6) =~= lcc_intervals(l)); },
        LccLevel::AuxiliaryDiminishedBlues => {
            assert(table_row(5).take(8) =~= lcc_intervals(l));
        },
        LccLevel::LydianAugmentedFlatSeventh => {
            assert(table_row(6).take(7) =~= lcc_intervals(l));
        },
        LccLevel::AuxiliaryDiminished => { assert(table_row(7).take(8) =~= lcc_intervals(l)); },
        LccLevel::AuxiliaryAugmentedBlues => {
            assert(table_row(8).take(8) =~= lcc_intervals(l));
        },
        LccLevel::MajorPentatonic => { assert(table_row(9).take(5) =~= lcc_intervals(l)); },
        LccLevel::JapaneseIn => { assert(table_row(10).take(5) =~= lcc_intervals(l)); },
        LccLevel::Chromatic => {},
    }
}

/// The scale of `level` rooted on `parent` can be computed without overflow.
pub open spec fn scale_defined(parent: u8, level: LccLevel) -> bool {
    parent as int + lcc_intervals(level).last() <= 255
}

/// The parent tonic of `chord` can be computed without overflow.
pub open spec fn parent_defined(chord: Chord) -> bool {
    chord.root as int + parent_offset(chord.chord_type) <= 255
}

/// Whether `s` contains `x`.
pub open spec fn seq_has(s: Seq<u8>, x: u8) -> bool {
    exists|i: int| 0 <= i < s.len() && s[i] == x
}

impl LydianChromaticConcept {
    /// The parent Lydian tonic of a chord: the root for major, dominant,
    /// augmented and suspended chords; a major third below (root + 9) for
    /// minor chords; a semitone above for diminished and half-diminished.
    pub fn parent_lydian(&self, chord: &Chord) -> (pc: PitchClass)
        requires
            parent_defined(*chord),
        ensures
            pc == parent_lydian_of(*chord),
    {
        match chord.chord_type {
            ChordType::Major | ChordType::Major7 | ChordType::Major6 | ChordType::Add9 => {
                chord.root
            },
            ChordType::Dominant7 | ChordType::Dominant7Sus4 => chord.root,
            ChordType::Minor | ChordType::Minor7 | ChordType::MinorMajor7 | ChordType::Minor6 => {
                (chord.root + 9) % 12
            },
            ChordType::HalfDiminished => (chord.root + 1) % 12,
            ChordType::Diminished | ChordType::Diminished7 => (chord.root + 1) % 12,
            ChordType::Augmented | ChordType::Augmented7 => chord.root,
            ChordType::Sus2 | ChordType::Sus4 => chord.root,
        }
    }

    /// The pitch classes of the scale of `level` rooted on `parent`.
    pub fn get_scale(&self, parent: PitchClass, level: LccLevel) -> (scale: Vec<PitchClass>)
        requires
            scale_defined(parent, level),
        ensures
            scale@ == lcc_scale(parent, level),
    {
        proof {
            use_type_invariant(self);
            lemma_table_matches(level);
        }
        let level_idx = (level.value() - 1) as usize;
        let intervals = self.scale_intervals[level_idx];
        let len = self.scale_lengths[level_idx];
        let ghost ivs = lcc_intervals(level);
        let mut scale: Vec<PitchClass> = Vec::new();
        if level == LccLevel::Chromatic {
            let mut i: u8 = 0;
            while i < 12
                invariant
                    i <= 12,
                    level == LccLevel::Chromatic,
                    ivs == lcc_intervals(level),
                    scale_defined(parent, level),
                    scale@ == ivs.take(i as int).map_values(
                        |x: u8| transpose_pc(parent as int, x as int),
                    ),
                decreases 12 - i,
            {
                assert(ivs[i as int] == i);
                scale.push((parent + i) % 12);
                i = i + 1;
                assert(ivs.take(i as int).drop_last() =~= ivs.take(i - 1));
                assert(scale@ =~= ivs.take(i as int).map_values(
                    |x: u8| transpose_pc(parent as int, x as int),
                ));
            }
            assert(ivs.take(12) =~= ivs);
            return scale;
        }
        let mut k: usize = 0;
        while k < len
            invariant
                k <= len <= 8,
                len == ivs.len(),
                ivs == lcc_intervals(level),
                intervals@ == table_row(level_idx as int),
                table_row(level_idx as int).take(len as int) == ivs,
                forall|j: int| 0 <= j < ivs.len() ==> ivs[j] <= ivs.last(),
                ivs.last() <= 11,
                scale_defined(parent, level),
                scale@ == ivs.take(k as int).map_values(
                    |x: u8| transpose_pc(parent as int, x as int),
                ),
            decreases len - k,
        {
            let interval = intervals[k];
            assert(interval == ivs[k as int]);
            if interval != 255 {
                scale.push((parent + interval) % 12);
            }
            k = k + 1;
            assert(ivs.take(k as int).drop_last() =~= ivs.take(k - 1));
            assert(scale@ =~= ivs.take(k as int).map_values(
                |x: u8| transpose_pc(parent as int, x as int),
            ));
        }
        assert(ivs.take(len as int) =~= ivs);
        scale
    }

    /// Whether `note` (reduced to a pitch class) belongs to the scale of
    /// `level` rooted on the chord's parent Lydian tonic.
    pub fn is_valid_note_at_level(&self, note: PitchClass, chord: &Chord, level: LccLevel) -> (ok:
        bool)
        requires
            parent_defined(*chord),
            scale_defined(parent_lydian_of(*chord), level),
        ensures
            ok == seq_has(lcc_scale(parent_lydian_of(*chord), level), note % 12),
    {
        let parent = self.parent_lydian(chord);
        let scale = self.get_scale(parent, level);
        contains_pc(&scale, note % 12)
    }

    /// Keeps the notes whose pitch class belongs to the scale of `level`
    /// rooted on the chord's parent Lydian tonic, in their order.
    pub fn filter_notes_at_level(&self, notes: &[PitchClass], chord: &Chord, level: LccLevel) -> (kept:
        Vec<PitchClass>)
        requires
            parent_defined(*chord),
            scale_defined(parent_lydian_of(*chord), level),
        ensures
            kept@ == notes@.filter(
                |n: u8| seq_has(lcc_scale(parent_lydian_of(*chord), level), n % 12),
            ),
    {
        let parent = self.parent_lydian(chord);
        let scale = self.get_scale(parent, level);
        let ghost pred = |n: u8| seq_has(lcc_scale(parent_lydian_of(*chord), level), n % 12);
        let mut kept: Vec<PitchClass> = Vec::new();
        let mut i: usize = 0;
        while i < notes.len()
            invariant
                i <= notes@.len(),
                scale@ == lcc_scale(parent_lydian_of(*chord), level),
                pred == (|n: u8| seq_has(lcc_scale(parent_lydian_of(*chord), level), n % 12)),
                kept@ == notes@.take(i as int).filter(pred),
            decreases notes.len() - i,
        {
            let n = notes[i];
            reveal_with_fuel(Seq::filter, 1);
            assert(notes@.take(i + 1).drop_last() =~= notes@.take(i as int));
            if contains_pc(&scale, n % 12) {
                kept.push(n);
            }
            i = i + 1;
        }
        assert(notes@.take(i as int) =~= notes@);
        kept
    }

    /// Improv guidance for a chord at a given level: the suggested scale
    /// (rooted on the parent Lydian tonic) and the chord tones.
    pub fn scale_guidance_at_level(&self, chord: &Chord, chord_symbol: String, level: LccLevel) -> (g:
        ScaleGuidance)
        requires
            parent_defined(*chord),
            scale_defined(parent_lydian_of(*chord), level),
        ensures
            g.chord_symbol@ == chord_symbol@,
            g.chord_root == chord.root % 12,
            g.chord_tones@ == chord_pitch_classes(chord.root, chord.chord_type),
            g.scale_name@ == level_name(level),
            g.scale_notes@ == lcc_scale(parent_lydian_of(*chord), level),
            g.lcc_level == level_number(level),
    {
        let parent = self.parent_lydian(chord);
        ScaleGuidance {
            chord_symbol,
            chord_root: chord.root % 12,
            chord_tones: chord.pitch_classes(),
            scale_name: String::from_str(level.name()),
            scale_notes: self.get_scale(parent, level),
            lcc_level: level.value(),
        }
    }

    /// The level suggested for moving between two chords: the further the
    /// voices move, the more dissonant the level allowed.
    pub fn suggest_level_for_transition(&self, from: &Chord, to: &Chord) -> (l: LccLevel)
        ensures
            l == level_for_distance(
                total_movement(
                    chord_pitch_classes(from.root, from.chord_type),
                    chord_pitch_classes(to.root, to.chord_type),
                ),
            ),
    {
        let distance = from.voice_leading_distance(to);
        if distance <= 1 {
            LccLevel::Lydian
        } else if distance <= 3 {
            LccLevel::LydianAugmented
        } else if distance <= 5 {
            LccLevel::LydianFlatSeventh
        } else if distance <= 7 {
            LccLevel::AuxiliaryDiminished
        } else {
            LccLevel::Chromatic
        }
    }
}

/// The parent Lydian tonic by chord family. Major, dominant, augmented,
/// suspended, sixth and add-nine chords are their own parent. A minor
/// chord's parent lies a major third below its root (nine semitones up),
/// so the root is a minor third above the parent: the minor chord is the
/// relative minor of its parent. A diminished or half-diminished chord's
/// parent lies a semitone above its root. For a pitch-class root the
/// parent is a pitch class.
pub proof fn lemma_parent_lydian_by_family(root: u8, t: ChordType)
    ensures
        (t == ChordType::Major || t == ChordType::Major7 || t == ChordType::Major6
            || t == ChordType::Add9 || t == ChordType::Dominant7 || t == ChordType::Dominant7Sus4
            || t == ChordType::Augmented || t == ChordType::Augmented7 || t == ChordType::Sus2
            || t == ChordType::Sus4) ==> parent_lydian_of(Chord { root, chord_type: t }) == root,
        (t == ChordType::Minor || t == ChordType::Minor7 || t == ChordType::MinorMajor7
            || t == ChordType::Minor6) ==> parent_lydian_of(Chord { root, chord_type: t }) == (
        root as int + 9) % 12,
        (t == ChordType::HalfDiminished || t == ChordType::Diminished || t == ChordType::Diminished7)
            ==> parent_lydian_of(Chord { root, chord_type: t }) == (root as int + 1) % 12,
        root < 12 ==> parent_lydian_of(Chord { root, chord_type: t }) < 12,
        root < 12 && (t == ChordType::Minor || t == ChordType::Minor7 || t == ChordType::MinorMajor7
            || t == ChordType::Minor6) ==> (parent_lydian_of(Chord { root, chord_type: t }) + 3)
            % 12 == root,
        root < 12 && (t == ChordType::HalfDiminished || t == ChordType::Diminished || t
            == ChordType::Diminished7) ==> (parent_lydian_of(Chord { root, chord_type: t }) + 11)
            % 12 == root,
{
}

/// The level suggested for a chord transition grows with the voice-leading
/// distance: up to 1 semitone of movement Lydian (level 1), up to 3 Lydian
/// Augmented (level 2), up to 5 Lydian flat seventh (level 4), up to 7
/// Auxiliary Diminished (level 8), beyond that Chromatic (level 12). A
/// larger distance never suggests a lower level.
pub proof fn lemma_transition_level_grows(d1: int, d2: int)
    requires
        0 <= d1 <= d2,
    ensures
        level_number(level_for_distance(d1)) <= level_number(level_for_distance(d2)),
        d1 <= 1 ==> level_number(level_for_distance(d1)) == 1,
        2 <= d1 <= 3 ==> level_number(level_for_distance(d1)) == 2,
        4 <= d1 <= 5 ==> level_number(level_for_distance(d1)) == 4,
        6 <= d1 <= 7 ==> level_number(level_for_distance(d1)) == 8,
        d1 >= 8 ==> level_number(level_for_distance(d1)) == 12,
{
}

impl Default for LydianChromaticConcept {
    fn default() -> Self {
        Self::new()
    }
}

/// Whether the pitch-class list `s` contains `x`.
pub fn contains_pc(s: &Vec<u8>, x: u8) -> (found: bool)
    ensures
        found == seq_has(s@, x),
{
    let mut i: usize = 0;
    while i < s.len()
        invariant
            i <= s@.len(),
            forall|j: int| 0 <= j < i ==> s@[j] != x,
        decreases s.len() - i,
    {
        if s[i] == x {
            return true;
        }
        i = i + 1;
    }
    false
}

} // verus!
