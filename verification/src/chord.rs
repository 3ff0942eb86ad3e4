//! Chords as a root pitch class and a chord type.

use vstd::prelude::*;

verus! {

/// A pitch class, 0-11 with 0 = C.
pub type PitchClass = u8;

/// The chord types the harmony engine works with.
#[derive(Clone, Copy, Debug, PartialEq, Eq, Structural)]
pub enum ChordType {
    Major,
    Minor,
    Diminished,
    Augmented,
    Major7,
    Minor7,
    Dominant7,
    HalfDiminished,
    Diminished7,
    MinorMajor7,
    Augmented7,
    Sus2,
    Sus4,
    Major6,
    Minor6,
    Add9,
    Dominant7Sus4,
}

/// The coarse chord qualities of the basic (quadrant) harmony system.
#[derive(Clone, Copy, Debug, PartialEq, Eq, Structural)]
pub enum ChordQuality {
    Major,
    Minor,
    Dominant7,
    Diminished,
    Sus2,
}

/// Semitone intervals above the root for each chord type, root first.
pub open spec fn chord_intervals(t: ChordType) -> Seq<u8> {
    match t {
        ChordType::Major => seq![0u8, 4, 7],
        ChordType::Minor => seq![0u8, 3, 7],
        ChordType::Diminished => seq![0u8, 3, 6],
        ChordType::Augmented => seq![0u8, 4, 8],
        ChordType::Major7 => seq![0u8, 4, 7, 11],
        ChordType::Minor7 => seq![0u8, 3, 7, 10],
        ChordType::Dominant7 => seq![0u8, 4, 7, 10],
        ChordType::HalfDiminished => seq![0u8, 3, 6, 10],
        ChordType::Diminished7 => seq![0u8, 3, 6, 9],
        ChordType::MinorMajor7 => seq![0u8, 3, 7, 11],
        ChordType::Augmented7 => seq![0u8, 4, 8, 10],
        ChordType::Sus2 => seq![0u8, 2, 7],
        ChordType::Sus4 => seq![0u8, 5, 7],
        ChordType::Major6 => seq![0u8, 4, 7, 9],
        ChordType::Minor6 => seq![0u8, 3, 7, 9],
        ChordType::Add9 => seq![0u8, 4, 7, 2],
        ChordType::Dominant7Sus4 => seq![0u8, 5, 7, 10],
    }
}

/// The pitch class `semitones` above `root`.
pub open spec fn transpose_pc(root: int, semitones: int) -> u8 {
    ((root + semitones) % 12) as u8
}

/// The chord tones of a chord as pitch classes, in interval order.
pub open spec fn chord_pitch_classes(root: u8, t: ChordType) -> Seq<u8> {
    chord_intervals(t).map_values(|i: u8| transpose_pc(root as int, i as int))
}

/// Returns the semitone intervals of a chord type.
pub fn intervals_of(t: ChordType) -> (v: Vec<u8>)
    ensures
        v@ == chord_intervals(t),
{
    match t {
        ChordType::Major => vec![0, 4, 7],
        ChordType::Minor => vec![0, 3, 7],
        ChordType::Diminished => vec![0, 3, 6],
        ChordType::Augmented => vec![0, 4, 8],
        ChordType::Major7 => vec![0, 4, 7, 11],
        ChordType::Minor7 => vec![0, 3, 7, 10],
        ChordType::Dominant7 => vec![0, 4, 7, 10],
        ChordType::HalfDiminished => vec![0, 3, 6, 10],
        ChordType::Diminished7 => vec![0, 3, 6, 9],
        ChordType::MinorMajor7 => vec![0, 3, 7, 11],
        ChordType::Augmented7 => vec![0, 4, 8, 10],
        ChordType::Sus2 => vec![0, 2, 7],
        ChordType::Sus4 => vec![0, 5, 7],
        ChordType::Major6 => vec![0, 4, 7, 9],
        ChordType::Minor6 => vec![0, 3, 7, 9],
        ChordType::Add9 => vec![0, 4, 7, 2],
        ChordType::Dominant7Sus4 => vec![0, 5, 7, 10],
    }
}

/// Circular distance between two pitch classes, in semitones (0-6).
pub open spec fn pc_distance(a: int, b: int) -> int {
    let d = if a % 12 >= b % 12 { a % 12 - b % 12 } else { b % 12 - a % 12 };
    if d <= 6 { d } else { 12 - d }
}

/// Distance from a pitch class to the nearest pitch class of a set.
pub open spec fn nearest_distance(a: int, s: Seq<u8>) -> int
    decreases s.len(),
{
    if s.len() == 0 {
        0
    } else if s.len() == 1 {
        pc_distance(a, s[0] as int)
    } else {
        let rest = nearest_distance(a, s.drop_last());
        let here = pc_distance(a, s.last() as int);
        if here < rest { here } else { rest }
    }
}

/// Total voice-leading movement: each tone of `from` moves to the nearest
/// tone of `to`.
pub open spec fn total_movement(from: Seq<u8>, to: Seq<u8>) -> int
    decreases from.len(),
{
    if from.len() == 0 {
        0
    } else {
        total_movement(from.drop_last(), to) + nearest_distance(from.last() as int, to)
    }
}

proof fn lemma_nearest_bounds(a: int, s: Seq<u8>)
    ensures
        0 <= nearest_distance(a, s) <= 6,
    decreases s.len(),
{
    if s.len() > 1 {
        lemma_nearest_bounds(a, s.drop_last());
    }
}

proof fn lemma_total_bounds(from: Seq<u8>, to: Seq<u8>)
    ensures
        0 <= total_movement(from, to) <= 6 * from.len(),
    decreases from.len(),
{
    if from.len() > 0 {
        lemma_total_bounds(from.drop_last(), to);
        lemma_nearest_bounds(from.last() as int, to);
    }
}

/// Circular distance between two pitch classes.
pub fn pitch_class_distance(a: u8, b: u8) -> (d: u8)
    ensures
        d == pc_distance(a as int, b as int),
{
    let x = a % 12;
    let y = b % 12;
    let d = if x >= y { x - y } else { y - x };
    if d <= 6 { d } else { 12 - d }
}

/// A chord: a root pitch class and a chord type.
#[derive(Clone, Copy, Debug, PartialEq, Eq, Structural)]
pub struct Chord {
    pub root: PitchClass,
    pub chord_type: ChordType,
}

impl Chord {
    /// Creates a chord from its root and type.
    pub fn new(root: PitchClass, chord_type: ChordType) -> (c: Chord)
        ensures
            c.root == root,
            c.chord_type == chord_type,
    {
        Chord { root, chord_type }
    }

    /// The chord tones as pitch classes (0-11), root first, in interval order.
    pub fn pitch_classes(&self) -> (pcs: Vec<u8>)
        ensures
            pcs@ == chord_pitch_classes(self.root, self.chord_type),
    {
        let intervals = intervals_of(self.chord_type);
        let mut pcs: Vec<u8> = Vec::new();
        let mut i: usize = 0;
        while i < intervals.len()
            invariant
                i <= intervals@.len(),
                intervals@ == chord_intervals(self.chord_type),
                pcs@ == intervals@.take(i as int).map_values(
                    |x: u8| transpose_pc(self.root as int, x as int),
                ),
            decreases intervals.len() - i,
        {
            let pc = ((self.root as u16 + intervals[i] as u16) % 12) as u8;
            pcs.push(pc);
            i = i + 1;
            assert(intervals@.take(i as int).drop_last() =~= intervals@.take(i - 1));
            assert(pcs@ =~= intervals@.take(i as int).map_values(
                |x: u8| transpose_pc(self.root as int, x as int),
            ));
        }
        assert(intervals@.take(i as int) =~= intervals@);
        pcs
    }

    /// Voice-leading distance to another chord: the total number of
    /// semitones the tones of this chord move to reach the nearest tone of
    /// the other chord.
    pub fn voice_leading_distance(&self, other: &Chord) -> (d: usize)
        ensures
            d == total_movement(
                chord_pitch_classes(self.root, self.chord_type),
                chord_pitch_classes(other.root, other.chord_type),
            ),
    {
        let from = self.pitch_classes();
        let to = other.pitch_classes();
        let mut total: usize = 0;
        let mut i: usize = 0;
        proof {
            lemma_total_bounds(from@, to@);
        }
        while i < from.len()
            invariant
                i <= from@.len() <= 4,
                to@.len() >= 1,
                total == total_movement(from@.take(i as int), to@),
                total <= 6 * i,
            decreases from.len() - i,
        {
            let a = from[i];
            let mut best: u8 = pitch_class_distance(a, to[0]);
            let mut j: usize = 1;
            while j < to.len()
                invariant
                    1 <= j <= to@.len(),
                    best == nearest_distance(a as int, to@.take(j as int)),
                decreases to.len() - j,
            {
                let d = pitch_class_distance(a, to[j]);
                assert(to@.take(j + 1).drop_last() =~= to@.take(j as int));
                if d < best {
                    best = d;
                }
                j = j + 1;
            }
            assert(to@.take(j as int) =~= to@);
            proof {
                lemma_nearest_bounds(a as int, to@);
            }
            assert(from@.take(i + 1).drop_last() =~= from@.take(i as int));
            total = total + best as usize;
            i = i + 1;
        }
        assert(from@.take(i as int) =~= from@);
        total
    }
}

} // verus!
