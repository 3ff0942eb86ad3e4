//! The integer side of the melody navigator: the scale it walks, the chord
//! context, the Markov step tables and the step bookkeeping.
//!
//! Frequencies and random draws are floating point and stay outside; this
//! module decides on degrees, steps and MIDI note numbers.

use vstd::prelude::*;
use crate::chord::ChordQuality;
use rust_music_theory::note::{Notes, Pitch};
use rust_music_theory::scale::{Direction, Scale, ScaleType};

verus! {

/// A note name: a letter with an optional sharp (`s`) or flat (`b`).
#[derive(Clone, Copy, Debug, PartialEq, Eq, Structural)]
pub enum PitchName {
    Bs,
    C,
    Cs,
    Db,
    D,
    Ds,
    Eb,
    E,
    Es,
    F,
    Fs,
    Gb,
    G,
    Gs,
    Ab,
    A,
    As,
    Bb,
    B,
    Cb,
}

/// The scales the navigator can walk.
#[derive(Clone, Copy, Debug, PartialEq, Eq, Structural)]
pub enum ScaleKind {
    Diatonic,
    MelodicMinor,
    HarmonicMinor,
    PentatonicMajor,
    PentatonicMinor,
    Blues,
    Chromatic,
    WholeTone,
}

/// A note of a scale: its pitch class and its octave.
#[derive(Clone, Copy, Debug, PartialEq, Eq, Structural)]
pub struct ScaleNote {
    /// Pitch class, 0 = C
    pub pitch_class: u8,
    /// Octave in standard notation
    pub octave: u8,
}

/// The pitch class of a note name: its letter, raised a semitone by a
/// sharp and lowered by a flat, modulo twelve.
pub open spec fn name_class(p: PitchName) -> u8 {
    match p {
        PitchName::Bs => 0,
        PitchName::C => 0,
        PitchName::Cs => 1,
        PitchName::Db => 1,
        PitchName::D => 2,
        PitchName::Ds => 3,
        PitchName::Eb => 3,
        PitchName::E => 4,
        PitchName::Es => 5,
        PitchName::F => 5,
        PitchName::Fs => 6,
        PitchName::Gb => 6,
        PitchName::G => 7,
        PitchName::Gs => 8,
        PitchName::Ab => 8,
        PitchName::A => 9,
        PitchName::As => 10,
        PitchName::Bb => 10,
        PitchName::B => 11,
        PitchName::Cb => 11,
    }
}

impl PitchName {
    /// The pitch class of the note name (0 = C).
    pub fn pitch_class(self) -> (pc: u8)
        ensures
            pc == name_class(self),
            pc < 12,
    {
        match self {
            PitchName::Bs => 0,
            PitchName::C => 0,
            PitchName::Cs => 1,
            PitchName::Db => 1,
            PitchName::D => 2,
            PitchName::Ds => 3,
            PitchName::Eb => 3,
            PitchName::E => 4,
            PitchName::Es => 5,
            PitchName::F => 5,
            PitchName::Fs => 6,
            PitchName::Gb => 6,
            PitchName::G => 7,
            PitchName::Gs => 8,
            PitchName::Ab => 8,
            PitchName::A => 9,
            PitchName::As => 10,
            PitchName::Bb => 10,
            PitchName::B => 11,
            PitchName::Cb => 11,
        }
    }
}

/// The steps (in semitones) between the successive notes of a scale.
pub open spec fn kind_intervals(k: ScaleKind) -> Seq<int> {
    match k {
        ScaleKind::Diatonic => seq![2int, 2, 1, 2, 2, 2, 1],
        ScaleKind::HarmonicMinor => seq![2int, 1, 2, 2, 1, 3, 1],
        ScaleKind::MelodicMinor => seq![2int, 1, 2, 2, 2, 2, 1],
        ScaleKind::PentatonicMajor => seq![2int, 2, 3, 2, 3],
        ScaleKind::PentatonicMinor => seq![3int, 2, 2, 3, 2],
        ScaleKind::Blues => seq![3int, 2, 1, 1, 3, 2],
        ScaleKind::Chromatic => seq![1int, 1, 1, 1, 1, 1, 1, 1, 1, 1, 1, 1],
        ScaleKind::WholeTone => seq![2int, 2, 2, 2, 2, 2],
    }
}

/// Semitones from the root to the `i`-th note of a scale.
pub open spec fn offset_of(iv: Seq<int>, i: int) -> int
    decreases i,
{
    if i <= 0 {
        0
    } else {
        offset_of(iv, i - 1) + iv[i - 1]
    }
}

/// The ascending notes of the scale of `kind` on the pitch class `root`
/// from `octave`: the root, then one note per interval, the octave up to
/// the final root included, each as pitch class and octave.
pub open spec fn scale_notes(root: int, kind: ScaleKind, octave: int) -> Seq<ScaleNote> {
    Seq::new(
        kind_intervals(kind).len() + 1,
        |i: int|
            ScaleNote {
                pitch_class: ((root + offset_of(kind_intervals(kind), i)) % 12) as u8,
                octave: (octave + (root + offset_of(kind_intervals(kind), i)) / 12) as u8,
            },
    )
}

/// The notes `rust_music_theory` lists for the ascending scale of `kind` on
/// the pitch class `root_pc` at `octave` (`Scale::new(..).notes()`, root by
/// `Pitch::from_u8`), as pitch class and octave. The crate moves up each
/// interval by pitch class, carrying into the octave, and respells without
/// changing pitch classes; its interval tables are those of
/// `kind_intervals`, each within an octave, so `Scale::new` succeeds. The
/// octave is a byte: 255 would overflow on the carry.
#[verifier::external_body]
fn scale_notes_of(root_pc: u8, kind: ScaleKind, octave: u8) -> (notes: Vec<ScaleNote>)
    requires
        root_pc < 12,
        octave < 255,
    ensures
        notes@ == scale_notes(root_pc as int, kind, octave as int),
{
    let t = match kind {
        ScaleKind::Diatonic => ScaleType::Diatonic,
        ScaleKind::MelodicMinor => ScaleType::MelodicMinor,
        ScaleKind::HarmonicMinor => ScaleType::HarmonicMinor,
        ScaleKind::PentatonicMajor => ScaleType::PentatonicMajor,
        ScaleKind::PentatonicMinor => ScaleType::PentatonicMinor,
        ScaleKind::Blues => ScaleType::Blues,
        ScaleKind::Chromatic => ScaleType::Chromatic,
        ScaleKind::WholeTone => ScaleType::WholeTone,
    };
    let scale = Scale::new(t, Pitch::from_u8(root_pc), octave, None, Direction::Ascending).unwrap();
    scale.notes().iter().map(|n| ScaleNote { pitch_class: n.pitch.into_u8(), octave: n.octave }).collect()
}

/// Every scale has two to thirteen notes, all pitch classes.
proof fn lemma_scale_notes_shape(root: int, kind: ScaleKind, octave: int)
    ensures
        2 <= scale_notes(root, kind, octave).len() <= 13,
        forall|i: int|
            0 <= i < scale_notes(root, kind, octave).len() ==> #[trigger] scale_notes(
                root,
                kind,
                octave,
            )[i].pitch_class < 12,
{
    assert forall|i: int| 0 <= i < scale_notes(root, kind, octave).len() implies #[trigger] scale_notes(
        root,
        kind,
        octave,
    )[i].pitch_class < 12 by {
        let v = (root + offset_of(kind_intervals(kind), i)) % 12;
        assert(0 <= v < 12);
    }
}

/// Rust's remainder (truncating toward zero).
pub open spec fn trunc_rem(a: int, m: int) -> int {
    if a >= 0 {
        a % m
    } else {
        -((-a) % m)
    }
}

/// Rust's remainder, shifted up by the modulus when negative, is the
/// Euclidean remainder.
proof fn lemma_trunc_rem_euclid(a: int, n: int)
    requires
        n > 0,
    ensures
        0 <= a ==> trunc_rem(a, n) == a % n,
        a < 0 ==> -n < trunc_rem(a, n) <= 0,
        (if trunc_rem(a, n) < 0 { trunc_rem(a, n) + n } else { trunc_rem(a, n) }) == a % n,
{
    if a < 0 {
        let q = (-a) / n;
        let m = (-a) % n;
        vstd::arithmetic::div_mod::lemma_fundamental_div_mod(-a, n);
        if m == 0 {
            assert(a == (-q) * n + 0) by (nonlinear_arith)
                requires
                    -a == n * q + m,
                    m == 0,
            ;
            vstd::arithmetic::div_mod::lemma_fundamental_div_mod_converse(a, n, -q, 0);
        } else {
            assert(a == (-q - 1) * n + (n - m)) by (nonlinear_arith)
                requires
                    -a == n * q + m,
            ;
            vstd::arithmetic::div_mod::lemma_fundamental_div_mod_converse(a, n, -q - 1, n - m);
        }
    }
}

/// Chord-tone intervals (third, fifth, seventh) of a basic chord quality;
/// sus2 has no seventh.
pub open spec fn quality_intervals(q: ChordQuality) -> Seq<int> {
    match q {
        ChordQuality::Major => seq![0int, 4, 7, 11],
        ChordQuality::Minor => seq![0int, 3, 7, 10],
        ChordQuality::Dominant7 => seq![0int, 4, 7, 10],
        ChordQuality::Diminished => seq![0int, 3, 6, 9],
        ChordQuality::Sus2 => seq![0int, 2, 7],
    }
}

/// The chord notes recorded for a chord of quality `q` on `root_pc`:
/// `(root_pc + interval) % 12` as a byte, for each chord-tone interval.
pub open spec fn chord_context_notes(root_pc: int, q: ChordQuality) -> Seq<u8> {
    quality_intervals(q).map_values(|i: int| trunc_rem(root_pc + i, 12) as u8)
}

/// The Markov step table: candidate steps (in scale degrees) and their
/// weights, chosen by the position in the scale and the beat.
pub open spec fn step_table(
    is_tonic: bool,
    is_leading_tone: bool,
    is_chord_tone: bool,
    is_strong_beat: bool,
    octave_jump: int,
) -> (Seq<int>, Seq<u32>) {
    if is_tonic {
        if is_strong_beat {
            (
                seq![0int, 2, 4, -3, -5, 3, 5, octave_jump, -octave_jump],
                seq![5u32, 20, 18, 12, 8, 10, 7, 10, 10],
            )
        } else {
            (seq![1int, -1, 2, -2, 3, -3, 4, -4], seq![15u32, 15, 15, 15, 12, 12, 8, 8])
        }
    } else if is_leading_tone {
        (seq![1int, -1, -2, 2, -3, 3], seq![50u32, 15, 10, 10, 8, 7])
    } else if is_chord_tone {
        if is_strong_beat {
            (
                seq![0int, -2, 2, -4, 4, 1, -1, 3, -3, -5, 5, octave_jump, -octave_jump],
                seq![5u32, 14, 14, 10, 8, 8, 8, 8, 8, 5, 5, 4, 3],
            )
        } else {
            (
                seq![1int, -1, 2, -2, 3, -3, 4, -4, 5, -5],
                seq![14u32, 14, 14, 14, 10, 10, 8, 8, 4, 4],
            )
        }
    } else {
        (seq![1int, -1, 2, -2, 3, -3, 4, -4], seq![18u32, 18, 14, 14, 10, 10, 8, 8])
    }
}

/// A sequence of steps read as integers.
pub open spec fn steps_of(s: Seq<i32>) -> Seq<int> {
    s.map_values(|x: i32| x as int)
}

/// Sum of weights.
pub open spec fn weight_sum(w: Seq<u32>) -> int
    decreases w.len(),
{
    if w.len() == 0 {
        0
    } else {
        weight_sum(w.drop_last()) + w.last()
    }
}

/// `x` clamped to `[-bound, bound]`.
pub open spec fn clamp_range(x: int, bound: int) -> int {
    if x < -bound {
        -bound
    } else if x > bound {
        bound
    } else {
        x
    }
}

/// The sign of an integer: -1, 0 or 1.
pub open spec fn sign(x: int) -> int {
    if x > 0 {
        1
    } else if x < 0 {
        -1
    } else {
        0
    }
}

/// Temperley's gap fill after a Markov draw: after a leap of five degrees
/// or more, a further step in the same direction is replaced by a unit step
/// back.
pub open spec fn markov_gap_fill(last_step: int, chosen: int) -> int {
    if (last_step >= 5 || last_step <= -5) && sign(chosen) == sign(last_step) {
        if last_step > 0 {
            -1
        } else {
            1
        }
    } else {
        chosen
    }
}

/// The softened gap fill of the hybrid generator: only a leap of three
/// degrees or more, after a leap of five or more in the same direction, is
/// replaced by a unit step back.
pub open spec fn hybrid_gap_fill(last_step: int, chosen: int) -> int {
    if (last_step >= 5 || last_step <= -5) && (chosen >= 3 || chosen <= -3) && sign(chosen)
        == sign(last_step) {
        if chosen > 0 {
            -1
        } else {
            1
        }
    } else {
        chosen
    }
}

/// The run length after a nonzero step: extended when the step goes the
/// same way as the run, restarted otherwise.
pub open spec fn next_run(run: int, step: int) -> int {
    if step == 0 {
        run
    } else if sign(step) == sign(run) {
        run + sign(step)
    } else {
        sign(step)
    }
}

/// The step the hybrid generator takes after a draw, with the run length
/// it leaves: after six steps the same way, the run is broken by a reversal
/// of at most three degrees.
pub open spec fn hybrid_step(last_step: int, run: int, chosen: int) -> (int, int) {
    let step = hybrid_gap_fill(last_step, chosen);
    let r = next_run(run, step);
    if step != 0 && (r >= 6 || r <= -6) {
        (if step > 0 { -(if step < 3 { step } else { 3 }) } else { if -step < 3 { -step } else { 3 } }, 0)
    } else {
        (step, r)
    }
}

/// Floor division and Euclidean remainder, as a pair.
pub open spec fn euclid(index: int, len: int) -> (int, int) {
    (index / len, index % len)
}

/// The MIDI note of scale index `index`: the note `index mod len` of the
/// scale, shifted by `floor(index / len)` octaves.
pub open spec fn midi_note_of(notes: Seq<ScaleNote>, index: int) -> int {
    let (shift, r) = euclid(index, notes.len() as int);
    (notes[r].octave as int + shift + 1) * 12 + notes[r].pitch_class as int
}


/// Weight of the first `n` candidates.
pub open spec fn prefix_weight(w: Seq<u32>, n: int) -> int {
    weight_sum(w.take(n))
}

/// The first position at or after `i` whose running weight exceeds
/// `ticket`, or the length when there is none.
pub open spec fn pick_position(w: Seq<u32>, ticket: int, i: int) -> int
    decreases w.len() - i,
{
    if i >= w.len() || i < 0 {
        w.len() as int
    } else if ticket < prefix_weight(w, i + 1) {
        i
    } else {
        pick_position(w, ticket, i + 1)
    }
}

/// The candidate a cumulative draw selects: the first whose running weight
/// exceeds the ticket, the last one when none does, and the first (or 0)
/// when there are no candidates or no weight.
pub open spec fn weighted_choice(items: Seq<int>, w: Seq<u32>, ticket: int) -> int {
    if weight_sum(w) == 0 || items.len() == 0 {
        if items.len() == 0 {
            0
        } else {
            items[0]
        }
    } else {
        let p = pick_position(w, ticket, 0);
        if p < w.len() {
            items[p]
        } else {
            items.last()
        }
    }
}

/// Whether a draw can index its candidate: the position it selects, when
/// there is one, is a candidate.
pub open spec fn draw_in_range(items: Seq<int>, w: Seq<u32>, ticket: int) -> bool {
    weight_sum(w) == 0 || items.len() == 0 || pick_position(w, ticket, 0) >= w.len()
        || pick_position(w, ticket, 0) < items.len()
}

proof fn lemma_prefix_step(w: Seq<u32>, i: int)
    requires
        0 <= i < w.len(),
    ensures
        prefix_weight(w, i + 1) == prefix_weight(w, i) + w[i],
{
    assert(w.take(i + 1).drop_last() =~= w.take(i));
}

proof fn lemma_prefix_monotone(w: Seq<u32>, i: int, j: int)
    requires
        0 <= i <= j <= w.len(),
    ensures
        prefix_weight(w, i) <= prefix_weight(w, j),
    decreases j - i,
{
    if i < j {
        lemma_prefix_monotone(w, i, j - 1);
        lemma_prefix_step(w, j - 1);
    }
}

proof fn lemma_pick_bounds(w: Seq<u32>, ticket: int, i: int)
    requires
        0 <= i <= w.len(),
    ensures
        i <= pick_position(w, ticket, i) <= w.len(),
    decreases w.len() - i,
{
    if i < w.len() && ticket >= prefix_weight(w, i + 1) {
        lemma_pick_bounds(w, ticket, i + 1);
    }
}

proof fn lemma_pick_has_weight(w: Seq<u32>, ticket: int, i: int)
    requires
        0 <= i <= w.len(),
        prefix_weight(w, i) <= ticket < weight_sum(w),
    ensures
        pick_position(w, ticket, i) < w.len(),
        w[pick_position(w, ticket, i)] > 0,
    decreases w.len() - i,
{
    assert(w.take(w.len() as int) =~= w);
    if i == w.len() {
    } else {
        lemma_prefix_step(w, i);
        if ticket >= prefix_weight(w, i + 1) {
            lemma_pick_has_weight(w, ticket, i + 1);
        }
    }
}

/// A draw whose ticket lies below the total weight selects a candidate of
/// nonzero weight: a candidate weighted zero is never chosen.
pub proof fn lemma_draw_selects_weighted_candidate(items: Seq<int>, w: Seq<u32>, ticket: int)
    requires
        items.len() == w.len(),
        0 <= ticket < weight_sum(w),
    ensures
        pick_position(w, ticket, 0) < w.len(),
        w[pick_position(w, ticket, 0)] > 0,
        weighted_choice(items, w, ticket) == items[pick_position(w, ticket, 0)],
{
    assert(w.take(0) =~= Seq::<u32>::empty());
    lemma_pick_has_weight(w, ticket, 0);
}

/// Every step table offers one weight per step, and its weights add up
/// to one hundred.
pub proof fn lemma_step_table_weights(
    is_tonic: bool,
    is_leading_tone: bool,
    is_chord_tone: bool,
    is_strong_beat: bool,
    octave_jump: int,
)
    ensures
        step_table(is_tonic, is_leading_tone, is_chord_tone, is_strong_beat, octave_jump).0.len()
            == step_table(is_tonic, is_leading_tone, is_chord_tone, is_strong_beat, octave_jump).1.len(),
        weight_sum(
            step_table(is_tonic, is_leading_tone, is_chord_tone, is_strong_beat, octave_jump).1,
        ) == 100,
{
    reveal_with_fuel(weight_sum, 14);
}

/// The melody never leaves three octaves of scale degrees around the
/// tonic: a clamped position lies within the bound, and a position within
/// it is kept.
pub proof fn lemma_tessitura_bound(len: int, index: int)
    requires
        len >= 1,
    ensures
        -3 * len <= tessitura(len, index) <= 3 * len,
        -3 * len <= index <= 3 * len ==> tessitura(len, index) == index,
{
}

/// A chord context on a pitch class (a root from 0 up) holds pitch classes
/// only: each chord tone is the root plus its interval, modulo twelve.
pub proof fn lemma_chord_context_pitch_classes(root_pc: int, q: ChordQuality)
    requires
        0 <= root_pc,
    ensures
        forall|i: int|
            0 <= i < chord_context_notes(root_pc, q).len() ==> #[trigger] chord_context_notes(
                root_pc,
                q,
            )[i] == (root_pc + quality_intervals(q)[i]) % 12 && chord_context_notes(root_pc, q)[i]
                < 12,
{
    assert forall|i: int| 0 <= i < chord_context_notes(root_pc, q).len() implies #[trigger] chord_context_notes(
        root_pc,
        q,
    )[i] == (root_pc + quality_intervals(q)[i]) % 12 && chord_context_notes(root_pc, q)[i] < 12 by {
        assert(quality_intervals(q)[i] >= 0);
    }
}

/// The chord tones a chord context holds, by quality, for a root pitch
/// class `r`: a major seventh chord is root, major third, fifth and major
/// seventh (0, 4, 7, 11 semitones up); minor seventh 0, 3, 7, 10; dominant
/// seventh 0, 4, 7, 10; diminished seventh 0, 3, 6, 9; sus2 is the root,
/// the second and the fifth (0, 2, 7), with no seventh. A dominant seventh
/// shares its triad with the major seventh chord on the same root and its
/// seventh lies a semitone below the major seventh; a minor seventh chord
/// shares the dominant's seventh and fifth but has a minor third.
pub proof fn lemma_chord_context_tones(r: int)
    requires
        0 <= r,
    ensures
        chord_context_notes(r, ChordQuality::Major) == seq![
            (r % 12) as u8,
            ((r + 4) % 12) as u8,
            ((r + 7) % 12) as u8,
            ((r + 11) % 12) as u8,
        ],
        chord_context_notes(r, ChordQuality::Minor) == seq![
            (r % 12) as u8,
            ((r + 3) % 12) as u8,
            ((r + 7) % 12) as u8,
            ((r + 10) % 12) as u8,
        ],
        chord_context_notes(r, ChordQuality::Dominant7) == seq![
            (r % 12) as u8,
            ((r + 4) % 12) as u8,
            ((r + 7) % 12) as u8,
            ((r + 10) % 12) as u8,
        ],
        chord_context_notes(r, ChordQuality::Diminished) == seq![
            (r % 12) as u8,
            ((r + 3) % 12) as u8,
            ((r + 6) % 12) as u8,
            ((r + 9) % 12) as u8,
        ],
        chord_context_notes(r, ChordQuality::Sus2) == seq![
            (r % 12) as u8,
            ((r + 2) % 12) as u8,
            ((r + 7) % 12) as u8,
        ],
        chord_context_notes(r, ChordQuality::Dominant7).take(3) == chord_context_notes(
            r,
            ChordQuality::Major,
        ).take(3),
        (chord_context_notes(r, ChordQuality::Dominant7)[3] + 1) % 12 == chord_context_notes(
            r,
            ChordQuality::Major,
        )[3],
        chord_context_notes(r, ChordQuality::Dominant7)[3] != chord_context_notes(
            r,
            ChordQuality::Major,
        )[3],
        chord_context_notes(r, ChordQuality::Minor)[3] == chord_context_notes(
            r,
            ChordQuality::Dominant7,
        )[3],
        chord_context_notes(r, ChordQuality::Minor)[1] != chord_context_notes(
            r,
            ChordQuality::Dominant7,
        )[1],
{
    assert(chord_context_notes(r, ChordQuality::Major) =~= seq![
        (r % 12) as u8,
        ((r + 4) % 12) as u8,
        ((r + 7) % 12) as u8,
        ((r + 11) % 12) as u8,
    ]);
    assert(chord_context_notes(r, ChordQuality::Minor) =~= seq![
        (r % 12) as u8,
        ((r + 3) % 12) as u8,
        ((r + 7) % 12) as u8,
        ((r + 10) % 12) as u8,
    ]);
    assert(chord_context_notes(r, ChordQuality::Dominant7) =~= seq![
        (r % 12) as u8,
        ((r + 4) % 12) as u8,
        ((r + 7) % 12) as u8,
        ((r + 10) % 12) as u8,
    ]);
    assert(chord_context_notes(r, ChordQuality::Diminished) =~= seq![
        (r % 12) as u8,
        ((r + 3) % 12) as u8,
        ((r + 6) % 12) as u8,
        ((r + 9) % 12) as u8,
    ]);
    assert(chord_context_notes(r, ChordQuality::Sus2) =~= seq![
        (r % 12) as u8,
        ((r + 2) % 12) as u8,
        ((r + 7) % 12) as u8,
    ]);
    assert(chord_context_notes(r, ChordQuality::Dominant7).take(3) =~= chord_context_notes(
        r,
        ChordQuality::Major,
    ).take(3));
}

proof fn lemma_offsets(kind: ScaleKind, i: int)
    requires
        0 <= i <= kind_intervals(kind).len(),
    ensures
        0 <= offset_of(kind_intervals(kind), i) <= 12,
        i == kind_intervals(kind).len() ==> offset_of(kind_intervals(kind), i) == 12,
        i < kind_intervals(kind).len() ==> offset_of(kind_intervals(kind), i) < offset_of(
            kind_intervals(kind),
            i + 1,
        ),
{
    reveal_with_fuel(offset_of, 14);
    let iv = kind_intervals(kind);
    assert(offset_of(iv, iv.len() as int) == 12);
}

proof fn lemma_scale_midi(root: int, kind: ScaleKind, octave: int, index: int)
    requires
        0 <= root < 12,
        0 <= octave <= 254,
    ensures
        ({
            let notes = scale_notes(root, kind, octave);
            let n = notes.len() as int;
            midi_note_of(notes, index) == 12 * (octave + index / n + 1) + root + offset_of(
                kind_intervals(kind),
                index % n,
            )
        }),
{
    let notes = scale_notes(root, kind, octave);
    let n = notes.len() as int;
    lemma_scale_notes_shape(root, kind, octave);
    let r = index % n;
    lemma_offsets(kind, r);
    let v = root + offset_of(kind_intervals(kind), r);
    assert(0 <= v <= 23);
    assert(notes[r].pitch_class == v % 12);
    assert(notes[r].octave == octave + v / 12);
    assert(12 * (v / 12) + v % 12 == v);
}

/// Walking up the scale never lowers the note: the MIDI note at a scale
/// position is at most the one at the next position, equal only across the
/// octave seam, where the scale's last note (the root an octave up) meets
/// the next octave's root.
pub proof fn lemma_scale_climbs(root: int, kind: ScaleKind, octave: int, index: int)
    requires
        0 <= root < 12,
        0 <= octave <= 254,
    ensures
        midi_note_of(scale_notes(root, kind, octave), index) <= midi_note_of(
            scale_notes(root, kind, octave),
            index + 1,
        ),
        (midi_note_of(scale_notes(root, kind, octave), index) == midi_note_of(
            scale_notes(root, kind, octave),
            index + 1,
        )) == ((index + 1) % (scale_notes(root, kind, octave).len() as int) == 0),
{
    let notes = scale_notes(root, kind, octave);
    let n = notes.len() as int;
    lemma_scale_notes_shape(root, kind, octave);
    lemma_scale_midi(root, kind, octave, index);
    lemma_scale_midi(root, kind, octave, index + 1);
    let q = index / n;
    let r = index % n;
    vstd::arithmetic::div_mod::lemma_fundamental_div_mod(index, n);
    if r + 1 < n {
        vstd::arithmetic::div_mod::lemma_fundamental_div_mod_converse(index + 1, n, q, r + 1);
        lemma_offsets(kind, r);
        assert((index + 1) % n != 0);
    } else {
        assert(index + 1 == n * (q + 1) + 0) by (nonlinear_arith)
            requires
                index == n * q + r,
                r + 1 == n,
        ;
        vstd::arithmetic::div_mod::lemma_fundamental_div_mod_converse(index + 1, n, q + 1, 0);
        lemma_offsets(kind, r);
        lemma_offsets(kind, 0);
    }
}

/// Picks a candidate by cumulative weight: `ticket` is the whole part of
/// the random threshold (a uniform draw times the total weight); the first
/// candidate whose running weight exceeds it is chosen.
pub fn weighted_sample(items: &[i32], weights: &[u32], ticket: u64) -> (chosen: i32)
    requires
        weight_sum(weights@) <= u32::MAX,
        draw_in_range(steps_of(items@), weights@, ticket as int),
    ensures
        chosen == weighted_choice(steps_of(items@), weights@, ticket as int),
{
    let mut total: u32 = 0;
    let mut k: usize = 0;
    while k < weights.len()
        invariant
            k <= weights@.len(),
            total == prefix_weight(weights@, k as int),
            weight_sum(weights@) <= u32::MAX,
        decreases weights.len() - k,
    {
        proof {
            lemma_prefix_step(weights@, k as int);
            lemma_prefix_monotone(weights@, k + 1, weights@.len() as int);
            assert(weights@.take(weights@.len() as int) =~= weights@);
        }
        total = total + weights[k];
        k = k + 1;
    }
    assert(weights@.take(weights@.len() as int) =~= weights@);
    if total == 0 || items.len() == 0 {
        if items.len() == 0 {
            return 0;
        }
        return items[0];
    }
    let mut cumulative: u64 = 0;
    let mut i: usize = 0;
    while i < weights.len()
        invariant
            i <= weights@.len(),
            cumulative == prefix_weight(weights@, i as int),
            ticket >= cumulative,
            pick_position(weights@, ticket as int, 0) == pick_position(weights@, ticket as int, i as int),
            weight_sum(weights@) <= u32::MAX,
            weight_sum(weights@) != 0,
            items@.len() > 0,
            draw_in_range(steps_of(items@), weights@, ticket as int),
        decreases weights.len() - i,
    {
        proof {
            lemma_prefix_step(weights@, i as int);
            lemma_prefix_monotone(weights@, i + 1, weights@.len() as int);
            assert(weights@.take(weights@.len() as int) =~= weights@);
        }
        cumulative = cumulative + weights[i] as u64;
        if ticket < cumulative {
            assert(pick_position(weights@, ticket as int, i as int) == i);
            return items[i];
        }
        i = i + 1;
    }
    assert(pick_position(weights@, ticket as int, i as int) == weights@.len());
    items[items.len() - 1]
}

/// The integer state of the melody navigator.
pub struct HarmonyNavigator {
    scale_notes: Vec<ScaleNote>,
    current_index: i32,
    octave: i32,
    scale_len: usize,
    last_step: i32,
    current_chord_notes: Vec<u8>,
    global_key_root: u8,
    motif_buffer: Vec<i32>,
    motif_index: usize,
    playing_motif: bool,
    consecutive_direction: i32,
    chromatic_offset: i32,
    bars_in_register: u8,
}

/// How the motif is developed at the start of a measure.
pub enum MotifDevelopment {
    /// Replay the motif as it is
    Exact,
    /// Replay it with every interval reversed
    Invert,
    /// Replay its first half (at least one interval)
    Fragment,
    /// Replay it transposed by `shift` scale degrees
    Sequence { shift: i32 },
    /// Replay it with each interval nudged by the matching perturbation
    Embellish { perturbations: Vec<i32> },
    /// Forget it and generate new material
    NewMaterial,
}

/// The tessitura bound: three octaves of scale degrees either way.
pub open spec fn tessitura(len: int, index: int) -> int {
    clamp_range(index, 3 * len)
}

/// The register jump at a new measure: away from the current side when it
/// is more than an octave off the tonic, else in the drawn direction.
pub open spec fn register_jump(index: int, len: int, double_jump: bool, upward: bool) -> int {
    let size = if double_jump { 2 * len } else { len };
    if index > len {
        -size
    } else if index < -len {
        size
    } else if upward {
        size
    } else {
        -size
    }
}

/// The motif after a development choice.
pub open spec fn developed_motif(m: Seq<i32>, d: MotifDevelopment) -> Seq<i32> {
    match d {
        MotifDevelopment::Exact => m,
        MotifDevelopment::Invert => m.map_values(|s: i32| (-s) as i32),
        MotifDevelopment::Fragment => m.take(if m.len() / 2 >= 1 { (m.len() / 2) as int } else { 1 }),
        MotifDevelopment::Sequence { .. } => m,
        MotifDevelopment::Embellish { perturbations } => Seq::new(
            m.len(),
            |i: int| (m[i] + perturbations@[i]) as i32,
        ),
        MotifDevelopment::NewMaterial => Seq::empty(),
    }
}

/// Whether a development choice can be applied without overflow.
pub open spec fn development_fits(m: Seq<i32>, index: int, d: MotifDevelopment) -> bool {
    match d {
        MotifDevelopment::Invert => forall|i: int| 0 <= i < m.len() ==> #[trigger] m[i] > i32::MIN,
        MotifDevelopment::Sequence { shift } => i32::MIN <= index + shift <= i32::MAX,
        MotifDevelopment::Embellish { perturbations } => perturbations@.len() == m.len() && forall|
            i: int,
        |
            0 <= i < m.len() ==> i32::MIN <= #[trigger] m[i] + perturbations@[i] <= i32::MAX,
        _ => true,
    }
}

impl HarmonyNavigator {
    #[verifier::type_invariant]
    spec fn wf(self) -> bool {
        &&& self.scale_len == self.scale_notes@.len()
        &&& 1 <= self.scale_len <= 13
        &&& forall|i: int|
            0 <= i < self.scale_notes@.len() ==> #[trigger] self.scale_notes@[i].pitch_class < 12
        &&& -5 <= self.consecutive_direction <= 5
    }

    /// The notes of the scale the navigator walks.
    pub closed spec fn scale(&self) -> Seq<ScaleNote> {
        self.scale_notes@
    }

    /// Current position in scale degrees (0 = tonic of the base octave).
    pub closed spec fn index(&self) -> int {
        self.current_index as int
    }

    /// The base octave.
    pub closed spec fn base_octave(&self) -> int {
        self.octave as int
    }

    /// The last step taken.
    pub closed spec fn previous_step(&self) -> int {
        self.last_step as int
    }

    /// Pitch classes of the current chord.
    pub closed spec fn chord_notes(&self) -> Seq<u8> {
        self.current_chord_notes@
    }

    /// Tonic of the piece (0 = C).
    pub closed spec fn key_root(&self) -> u8 {
        self.global_key_root
    }

    /// The remembered motif, as a sequence of steps.
    pub closed spec fn motif(&self) -> Seq<i32> {
        self.motif_buffer@
    }

    /// Position of the next motif step to replay.
    pub closed spec fn motif_position(&self) -> int {
        self.motif_index as int
    }

    /// Whether the motif is being replayed.
    pub closed spec fn replaying(&self) -> bool {
        self.playing_motif
    }

    /// The signed run length of same-direction steps.
    pub closed spec fn run_length(&self) -> int {
        self.consecutive_direction as int
    }

    /// The chromatic offset (in semitones) waiting for the next note.
    pub closed spec fn pending_offset(&self) -> int {
        self.chromatic_offset as int
    }

    /// Bars spent in the current register.
    pub closed spec fn bars_in_register(&self) -> int {
        self.bars_in_register as int
    }

    /// Creates a navigator on the scale of `scale_type` rooted on
    /// `root_note` at `octave` (taken as a byte), starting at the tonic
    /// with the I maj7 chord (tonic, major third, fifth, major seventh) of
    /// the key as chord context.
    pub fn new(root_note: PitchName, scale_type: ScaleKind, octave: i32) -> (nav: Self)
        requires
            (octave as u8) < 255,
        ensures
            nav.scale() == scale_notes(name_class(root_note) as int, scale_type, (octave as u8) as int),
            nav.index() == 0,
            nav.base_octave() == octave,
            nav.previous_step() == 0,
            nav.run_length() == 0,
            nav.pending_offset() == 0,
            nav.bars_in_register() == 0,
            nav.motif().len() == 0,
            nav.motif_position() == 0,
            !nav.replaying(),
            nav.key_root() == name_class(root_note),
            nav.chord_notes() == seq![
                nav.key_root(),
                ((nav.key_root() + 4) % 12) as u8,
                ((nav.key_root() + 7) % 12) as u8,
                ((nav.key_root() + 11) % 12) as u8,
            ],
    {
        let k = root_note.pitch_class();
        let scale_notes = scale_notes_of(k, scale_type, octave as u8);
        let scale_len = scale_notes.len();
        proof {
            lemma_scale_notes_shape(k as int, scale_type, (octave as u8) as int);
        }
        let mut current_chord_notes: Vec<u8> = Vec::new();
        current_chord_notes.push(k % 12);
        current_chord_notes.push((k + 4) % 12);
        current_chord_notes.push((k + 7) % 12);
        current_chord_notes.push((k + 11) % 12);
        HarmonyNavigator {
            scale_notes,
            current_index: 0,
            octave,
            scale_len,
            last_step: 0,
            current_chord_notes,
            global_key_root: k,
            motif_buffer: Vec::new(),
            motif_index: 0,
            playing_motif: false,
            consecutive_direction: 0,
            chromatic_offset: 0,
            bars_in_register: 0,
        }
    }

    /// Current position in scale degrees.
    pub fn current_index(&self) -> (i: i32)
        ensures
            i == self.index(),
    {
        self.current_index
    }

    /// The base octave.
    pub fn octave(&self) -> (o: i32)
        ensures
            o == self.base_octave(),
    {
        self.octave
    }

    /// Tonic of the piece (0 = C).
    pub fn global_key_root(&self) -> (k: u8)
        ensures
            k == self.key_root(),
    {
        self.global_key_root
    }

    /// Pitch classes of the current chord.
    pub fn current_chord_notes(&self) -> (notes: &Vec<u8>)
        ensures
            notes@ == self.chord_notes(),
    {
        &self.current_chord_notes
    }

    /// Number of notes in the scale.
    pub fn scale_len(&self) -> (n: usize)
        ensures
            n == self.scale().len(),
    {
        proof {
            use_type_invariant(self);
        }
        self.scale_len
    }

    /// Number of steps in the remembered motif.
    pub fn motif_len(&self) -> (n: usize)
        ensures
            n == self.motif().len(),
    {
        self.motif_buffer.len()
    }

    /// Position of the next motif step to replay.
    pub fn motif_index(&self) -> (i: usize)
        ensures
            i == self.motif_position(),
    {
        self.motif_index
    }

    /// The remembered motif.
    pub fn motif_steps(&self) -> (m: &Vec<i32>)
        ensures
            m@ == self.motif(),
    {
        &self.motif_buffer
    }

    /// Sets the chord context: the chord tones of a chord of quality
    /// `quality` on the absolute pitch class `root_pc` (root, third, fifth
    /// and seventh; sus2 has root, second and fifth).
    pub fn set_chord_context(&mut self, root_pc: i32, quality: ChordQuality)
        requires
            root_pc <= i32::MAX - 11,
        ensures
            final(self).chord_notes() == chord_context_notes(root_pc as int, quality),
            final(self).index() == old(self).index(),
            final(self).base_octave() == old(self).base_octave(),
            final(self).key_root() == old(self).key_root(),
            final(self).scale() == old(self).scale(),
            final(self).previous_step() == old(self).previous_step(),
            final(self).run_length() == old(self).run_length(),
            final(self).motif() == old(self).motif(),
            final(self).motif_position() == old(self).motif_position(),
            final(self).replaying() == old(self).replaying(),
            final(self).pending_offset() == old(self).pending_offset(),
            final(self).bars_in_register() == old(self).bars_in_register(),
    {
        proof {
            use_type_invariant(&*self);
        }
        let (third, fifth, seventh): (i32, i32, i32) = match quality {
            ChordQuality::Major => (4, 7, 11),
            ChordQuality::Minor => (3, 7, 10),
            ChordQuality::Dominant7 => (4, 7, 10),
            ChordQuality::Diminished => (3, 6, 9),
            ChordQuality::Sus2 => (2, 7, 0),
        };
        let mut notes: Vec<u8> = Vec::new();
        notes.push((root_pc % 12) as u8);
        notes.push(((root_pc + third) % 12) as u8);
        notes.push(((root_pc + fifth) % 12) as u8);
        if quality != ChordQuality::Sus2 {
            notes.push(((root_pc + seventh) % 12) as u8);
        }
        assert(notes@ =~= chord_context_notes(root_pc as int, quality));
        self.current_chord_notes = notes;
    }

    /// Whether the scale note at `scale_degree` (taken modulo the scale
    /// length) has a pitch class of the current chord.
    pub fn is_in_current_chord(&self, scale_degree: i32) -> (b: bool)
        ensures
            b == self.chord_notes().contains(
                self.scale()[scale_degree as int % self.scale().len() as int].pitch_class,
            ),
    {
        proof {
            use_type_invariant(self);
        }
        let len = self.scale_len as i32;
        let r = scale_degree % len;
        proof {
            lemma_trunc_rem_euclid(scale_degree as int, len as int);
        }
        let index = if r < 0 { r + len } else { r };
        assert(index == scale_degree as int % self.scale().len() as int);
        let pitch_class = self.scale_notes[index as usize].pitch_class;
        let mut i: usize = 0;
        while i < self.current_chord_notes.len()
            invariant
                i <= self.current_chord_notes@.len(),
                forall|j: int| 0 <= j < i ==> self.current_chord_notes@[j] != pitch_class,
                pitch_class == self.scale()[scale_degree as int % self.scale().len() as int].pitch_class,
            decreases self.current_chord_notes.len() - i,
        {
            if self.current_chord_notes[i] == pitch_class {
                assert(self.current_chord_notes@[i as int] == pitch_class);
                return true;
            }
            i = i + 1;
        }
        false
    }

    /// The Markov table for the scale position `normalized_index`: the
    /// tonic, the leading tone of a seven-note scale, a chord tone or a
    /// passing tone, on a strong or a weak beat; octave leaps span the
    /// scale length.
    pub fn get_weighted_steps(&self, normalized_index: i32, is_strong_beat: bool) -> (table: (
        Vec<i32>,
        Vec<u32>,
    ))
        ensures
            steps_of(table.0@) == step_table(
                normalized_index == 0,
                self.scale().len() == 7 && normalized_index == 6,
                self.chord_notes().contains(
                    self.scale()[normalized_index as int % self.scale().len() as int].pitch_class,
                ),
                is_strong_beat,
                self.scale().len() as int,
            ).0,
            table.1@ == step_table(
                normalized_index == 0,
                self.scale().len() == 7 && normalized_index == 6,
                self.chord_notes().contains(
                    self.scale()[normalized_index as int % self.scale().len() as int].pitch_class,
                ),
                is_strong_beat,
                self.scale().len() as int,
            ).1,
    {
        proof {
            use_type_invariant(self);
        }
        let is_chord_tone = self.is_in_current_chord(normalized_index);
        let is_tonic = normalized_index == 0;
        let is_leading_tone = self.scale_len == 7 && normalized_index == 6;
        let j = self.scale_len as i32;
        let nj = -j;
        let (steps, weights): (Vec<i32>, Vec<u32>) = if is_tonic {
            if is_strong_beat {
                (vec![0, 2, 4, -3, -5, 3, 5, j, nj], vec![5, 20, 18, 12, 8, 10, 7, 10, 10])
            } else {
                (vec![1, -1, 2, -2, 3, -3, 4, -4], vec![15, 15, 15, 15, 12, 12, 8, 8])
            }
        } else if is_leading_tone {
            (vec![1, -1, -2, 2, -3, 3], vec![50, 15, 10, 10, 8, 7])
        } else if is_chord_tone {
            if is_strong_beat {
                (
                    vec![0, -2, 2, -4, 4, 1, -1, 3, -3, -5, 5, j, nj],
                    vec![5, 14, 14, 10, 8, 8, 8, 8, 8, 5, 5, 4, 3],
                )
            } else {
                (vec![1, -1, 2, -2, 3, -3, 4, -4, 5, -5], vec![14, 14, 14, 14, 10, 10, 8, 8, 4, 4])
            }
        } else {
            (vec![1, -1, 2, -2, 3, -3, 4, -4], vec![18, 18, 14, 14, 10, 10, 8, 8])
        };
        assert(steps_of(steps@) =~= step_table(
            is_tonic,
            is_leading_tone,
            is_chord_tone,
            is_strong_beat,
            self.scale_len as int,
        ).0);
        assert(weights@ =~= step_table(
            is_tonic,
            is_leading_tone,
            is_chord_tone,
            is_strong_beat,
            self.scale_len as int,
        ).1);
        (steps, weights)
    }

    /// The MIDI note at the current position: the scale note at the
    /// position modulo the scale length, shifted by whole octaves.
    pub fn midi_note(&self) -> (midi: i64)
        ensures
            midi == midi_note_of(self.scale(), self.index()),
            -30_000_000_000 <= midi <= 30_000_000_000,
    {
        proof {
            use_type_invariant(self);
        }
        let (shift, r) = euclid_div_rem(self.current_index, self.scale_len as i32);
        let note = self.scale_notes[r as usize];
        (note.octave as i64 + shift + 1) * 12 + note.pitch_class as i64
    }

    /// One Markov step: the table for the current scale position is drawn
    /// from with `ticket` (the whole part of a uniform draw times the total
    /// weight, which is one hundred), a leap continuing a leap of five
    /// degrees or more is turned back, and the position stays within three
    /// octaves. Returns the MIDI note reached.
    pub fn next_note(&mut self, is_strong_beat: bool, ticket: u64) -> (midi: i64)
        ensures
            ({
                let len = old(self).scale().len() as int;
                let n = old(self).index() % len;
                let t = step_table(
                    n == 0,
                    len == 7 && n == 6,
                    old(self).chord_notes().contains(old(self).scale()[n].pitch_class),
                    is_strong_beat,
                    len,
                );
                let step = markov_gap_fill(
                    old(self).previous_step(),
                    weighted_choice(t.0, t.1, ticket as int),
                );
                &&& final(self).previous_step() == step
                &&& final(self).index() == tessitura(len, old(self).index() + step)
            }),
            midi == midi_note_of(final(self).scale(), final(self).index()),
            final(self).scale() == old(self).scale(),
            final(self).chord_notes() == old(self).chord_notes(),
            final(self).key_root() == old(self).key_root(),
            final(self).base_octave() == old(self).base_octave(),
            final(self).run_length() == old(self).run_length(),
            final(self).motif() == old(self).motif(),
            final(self).motif_position() == old(self).motif_position(),
            final(self).replaying() == old(self).replaying(),
            final(self).pending_offset() == old(self).pending_offset(),
            final(self).bars_in_register() == old(self).bars_in_register(),
    {
        proof {
            use_type_invariant(&*self);
        }
        let len = self.scale_len as i32;
        let (_, n) = euclid_div_rem(self.current_index, len);
        let normalized = n as i32;
        let (steps, weights) = self.get_weighted_steps(normalized, is_strong_beat);
        proof {
            lemma_step_table_weights(
                normalized == 0,
                self.scale().len() == 7 && normalized == 6,
                self.chord_notes().contains(
                    self.scale()[normalized as int % self.scale().len() as int].pitch_class,
                ),
                is_strong_beat,
                self.scale().len() as int,
            );
            vstd::arithmetic::div_mod::lemma_small_mod(normalized as nat, len as nat);
            lemma_pick_bounds(weights@, ticket as int, 0);
        }
        let chosen = weighted_sample(steps.as_slice(), weights.as_slice(), ticket);
        let last = self.last_step;
        let step: i32 = if (last >= 5 || last <= -5) && signum(chosen) == signum(last) {
            if last > 0 {
                -1
            } else {
                1
            }
        } else {
            chosen
        };
        self.last_step = step;
        self.current_index = clamp_to_tessitura(self.current_index as i64 + step as i64, len);
        self.midi_note()
    }

    /// Applies a step: it becomes the last step, the position moves by it
    /// within three octaves, and a pending chromatic offset is spent.
    /// Returns the sounding MIDI note: the scale note plus that offset.
    pub fn apply_step(&mut self, step: i32) -> (midi: i64)
        ensures
            final(self).previous_step() == step,
            final(self).index() == tessitura(old(self).scale().len() as int, old(self).index() + step),
            final(self).pending_offset() == 0,
            midi == midi_note_of(final(self).scale(), final(self).index()) + old(self).pending_offset(),
            final(self).scale() == old(self).scale(),
            final(self).chord_notes() == old(self).chord_notes(),
            final(self).key_root() == old(self).key_root(),
            final(self).base_octave() == old(self).base_octave(),
            final(self).run_length() == old(self).run_length(),
            final(self).motif() == old(self).motif(),
            final(self).motif_position() == old(self).motif_position(),
            final(self).replaying() == old(self).replaying(),
            final(self).bars_in_register() == old(self).bars_in_register(),
    {
        proof {
            use_type_invariant(&*self);
        }
        self.last_step = step;
        let len = self.scale_len as i32;
        self.current_index = clamp_to_tessitura(self.current_index as i64 + step as i64, len);
        let offset = self.chromatic_offset;
        self.chromatic_offset = 0;
        self.midi_note() + offset as i64
    }

    /// Completes a hybrid step after the weighted draw `chosen`: a leap of
    /// three or more continuing a leap of five or more is turned into a unit
    /// step back, and a sixth step the same way is replaced by a reversal of
    /// at most three degrees, restarting the run count.
    pub fn finish_hybrid_step(&mut self, chosen: i32) -> (step: i32)
        ensures
            (step as int, final(self).run_length()) == hybrid_step(
                old(self).previous_step(),
                old(self).run_length(),
                chosen as int,
            ),
            final(self).index() == old(self).index(),
            final(self).previous_step() == old(self).previous_step(),
            final(self).scale() == old(self).scale(),
            final(self).chord_notes() == old(self).chord_notes(),
            final(self).key_root() == old(self).key_root(),
            final(self).base_octave() == old(self).base_octave(),
            final(self).motif() == old(self).motif(),
            final(self).motif_position() == old(self).motif_position(),
            final(self).replaying() == old(self).replaying(),
            final(self).pending_offset() == old(self).pending_offset(),
            final(self).bars_in_register() == old(self).bars_in_register(),
    {
        proof {
            use_type_invariant(&*self);
        }
        let last = self.last_step;
        let step: i32 = if (last >= 5 || last <= -5) && (chosen >= 3 || chosen <= -3) && signum(chosen)
            == signum(last) {
            if chosen > 0 {
                -1
            } else {
                1
            }
        } else {
            chosen
        };
        if step != 0 {
            let dir = signum(step);
            let run: i32 = if dir == signum(self.consecutive_direction) {
                self.consecutive_direction + dir
            } else {
                dir
            };
            if run >= 6 || run <= -6 {
                self.consecutive_direction = 0;
                let wide = step as i64;
                let back: i64 = if wide > 0 {
                    if wide < 3 {
                        -wide
                    } else {
                        -3
                    }
                } else {
                    if -wide < 3 {
                        -wide
                    } else {
                        3
                    }
                };
                return back as i32;
            }
            self.consecutive_direction = run;
        }
        step
    }

    /// The fractal move: toward `target_index` by at most `max_step`
    /// degrees.
    pub fn step_toward(&mut self, target_index: i32, max_step: i32)
        requires
            max_step >= 0,
        ensures
            final(self).index() == old(self).index() + clamp_range(
                target_index - old(self).index(),
                max_step as int,
            ),
            final(self).previous_step() == old(self).previous_step(),
            final(self).scale() == old(self).scale(),
            final(self).chord_notes() == old(self).chord_notes(),
            final(self).key_root() == old(self).key_root(),
            final(self).base_octave() == old(self).base_octave(),
            final(self).run_length() == old(self).run_length(),
            final(self).motif() == old(self).motif(),
            final(self).motif_position() == old(self).motif_position(),
            final(self).replaying() == old(self).replaying(),
            final(self).pending_offset() == old(self).pending_offset(),
            final(self).bars_in_register() == old(self).bars_in_register(),
    {
        proof {
            use_type_invariant(&*self);
        }
        let diff = target_index as i64 - self.current_index as i64;
        let bound = max_step as i64;
        let step: i64 = if diff < -bound {
            -bound
        } else if diff > bound {
            bound
        } else {
            diff
        };
        self.current_index = (self.current_index as i64 + step) as i32;
    }

    /// Counts a new bar in the current register and tells whether a
    /// register jump is due (three bars or more). The count wraps at 256.
    pub fn count_bar(&mut self) -> (due: bool)
        ensures
            final(self).bars_in_register() == (old(self).bars_in_register() + 1) % 256,
            due == (final(self).bars_in_register() >= 3),
            final(self).index() == old(self).index(),
            final(self).previous_step() == old(self).previous_step(),
            final(self).scale() == old(self).scale(),
            final(self).chord_notes() == old(self).chord_notes(),
            final(self).key_root() == old(self).key_root(),
            final(self).base_octave() == old(self).base_octave(),
            final(self).run_length() == old(self).run_length(),
            final(self).motif() == old(self).motif(),
            final(self).motif_position() == old(self).motif_position(),
            final(self).replaying() == old(self).replaying(),
            final(self).pending_offset() == old(self).pending_offset(),
    {
        proof {
            use_type_invariant(&*self);
        }
        self.bars_in_register = if self.bars_in_register == 255 {
            0
        } else {
            self.bars_in_register + 1
        };
        self.bars_in_register >= 3
    }

    /// Whether a register jump has its direction forced: the position is
    /// more than an octave away from the tonic.
    pub fn jump_direction_is_forced(&self) -> (forced: bool)
        ensures
            forced == (self.index() > self.scale().len() || self.index() < -(
            self.scale().len() as int)),
    {
        proof {
            use_type_invariant(self);
        }
        let octave = self.scale_len as i32;
        self.current_index > octave || self.current_index < -octave
    }

    /// Jumps one octave (two when `double_jump`) away from the side the
    /// position is on, or in the drawn direction near the tonic, within
    /// three octaves, and restarts the bar count.
    pub fn jump_register(&mut self, double_jump: bool, upward: bool)
        ensures
            final(self).index() == tessitura(
                old(self).scale().len() as int,
                old(self).index() + register_jump(
                    old(self).index(),
                    old(self).scale().len() as int,
                    double_jump,
                    upward,
                ),
            ),
            final(self).bars_in_register() == 0,
            final(self).previous_step() == old(self).previous_step(),
            final(self).scale() == old(self).scale(),
            final(self).chord_notes() == old(self).chord_notes(),
            final(self).key_root() == old(self).key_root(),
            final(self).base_octave() == old(self).base_octave(),
            final(self).run_length() == old(self).run_length(),
            final(self).motif() == old(self).motif(),
            final(self).motif_position() == old(self).motif_position(),
            final(self).replaying() == old(self).replaying(),
            final(self).pending_offset() == old(self).pending_offset(),
    {
        proof {
            use_type_invariant(&*self);
        }
        let octave = self.scale_len as i64;
        let size: i64 = if double_jump {
            octave * 2
        } else {
            octave
        };
        let index = self.current_index as i64;
        let jump: i64 = if index > octave {
            -size
        } else if index < -octave {
            size
        } else if upward {
            size
        } else {
            -size
        };
        self.current_index = clamp_to_tessitura(index + jump, self.scale_len as i32);
        self.bars_in_register = 0;
    }

    /// Develops the motif at the start of a measure and rewinds it. An
    /// empty motif is never replayed; otherwise the motif is transformed as
    /// chosen (a sequence also moves the position), and it is replayed
    /// unless new material was chosen.
    pub fn develop_motif(&mut self, development: MotifDevelopment)
        requires
            development_fits(old(self).motif(), old(self).index(), development),
        ensures
            final(self).motif_position() == 0,
            old(self).motif().len() == 0 ==> {
                &&& !final(self).replaying()
                &&& final(self).motif() == old(self).motif()
                &&& final(self).index() == old(self).index()
            },
            old(self).motif().len() > 0 ==> {
                &&& final(self).motif() == developed_motif(old(self).motif(), development)
                &&& final(self).replaying() == !(development is NewMaterial)
                &&& final(self).index() == old(self).index() + match development {
                    MotifDevelopment::Sequence { shift } => shift as int,
                    _ => 0int,
                }
            },
            final(self).previous_step() == old(self).previous_step(),
            final(self).scale() == old(self).scale(),
            final(self).chord_notes() == old(self).chord_notes(),
            final(self).key_root() == old(self).key_root(),
            final(self).base_octave() == old(self).base_octave(),
            final(self).run_length() == old(self).run_length(),
            final(self).pending_offset() == old(self).pending_offset(),
            final(self).bars_in_register() == old(self).bars_in_register(),
    {
        proof {
            use_type_invariant(&*self);
        }
        self.motif_index = 0;
        if self.motif_buffer.len() == 0 {
            self.playing_motif = false;
            return;
        }
        let ghost m = self.motif_buffer@;
        match development {
            MotifDevelopment::Exact => {
                self.playing_motif = true;
            },
            MotifDevelopment::Invert => {
                let mut out: Vec<i32> = Vec::new();
                let mut i: usize = 0;
                while i < self.motif_buffer.len()
                    invariant
                        i <= m.len(),
                        self.motif_buffer@ == m,
                        out@ == m.take(i as int).map_values(|s: i32| (-s) as i32),
                        forall|k: int| 0 <= k < m.len() ==> #[trigger] m[k] > i32::MIN,
                    decreases m.len() - i,
                {
                    out.push(-self.motif_buffer[i]);
                    assert(m.take(i + 1) =~= m.take(i as int).push(m[i as int]));
                    assert(out@ =~= m.take(i + 1).map_values(|s: i32| (-s) as i32));
                    i = i + 1;
                }
                assert(m.take(m.len() as int) =~= m);
                self.motif_buffer = out;
                self.playing_motif = true;
            },
            MotifDevelopment::Fragment => {
                let half = self.motif_buffer.len() / 2;
                let keep = if half >= 1 {
                    half
                } else {
                    1
                };
                let mut kept: Vec<i32> = Vec::new();
                let mut i: usize = 0;
                while i < keep
                    invariant
                        i <= keep <= m.len(),
                        self.motif_buffer@ == m,
                        kept@ == m.take(i as int),
                    decreases keep - i,
                {
                    kept.push(self.motif_buffer[i]);
                    assert(m.take(i + 1) =~= m.take(i as int).push(m[i as int]));
                    i = i + 1;
                }
                self.motif_buffer = kept;
                self.playing_motif = true;
            },
            MotifDevelopment::Sequence { shift } => {
                self.current_index = self.current_index + shift;
                self.playing_motif = true;
            },
            MotifDevelopment::Embellish { perturbations } => {
                let mut out: Vec<i32> = Vec::new();
                let mut i: usize = 0;
                while i < self.motif_buffer.len()
                    invariant
                        i <= m.len(),
                        self.motif_buffer@ == m,
                        perturbations@.len() == m.len(),
                        forall|k: int|
                            0 <= k < m.len() ==> i32::MIN <= #[trigger] m[k] + perturbations@[k]
                                <= i32::MAX,
                        out@.len() == i,
                        forall|k: int| 0 <= k < i ==> #[trigger] out@[k] == m[k] + perturbations@[k],
                    decreases m.len() - i,
                {
                    out.push(self.motif_buffer[i] + perturbations[i]);
                    i = i + 1;
                }
                assert(out@ =~= developed_motif(m, MotifDevelopment::Embellish { perturbations }));
                self.motif_buffer = out;
                self.playing_motif = true;
            },
            MotifDevelopment::NewMaterial => {
                self.motif_buffer = Vec::new();
                self.playing_motif = false;
            },
        }
    }

    /// The motif step to replay next, when the motif is being replayed and
    /// not yet exhausted.
    pub fn motif_step(&self) -> (step: Option<i32>)
        ensures
            step == (if self.replaying() && self.motif_position() < self.motif().len() {
                Some(self.motif()[self.motif_position()])
            } else {
                None
            }),
    {
        if self.playing_motif && self.motif_index < self.motif_buffer.len() {
            Some(self.motif_buffer[self.motif_index])
        } else {
            None
        }
    }

    /// Records a freshly generated step in the motif, unless the motif is
    /// being replayed.
    pub fn remember_step(&mut self, step: i32)
        ensures
            final(self).motif() == (if old(self).replaying() {
                old(self).motif()
            } else {
                old(self).motif().push(step)
            }),
            final(self).motif_position() == old(self).motif_position(),
            final(self).replaying() == old(self).replaying(),
            final(self).index() == old(self).index(),
            final(self).previous_step() == old(self).previous_step(),
            final(self).scale() == old(self).scale(),
            final(self).chord_notes() == old(self).chord_notes(),
            final(self).key_root() == old(self).key_root(),
            final(self).base_octave() == old(self).base_octave(),
            final(self).run_length() == old(self).run_length(),
            final(self).pending_offset() == old(self).pending_offset(),
            final(self).bars_in_register() == old(self).bars_in_register(),
    {
        proof {
            use_type_invariant(&*self);
        }
        if !self.playing_motif {
            let mut motif: Vec<i32> = Vec::new();
            std::mem::swap(&mut motif, &mut self.motif_buffer);
            motif.push(step);
            self.motif_buffer = motif;
        }
    }

    /// The chromatic offset of a structured note: none on a strong beat or
    /// when no passing tone was drawn; otherwise a semitone up or down.
    pub fn chromatic_offset(is_strong_beat: bool, passing: bool, upward: bool) -> (offset: i32)
        ensures
            offset == if is_strong_beat || !passing {
                0i32
            } else if upward {
                1i32
            } else {
                -1i32
            },
            -1 <= offset <= 1,
            is_strong_beat ==> offset == 0,
    {
        if is_strong_beat || !passing {
            0
        } else if upward {
            1
        } else {
            -1
        }
    }

    /// Ends a structured note: the chromatic offset drawn for it is set,
    /// the motif advances, and the step is applied. Returns the sounding
    /// MIDI note, the offset included.
    pub fn finish_structured_note(&mut self, step: i32, chromatic_offset: i32) -> (midi: i64)
        requires
            old(self).motif_position() < usize::MAX,
        ensures
            final(self).motif_position() == old(self).motif_position() + 1,
            final(self).previous_step() == step,
            final(self).index() == tessitura(old(self).scale().len() as int, old(self).index() + step),
            final(self).pending_offset() == 0,
            midi == midi_note_of(final(self).scale(), final(self).index()) + chromatic_offset,
            final(self).motif() == old(self).motif(),
            final(self).replaying() == old(self).replaying(),
            final(self).scale() == old(self).scale(),
            final(self).chord_notes() == old(self).chord_notes(),
            final(self).key_root() == old(self).key_root(),
            final(self).base_octave() == old(self).base_octave(),
            final(self).run_length() == old(self).run_length(),
            final(self).bars_in_register() == old(self).bars_in_register(),
    {
        proof {
            use_type_invariant(&*self);
        }
        self.chromatic_offset = chromatic_offset;
        self.motif_index = self.motif_index + 1;
        self.apply_step(step)
    }
}

/// The sign of an integer.
fn signum(x: i32) -> (s: i32)
    ensures
        s == sign(x as int),
{
    if x > 0 {
        1
    } else if x < 0 {
        -1
    } else {
        0
    }
}

/// A position clamped to three octaves of a scale of `len` notes.
fn clamp_to_tessitura(index: i64, len: i32) -> (clamped: i32)
    requires
        1 <= len <= 13,
    ensures
        clamped == tessitura(len as int, index as int),
{
    let bound = len as i64 * 3;
    if index < -bound {
        (-bound) as i32
    } else if index > bound {
        bound as i32
    } else {
        index as i32
    }
}

/// Floor division and Euclidean remainder of `a` by a positive `n`.
fn euclid_div_rem(a: i32, n: i32) -> (qr: (i64, i64))
    requires
        n > 0,
    ensures
        qr.0 == (a as int) / (n as int),
        qr.1 == (a as int) % (n as int),
        0 <= qr.1 < n,
        -2_147_483_649 <= qr.0 <= 2_147_483_647,
{
    let an = a as i64;
    let nn = n as i64;
    if an >= 0 {
        let q = (an as u64 / nn as u64) as i64;
        let r = (an as u64 % nn as u64) as i64;
        proof {
            vstd::arithmetic::div_mod::lemma_fundamental_div_mod(an as int, n as int);
            assert(q <= an) by (nonlinear_arith)
                requires
                    an == n * q + r,
                    r >= 0,
                    n >= 1,
                    q >= 0,
            ;
        }
        (q, r)
    } else {
        let pos = (-an) as u64;
        let d = pos / nn as u64;
        let m = pos % nn as u64;
        proof {
            vstd::arithmetic::div_mod::lemma_fundamental_div_mod(pos as int, n as int);
            assert(d <= pos) by (nonlinear_arith)
                requires
                    pos == n * d + m,
                    m >= 0,
                    n >= 1,
                    d >= 0,
            ;
        }
        if m == 0 {
            proof {
                assert(an == (-(d as int)) * n + 0) by (nonlinear_arith)
                    requires
                        pos == n * d + m,
                        m == 0,
                        an == -pos,
                ;
                vstd::arithmetic::div_mod::lemma_fundamental_div_mod_converse(
                    an as int,
                    n as int,
                    -(d as int),
                    0,
                );
            }
            (-(d as i64), 0)
        } else {
            proof {
                assert(an == (-(d as int) - 1) * n + (n - m)) by (nonlinear_arith)
                    requires
                        pos == n * d + m,
                        an == -pos,
                ;
                vstd::arithmetic::div_mod::lemma_fundamental_div_mod_converse(
                    an as int,
                    n as int,
                    -(d as int) - 1,
                    n - m,
                );
            }
            (-(d as i64) - 1, nn - m as i64)
        }
    }
}

} // verus!
