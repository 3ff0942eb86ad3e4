//! Decisions of the measure generator that compute on plain values: chord
//! naming and the length of lead notes.

use vstd::prelude::*;
use vstd::string::*;
use crate::chord::{Chord, ChordQuality};
use crate::melody::trunc_rem;

verus! {

/// The Roman numeral of a chord root offset from the key.
pub open spec fn roman_numeral(root_offset: i32) -> Seq<char> {
    if root_offset == 0 { "I"@ }
    else if root_offset == 2 { "II"@ }
    else if root_offset == 3 { "III"@ }
    else if root_offset == 5 { "IV"@ }
    else if root_offset == 7 { "V"@ }
    else if root_offset == 8 { "VI"@ }
    else if root_offset == 9 { "vi"@ }
    else if root_offset == 10 { "VII"@ }
    else if root_offset == 11 { "vii"@ }
    else { "?"@ }
}

/// The suffix written for a chord quality.
pub open spec fn quality_symbol(q: ChordQuality) -> Seq<char> {
    match q {
        ChordQuality::Major => ""@,
        ChordQuality::Minor => "m"@,
        ChordQuality::Dominant7 => "7"@,
        ChordQuality::Diminished => "°"@,
        ChordQuality::Sus2 => "sus2"@,
    }
}

fn roman_str(root_offset: i32) -> (s: &'static str)
    ensures
        s@ == roman_numeral(root_offset),
{
    match root_offset {
        0 => "I",
        2 => "II",
        3 => "III",
        5 => "IV",
        7 => "V",
        8 => "VI",
        9 => "vi",
        10 => "VII",
        11 => "vii",
        _ => "?",
    }
}

fn quality_str(quality: ChordQuality) -> (s: &'static str)
    ensures
        s@ == quality_symbol(quality),
{
    match quality {
        ChordQuality::Major => "",
        ChordQuality::Minor => "m",
        ChordQuality::Dominant7 => "7",
        ChordQuality::Diminished => "°",
        ChordQuality::Sus2 => "sus2",
    }
}

/// Formats a chord name as a Roman numeral (by root offset from the key)
/// followed by the quality's symbol.
pub fn format_chord_name(root_offset: i32, quality: ChordQuality) -> (name: String)
    ensures
        name@ == roman_numeral(root_offset) + quality_symbol(quality),
{
    let mut name = String::from_str(roman_str(root_offset));
    name.append(quality_str(quality));
    name
}

/// The root offsets that have a Roman numeral: the degrees of the key
/// (0, 2, 3, 5, 7, 8, 9, 10, 11 semitones above it).
pub open spec fn named_offset(o: i32) -> bool {
    o == 0 || o == 2 || o == 3 || o == 5 || o == 7 || o == 8 || o == 9 || o == 10 || o == 11
}

/// Chord names read the root as a degree of the key: the tonic is "I", the
/// fourth (5 semitones up) "IV", the fifth (7) "V", and so on; offsets
/// without a numeral are "?". Different named offsets never share a
/// numeral, so the name gives back the offset.
pub proof fn lemma_roman_numerals_name_degrees(o1: i32, o2: i32)
    ensures
        roman_numeral(0) == "I"@,
        roman_numeral(2) == "II"@,
        roman_numeral(3) == "III"@,
        roman_numeral(5) == "IV"@,
        roman_numeral(7) == "V"@,
        roman_numeral(8) == "VI"@,
        roman_numeral(9) == "vi"@,
        roman_numeral(10) == "VII"@,
        roman_numeral(11) == "vii"@,
        !named_offset(o1) ==> roman_numeral(o1) == "?"@,
        named_offset(o1) && named_offset(o2) && o1 != o2 ==> roman_numeral(o1) != roman_numeral(o2),
        named_offset(o1) ==> roman_numeral(o1) != "?"@,
{
    reveal_strlit("I");
    reveal_strlit("II");
    reveal_strlit("III");
    reveal_strlit("IV");
    reveal_strlit("V");
    reveal_strlit("VI");
    reveal_strlit("vi");
    reveal_strlit("VII");
    reveal_strlit("vii");
    reveal_strlit("?");
    if named_offset(o1) {
        assert(roman_numeral(o1)[0] != '?');
    }
    if named_offset(o1) && named_offset(o2) && o1 != o2 {
        let a = roman_numeral(o1);
        let b = roman_numeral(o2);
        if a.len() == b.len() {
            if a.len() == 1 {
                assert(a[0] != b[0]);
            } else if a.len() == 2 {
                assert(a[0] != b[0] || a[1] != b[1]);
            } else {
                assert(a[0] != b[0] || a[1] != b[1] || a[2] != b[2]);
            }
        }
    }
}

/// Note durations in steps that notation can write exactly (for four steps
/// per beat), longest first: whole, dotted half, half, dotted quarter,
/// quarter, dotted eighth, eighth, sixteenth.
pub open spec fn notation_safe_steps() -> Seq<usize> {
    seq![16usize, 12, 8, 6, 4, 3, 2, 1]
}

/// The longest notation-safe duration that fits in `raw` steps, or 1 when
/// none does.
pub open spec fn notation_clamp(raw: int) -> usize {
    if raw >= 16 { 16 }
    else if raw >= 12 { 12 }
    else if raw >= 8 { 8 }
    else if raw >= 6 { 6 }
    else if raw >= 4 { 4 }
    else if raw >= 3 { 3 }
    else if raw >= 2 { 2 }
    else { 1 }
}

/// Whether a lead trigger at `step` would sound: the pattern has a lead
/// there (no lead past its end), and it is not silenced by the fill zone at
/// high tension.
pub open spec fn lead_would_play(
    lead_pattern: Seq<bool>,
    step: int,
    is_high_tension: bool,
    fill_zone_start: int,
) -> bool {
    &&& step < lead_pattern.len()
    &&& lead_pattern[step]
    &&& !(is_high_tension && step >= fill_zone_start)
}

/// Steps from `current` to the next sounding lead trigger searched from
/// `from` on, or to the end of the bar when there is none.
pub open spec fn gap_to_next_lead(
    lead_pattern: Seq<bool>,
    current: int,
    from: int,
    total: int,
    is_high_tension: bool,
    fill_zone_start: int,
) -> int
    decreases total - from,
{
    if from >= total {
        total - current
    } else if lead_would_play(lead_pattern, from, is_high_tension, fill_zone_start) {
        from - current
    } else {
        gap_to_next_lead(lead_pattern, current, from + 1, total, is_high_tension, fill_zone_start)
    }
}

/// Duration of a lead note at `current_step`: the steps until the next
/// sounding lead trigger (or the end of the bar), clamped down to the
/// longest notation-safe duration that fits.
pub fn calculate_lead_duration(
    current_step: usize,
    total_steps: usize,
    lead_pattern: &[bool],
    is_high_tension: bool,
    fill_zone_start: usize,
) -> (d: usize)
    requires
        current_step <= total_steps,
        current_step < usize::MAX,
    ensures
        d == notation_clamp(
            gap_to_next_lead(
                lead_pattern@,
                current_step as int,
                current_step + 1,
                total_steps as int,
                is_high_tension,
                fill_zone_start as int,
            ),
        ),
{
    let ghost gap = gap_to_next_lead(
        lead_pattern@,
        current_step as int,
        current_step + 1,
        total_steps as int,
        is_high_tension,
        fill_zone_start as int,
    );
    let mut future_step = current_step + 1;
    let mut raw: usize = total_steps - current_step;
    while future_step < total_steps
        invariant_except_break
            current_step < future_step,
            current_step <= total_steps,
            raw == total_steps - current_step,
            gap == gap_to_next_lead(
                lead_pattern@,
                current_step as int,
                future_step as int,
                total_steps as int,
                is_high_tension,
                fill_zone_start as int,
            ),
        ensures
            raw == gap,
        decreases total_steps - future_step,
    {
        let lead = if future_step < lead_pattern.len() { lead_pattern[future_step] } else { false };
        let would_play = lead && !(is_high_tension && future_step >= fill_zone_start);
        if would_play {
            raw = future_step - current_step;
            break;
        }
        future_step = future_step + 1;
    }
    notation_safe_duration(raw)
}

/// The longest notation-safe duration that fits in `raw` steps, or 1 when
/// none does.
pub fn notation_safe_duration(raw: usize) -> (d: usize)
    ensures
        d == notation_clamp(raw as int),
{
    if raw >= 16 { 16 }
    else if raw >= 12 { 12 }
    else if raw >= 8 { 8 }
    else if raw >= 6 { 6 }
    else if raw >= 4 { 4 }
    else if raw >= 3 { 3 }
    else if raw >= 2 { 2 }
    else { 1 }
}

/// A lead note's duration is always notation-safe and never exceeds the
/// gap it fills (when the gap is at least one step).
pub proof fn lemma_lead_duration_notation_safe(raw: int)
    ensures
        notation_safe_steps().contains(notation_clamp(raw)),
        raw >= 1 ==> notation_clamp(raw) <= raw,
        1 <= notation_clamp(raw) <= 16,
{
    let s = notation_safe_steps();
    let c = notation_clamp(raw);
    if c == 16 { assert(s[0] == c); }
    else if c == 12 { assert(s[1] == c); }
    else if c == 8 { assert(s[2] == c); }
    else if c == 6 { assert(s[3] == c); }
    else if c == 4 { assert(s[4] == c); }
    else if c == 3 { assert(s[5] == c); }
    else if c == 2 { assert(s[6] == c); }
    else { assert(s[7] == c); }
}

/// The quarter-note fill of a long gap: quarters, then what is left.
pub open spec fn quarters(gap: nat) -> Seq<usize>
    decreases gap,
{
    if gap == 0 {
        Seq::empty()
    } else if gap >= 4 {
        seq![4usize] + quarters((gap - 4) as nat)
    } else {
        seq![gap as usize]
    }
}

/// Sum of step durations.
pub open spec fn total_steps(s: Seq<usize>) -> int
    decreases s.len(),
{
    if s.len() == 0 {
        0
    } else {
        s[0] + total_steps(s.drop_first())
    }
}

/// A long gap filled with quarter notes (four steps each), the last one
/// shortened to what remains.
pub fn quarter_fill(gap: usize) -> (cell: Vec<usize>)
    ensures
        cell@ == quarters(gap as nat),
{
    let mut cell: Vec<usize> = Vec::new();
    let mut remaining = gap;
    while remaining > 0
        invariant
            remaining <= gap,
            cell@ + quarters(remaining as nat) == quarters(gap as nat),
        decreases remaining,
    {
        let dur = if remaining >= 4 {
            4
        } else {
            remaining
        };
        let ghost before = cell@;
        cell.push(dur);
        remaining = remaining - dur;
        assert(cell@ + quarters(remaining as nat) =~= before + quarters((remaining + dur) as nat));
    }
    assert(cell@ + quarters(0) =~= cell@);
    cell
}

/// A quarter-note fill adds up to the gap, with notes of one to four steps.
pub proof fn lemma_quarter_fill(gap: nat)
    ensures
        total_steps(quarters(gap)) == gap,
        forall|i: int| 0 <= i < quarters(gap).len() ==> 1 <= #[trigger] quarters(gap)[i] <= 4,
    decreases gap,
{
    if gap >= 4 {
        lemma_quarter_fill((gap - 4) as nat);
        let q = quarters(gap);
        assert(q =~= seq![4usize] + quarters((gap - 4) as nat));
        assert(q.drop_first() =~= quarters((gap - 4) as nat));
        assert(q[0] == 4);
        assert(total_steps(q) == q[0] + total_steps(q.drop_first()));
        assert forall|i: int| 0 <= i < quarters(gap).len() implies 1 <= #[trigger] quarters(
            gap,
        )[i] <= 4 by {
            if i > 0 {
                assert(quarters(gap)[i] == quarters((gap - 4) as nat)[i - 1]);
            }
        }
    } else if gap > 0 {
        let q = quarters(gap);
        assert(q =~= seq![gap as usize]);
        assert(q.drop_first() =~= Seq::<usize>::empty());
        assert(total_steps(q.drop_first()) == 0);
        assert(total_steps(q) == q[0] + total_steps(q.drop_first()));
    } else {
        assert(total_steps(quarters(gap)) == 0);
    }
}

/// The notes of a rhythmic cell laid out in a gap: each duration from the
/// offset reached so far, cut at the end of the gap, until the gap is full.
pub open spec fn cell_layout(cell: Seq<usize>, gap: int, offset: int) -> Seq<(int, int)>
    decreases cell.len(),
{
    if cell.len() == 0 || offset >= gap {
        Seq::empty()
    } else {
        seq![(offset, if cell[0] <= gap - offset { cell[0] as int } else { gap - offset })]
            + cell_layout(cell.drop_first(), gap, offset + cell[0])
    }
}

/// Lays out a rhythmic cell in the gap that starts at `step`: the start
/// step and duration of each note, in order.
pub fn lay_out_cell(step: usize, gap: usize, cell: &[usize]) -> (notes: Vec<(usize, usize)>)
    requires
        step + gap <= usize::MAX,
        forall|i: int| 0 <= i < cell@.len() ==> #[trigger] cell@[i] <= usize::MAX - gap,
    ensures
        notes@.len() == cell_layout(cell@, gap as int, 0).len(),
        forall|i: int|
            0 <= i < notes@.len() ==> (#[trigger] notes@[i]).0 == step + cell_layout(
                cell@,
                gap as int,
                0,
            )[i].0 && notes@[i].1 == cell_layout(cell@, gap as int, 0)[i].1,
{
    let mut notes: Vec<(usize, usize)> = Vec::new();
    let mut offset: usize = 0;
    let mut i: usize = 0;
    assert(cell@.skip(0) =~= cell@);
    while i < cell.len()
        invariant_except_break
            i <= cell@.len(),
            offset < gap || i == 0,
            step + gap <= usize::MAX,
            forall|k: int| 0 <= k < cell@.len() ==> #[trigger] cell@[k] <= usize::MAX - gap,
            notes@.len() + cell_layout(cell@.skip(i as int), gap as int, offset as int).len()
                == cell_layout(cell@, gap as int, 0).len(),
            forall|k: int|
                0 <= k < notes@.len() ==> (#[trigger] notes@[k]).0 == step + cell_layout(
                    cell@,
                    gap as int,
                    0,
                )[k].0 && notes@[k].1 == cell_layout(cell@, gap as int, 0)[k].1,
            forall|k: int|
                0 <= k < cell_layout(cell@.skip(i as int), gap as int, offset as int).len()
                    ==> #[trigger] cell_layout(cell@.skip(i as int), gap as int, offset as int)[k]
                    == cell_layout(cell@, gap as int, 0)[notes@.len() + k],
        ensures
            notes@.len() == cell_layout(cell@, gap as int, 0).len(),
            forall|k: int|
                0 <= k < notes@.len() ==> (#[trigger] notes@[k]).0 == step + cell_layout(
                    cell@,
                    gap as int,
                    0,
                )[k].0 && notes@[k].1 == cell_layout(cell@, gap as int, 0)[k].1,
        decreases cell.len() - i,
    {
        let ghost rest = cell@.skip(i as int);
        if offset >= gap {
            break;
        }
        let dur = cell[i];
        assert(rest[0] == dur);
        assert(rest.drop_first() =~= cell@.skip(i + 1));
        let actual = if dur <= gap - offset {
            dur
        } else {
            gap - offset
        };
        let ghost head = cell_layout(rest, gap as int, offset as int)[0];
        assert(head == (offset as int, actual as int));
        notes.push((step + offset, actual));
        proof {
            let tail = cell_layout(cell@.skip(i + 1), gap as int, offset + dur);
            assert(cell_layout(rest, gap as int, offset as int) == seq![head] + tail);
            assert forall|k: int| 0 <= k < tail.len() implies #[trigger] tail[k] == cell_layout(
                cell@,
                gap as int,
                0,
            )[notes@.len() + k] by {
                assert(tail[k] == cell_layout(rest, gap as int, offset as int)[k + 1]);
            }
        }
        offset = offset + dur;
        i = i + 1;
        if offset >= gap {
            break;
        }
    }
    proof {
        if i == cell.len() {
            assert(cell@.skip(i as int).len() == 0);
        }
    }
    notes
}

/// Every note of a laid-out cell starts inside the gap and ends by its end,
/// and the notes follow one another without overlap.
pub proof fn lemma_cell_layout_within_gap(cell: Seq<usize>, gap: int, offset: int)
    requires
        0 <= offset,
    ensures
        forall|k: int|
            0 <= k < cell_layout(cell, gap, offset).len() ==> offset <= (#[trigger] cell_layout(
                cell,
                gap,
                offset,
            )[k]).0 < gap && cell_layout(cell, gap, offset)[k].0 + cell_layout(cell, gap, offset)[k].1
                <= gap,
        forall|k: int|
            0 <= k < cell_layout(cell, gap, offset).len() - 1 ==> #[trigger] cell_layout(
                cell,
                gap,
                offset,
            )[k].0 + cell_layout(cell, gap, offset)[k].1 <= cell_layout(cell, gap, offset)[k + 1].0,
    decreases cell.len(),
{
    if cell.len() > 0 && offset < gap {
        lemma_cell_layout_within_gap(cell.drop_first(), gap, offset + cell[0]);
        let l = cell_layout(cell, gap, offset);
        let t = cell_layout(cell.drop_first(), gap, offset + cell[0]);
        assert forall|k: int| 0 <= k < l.len() implies offset <= (#[trigger] l[k]).0 < gap && l[k].0
            + l[k].1 <= gap by {
            if k > 0 {
                assert(l[k] == t[k - 1]);
            }
        }
        assert forall|k: int| 0 <= k < l.len() - 1 implies #[trigger] l[k].0 + l[k].1 <= l[k
            + 1].0 by {
            assert(l[k + 1] == t[k]);
            if k > 0 {
                assert(l[k] == t[k - 1]);
            }
        }
    }
}

/// The snare voice: a tom in the fill zone at high tension (low, mid and
/// high tom in turn), a side stick for a ghost note at low energy, and the
/// acoustic snare otherwise.
pub fn snare_voice(step: usize, ghost: bool, low_energy: bool, tom_fill: bool) -> (note: u8)
    ensures
        note == if tom_fill {
            if step % 3 == 0 {
                41u8
            } else if step % 3 == 1 {
                45u8
            } else {
                50u8
            }
        } else if ghost && low_energy {
            37u8
        } else {
            38u8
        },
{
    if tom_fill {
        match step % 3 {
            0 => 41,
            1 => 45,
            _ => 50,
        }
    } else if ghost && low_energy {
        37
    } else {
        38
    }
}

/// The cymbal voice of the hat track and whether it is the crash: a crash
/// on the downbeat at high energy; at high density a ride when tense, else
/// an open hat off the beat; a pedal hat at low energy; the closed hat
/// otherwise.
pub fn hat_voice(
    step: usize,
    high_energy: bool,
    high_density: bool,
    high_tension: bool,
    low_energy: bool,
) -> (voice: (u8, bool))
    ensures
        voice == if step == 0 && high_energy {
            (49u8, true)
        } else if high_density {
            if high_tension {
                (51u8, false)
            } else if step % 2 != 0 {
                (46u8, false)
            } else {
                (42u8, false)
            }
        } else if low_energy {
            (44u8, false)
        } else {
            (42u8, false)
        },
{
    if step == 0 && high_energy {
        (49, true)
    } else if high_density {
        if high_tension {
            (51, false)
        } else if step % 2 != 0 {
            (46, false)
        } else {
            (42, false)
        }
    } else if low_energy {
        (44, false)
    } else {
        (42, false)
    }
}

/// The length of a kick-triggered bass note with `remaining` steps left in
/// the bar: a quarter when smooth and sparse, a sixteenth when dense, an
/// eighth otherwise, never past the bar.
pub fn bass_note_duration(smooth_and_sparse: bool, dense: bool, remaining: usize) -> (d: usize)
    ensures
        d == if smooth_and_sparse {
            if remaining < 4 {
                remaining
            } else {
                4
            }
        } else if dense {
            1
        } else if remaining < 2 {
            remaining
        } else {
            2
        },
{
    if smooth_and_sparse {
        if remaining < 4 {
            remaining
        } else {
            4
        }
    } else if dense {
        1
    } else if remaining < 2 {
        remaining
    } else {
        2
    }
}

/// The degree a kick-triggered bass note takes.
#[derive(Clone, Copy, Debug, PartialEq, Eq, Structural)]
pub enum BassDegree {
    Root,
    Fifth,
    Third,
    ApproachBelow,
    ApproachAbove,
}

/// The bass register, MIDI notes 28 to 60.
pub open spec fn bass_register(pitch: int) -> u8 {
    if pitch < 28 {
        28
    } else if pitch > 60 {
        60
    } else {
        pitch as u8
    }
}

/// A bass note on the chord rooted `root_offset` semitones above the C two
/// octaves below middle C, held in the bass register.
pub fn bass_pitch(root_offset: i32, is_minor: bool, degree: BassDegree) -> (pitch: u8)
    ensures
        pitch == bass_register(
            36 + root_offset + match degree {
                BassDegree::Root => 0int,
                BassDegree::Fifth => 7int,
                BassDegree::Third => if is_minor {
                    3int
                } else {
                    4int
                },
                BassDegree::ApproachBelow => -1int,
                BassDegree::ApproachAbove => 1int,
            },
        ),
        28 <= pitch <= 60,
{
    let interval: i64 = match degree {
        BassDegree::Root => 0,
        BassDegree::Fifth => 7,
        BassDegree::Third => if is_minor {
            3
        } else {
            4
        },
        BassDegree::ApproachBelow => -1,
        BassDegree::ApproachAbove => 1,
    };
    let p = 36 + root_offset as i64 + interval;
    if p < 28 {
        28
    } else if p > 60 {
        60
    } else {
        p as u8
    }
}

/// Whether the harmony moves on at a bar: every `measures_per_chord`
/// bars, counted from bar zero (with no period, only at bar zero).
pub open spec fn chord_change_at(bar_index: usize, measures_per_chord: usize) -> bool {
    if measures_per_chord == 0 {
        bar_index == 0
    } else {
        bar_index % measures_per_chord == 0
    }
}

/// Whether the harmony moves on at this bar.
pub fn chord_change_due(bar_index: usize, measures_per_chord: usize) -> (due: bool)
    ensures
        due == chord_change_at(bar_index, measures_per_chord),
{
    if measures_per_chord == 0 {
        bar_index == 0
    } else {
        bar_index % measures_per_chord == 0
    }
}

/// A chart chord's root as an offset above the key: from 0 to 11 for
/// pitch classes, with Rust's remainder otherwise.
pub fn chart_root_offset(chord_root: u8, key_root: u8) -> (offset: i32)
    ensures
        offset == trunc_rem(chord_root - key_root + 12, 12),
        chord_root < 12 && key_root < 12 ==> 0 <= offset < 12,
{
    (chord_root as i32 - key_root as i32 + 12) % 12
}

/// The chart position after a chord: the next one, back to the first after
/// the last.
pub fn next_chart_index(index: usize, chart_len: usize) -> (next: usize)
    requires
        index < chart_len,
    ensures
        next == (index + 1) % (chart_len as int),
        next < chart_len,
{
    (index + 1) % chart_len
}

/// The chart position before bar `bar` when the chart is stepped through
/// every bar before it: on each bar where a chord change is due, the
/// position moves on by one, back to the first chord after the last.
pub open spec fn chart_step(len: nat, measures_per_chord: usize, index: int, bar: usize) -> int {
    if len > 0 && chord_change_at(bar, measures_per_chord) {
        (index + 1) % (len as int)
    } else {
        index
    }
}

/// The chart position before bar `n`, starting at position `start` before
/// bar 0.
pub open spec fn chart_index_before(len: nat, measures_per_chord: usize, start: int, n: nat) -> int
    decreases n,
{
    if n == 0 {
        start
    } else {
        chart_step(
            len,
            measures_per_chord,
            chart_index_before(len, measures_per_chord, start, (n - 1) as nat),
            (n - 1) as usize,
        )
    }
}

/// One bar of a chord chart. When the chart is empty nothing changes. When
/// a chord change is due at `bar_index`, the chord at `index` comes back
/// with its root as an offset above the key, and the position moves on to
/// the next chord, back to the first after the last; otherwise nothing
/// comes back and the position stays.
pub fn advance_chart(
    chart: &[Chord],
    index: usize,
    bar_index: usize,
    measures_per_chord: usize,
    key_root: u8,
) -> (r: (Option<(Chord, i32)>, usize))
    requires
        chart@.len() == 0 || index < chart@.len(),
    ensures
        chart@.len() > 0 && chord_change_at(bar_index, measures_per_chord) ==> r.0 == Some(
            (
                chart@[index as int],
                trunc_rem(chart@[index as int].root - key_root + 12, 12) as i32,
            ),
        ),
        !(chart@.len() > 0 && chord_change_at(bar_index, measures_per_chord)) ==> r.0 is None,
        r.1 == chart_step(chart@.len(), measures_per_chord, index as int, bar_index),
        chart@.len() > 0 ==> r.1 < chart@.len(),
{
    if chart.len() == 0 || !chord_change_due(bar_index, measures_per_chord) {
        return (None, index);
    }
    let chord = chart[index];
    let offset = chart_root_offset(chord.root, key_root);
    (Some((chord, offset)), next_chart_index(index, chart.len()))
}

/// Stepping a chart of `len` chords from its first chord, a chord every
/// `k` bars from bar 0: before bar `n` (`n` at least 1) the position has
/// moved on once for each multiple of `k` below `n`, so it is
/// `((n - 1) / k + 1) % len`.
pub proof fn lemma_chart_index_before(len: nat, k: usize, n: nat)
    requires
        len >= 1,
        k >= 1,
        1 <= n <= usize::MAX,
    ensures
        chart_index_before(len, k, 0, n) == ((n - 1) / (k as int) + 1) % (len as int),
    decreases n,
{
    let kk = k as int;
    let l = len as int;
    if n == 1 {
        assert(chart_index_before(len, k, 0, 0) == 0);
        assert(chord_change_at(0, k)) by {
            vstd::arithmetic::div_mod::lemma_small_mod(0, k as nat);
        }
        assert(0int / kk == 0) by (nonlinear_arith)
            requires
                kk >= 1,
        ;
    } else {
        let m = (n - 1) as nat;
        lemma_chart_index_before(len, k, m);
        let prev = chart_index_before(len, k, 0, m);
        assert(prev == ((m - 1) / kk + 1) % l);
        let q = m as int / kk;
        let r = m as int % kk;
        vstd::arithmetic::div_mod::lemma_fundamental_div_mod(m as int, kk);
        if r == 0 {
            assert(q >= 1 && m - 1 == kk * (q - 1) + (kk - 1)) by (nonlinear_arith)
                requires
                    m == kk * q + r,
                    r == 0,
                    m >= 1,
                    kk >= 1,
            ;
            vstd::arithmetic::div_mod::lemma_fundamental_div_mod_converse(m - 1, kk, q - 1, kk - 1);
            assert((m - 1) / kk == q - 1);
            assert(chord_change_at(m as usize, k));
            vstd::arithmetic::div_mod::lemma_add_mod_noop(q, 1, l);
            if l == 1 {
                assert(1int % l == 0);
                assert((prev + 1) % l == 0);
                assert((q + 1) % l == 0);
            } else {
                vstd::arithmetic::div_mod::lemma_small_mod(1, l as nat);
            }
        } else {
            vstd::arithmetic::div_mod::lemma_fundamental_div_mod_converse(m - 1, kk, q, r - 1);
            assert((m - 1) / kk == q);
            assert(!chord_change_at(m as usize, k));
        }
    }
}

/// The chord in effect at bar `n` of a chart of `len` chords stepped from
/// its first chord every `k` bars from bar 0 is the one set at the last
/// chord change at or before `n`, bar `k * (n / k)`, and it stands at
/// position `(n / k) % len` of the chart.
pub proof fn lemma_chart_chord_at_bar(len: nat, k: usize, n: nat)
    requires
        len >= 1,
        k >= 1,
        n <= usize::MAX,
    ensures
        k * (n / (k as nat)) <= n < k * (n / (k as nat)) + k,
        chord_change_at((k * (n / (k as nat))) as usize, k),
        chart_index_before(len, k, 0, (k * (n / (k as nat))) as nat) == (n / (k as nat)) as int % (
            len as int
        ),
{
    let kk = k as int;
    let q = n as int / kk;
    vstd::arithmetic::div_mod::lemma_fundamental_div_mod(n as int, kk);
    let m = kk * q;
    assert(q >= 0 && m >= 0 && m <= n) by (nonlinear_arith)
        requires
            kk >= 1,
            n >= 0,
            n == kk * q + n as int % kk,
            0 <= n as int % kk < kk,
            m == kk * q,
    ;
    assert(m % kk == 0) by {
        vstd::arithmetic::div_mod::lemma_mod_multiples_basic(q, kk);
        assert(q * kk == kk * q) by (nonlinear_arith);
    }
    if q == 0 {
        assert(m == 0) by (nonlinear_arith)
            requires
                m == kk * q,
                q == 0,
        ;
        vstd::arithmetic::div_mod::lemma_small_mod(0, len);
    } else {
        assert(m >= 1) by (nonlinear_arith)
            requires
                kk >= 1,
                q >= 1,
                m == kk * q,
        ;
        lemma_chart_index_before(len, k, m as nat);
        assert(m - 1 == kk * (q - 1) + (kk - 1)) by (nonlinear_arith)
            requires
                m == kk * q,
        ;
        vstd::arithmetic::div_mod::lemma_fundamental_div_mod_converse(m - 1, kk, q - 1, kk - 1);
    }
}

/// The beat-level accent of a step: strong beats (1 and 3) +18, weak beats
/// (2 and 4) -8, steps between beats -20 (every step is off the beat when
/// there are no steps per beat).
pub open spec fn beat_accent_of(step: usize, ticks_per_beat: usize) -> int {
    if ticks_per_beat > 0 && step % ticks_per_beat == 0 {
        if (step / ticks_per_beat) % 2 == 0 {
            18
        } else {
            -8
        }
    } else {
        -20
    }
}

/// The beat-level accent of a step.
pub fn beat_accent(step: usize, ticks_per_beat: usize) -> (accent: i16)
    ensures
        accent == beat_accent_of(step, ticks_per_beat),
{
    if ticks_per_beat > 0 && step % ticks_per_beat == 0 {
        if (step / ticks_per_beat) % 2 == 0 {
            18
        } else {
            -8
        }
    } else {
        -20
    }
}

/// A shaped velocity: the base velocity plus the beat, phrase, bar and
/// jitter offsets, held between 20 and 127.
pub fn shaped_velocity(base_vel: u8, beat: i16, phrase: i16, bar: i16, jitter: i16) -> (vel: u8)
    requires
        i16::MIN <= base_vel + beat <= i16::MAX,
        i16::MIN <= base_vel + beat + phrase <= i16::MAX,
        i16::MIN <= base_vel + beat + phrase + bar <= i16::MAX,
        i16::MIN <= base_vel + beat + phrase + bar + jitter <= i16::MAX,
    ensures
        vel == if base_vel + beat + phrase + bar + jitter < 20 {
            20
        } else if base_vel + beat + phrase + bar + jitter > 127 {
            127
        } else {
            (base_vel + beat + phrase + bar + jitter) as u8
        },
        20 <= vel <= 127,
{
    let total: i16 = base_vel as i16 + beat + phrase + bar + jitter;
    if total < 20 {
        20
    } else if total > 127 {
        127
    } else {
        total as u8
    }
}

} // verus!
