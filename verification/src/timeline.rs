//! The score timeline: measures of notes per track, kept in a bounded
//! sliding window.

use vstd::prelude::*;
use vstd::string::*;
use crate::decimal::{append_decimal, decimal};
use crate::lydian_chromatic::ScaleGuidance;

verus! {

/// Unique identifier for each note in the timeline.
pub type NoteId = u64;

/// Track identifier for per-instrument separation.
#[derive(Clone, Copy, Debug, PartialEq, Eq, Hash, Structural)]
pub enum TrackId {
    /// Bass / Kick (MIDI channel 0)
    Bass,
    /// Lead / Melody (MIDI channel 1)
    Lead,
    /// Snare / Percussion (MIDI channel 2)
    Snare,
    /// Hi-Hat / Cymbals (MIDI channel 3)
    Hat,
}

/// The MIDI channel of a track.
pub open spec fn track_channel(t: TrackId) -> u8 {
    match t {
        TrackId::Bass => 0,
        TrackId::Lead => 1,
        TrackId::Snare => 2,
        TrackId::Hat => 3,
    }
}

/// All track IDs in canonical order.
pub open spec fn all_tracks() -> Seq<TrackId> {
    seq![TrackId::Bass, TrackId::Lead, TrackId::Snare, TrackId::Hat]
}

impl TrackId {
    /// All track IDs in canonical order.
    pub const ALL: [TrackId; 4] = [TrackId::Bass, TrackId::Lead, TrackId::Snare, TrackId::Hat];

    /// The MIDI channel number of the track.
    pub fn channel(&self) -> (c: u8)
        ensures
            c == track_channel(*self),
    {
        match self {
            TrackId::Bass => 0,
            TrackId::Lead => 1,
            TrackId::Snare => 2,
            TrackId::Hat => 3,
        }
    }
}

/// Musical position within the score: 1-based bar and beat, 0-based tick.
#[derive(Clone, Copy, Debug, Default, PartialEq, Eq, PartialOrd, Ord, Hash, Structural)]
pub struct MusicalPosition {
    /// Bar number (1-based)
    pub bar: usize,
    /// Beat within bar (1-based)
    pub beat: usize,
    /// Tick within beat (0-based)
    pub tick: usize,
}

/// The step index of a position within its bar.
pub open spec fn step_in_bar_of(p: MusicalPosition, ticks_per_beat: int) -> int {
    (if p.beat >= 1 { p.beat - 1 } else { 0 }) * ticks_per_beat + p.tick
}

impl MusicalPosition {
    /// Creates a position.
    pub fn new(bar: usize, beat: usize, tick: usize) -> (p: MusicalPosition)
        ensures
            p.bar == bar,
            p.beat == beat,
            p.tick == tick,
    {
        MusicalPosition { bar, beat, tick }
    }

    /// The absolute step index within the bar (0-based): beat 1 tick 0 is
    /// step 0; beat 2 tick 0 is step `ticks_per_beat`.
    pub fn step_in_bar(&self, ticks_per_beat: usize) -> (step: usize)
        requires
            step_in_bar_of(*self, ticks_per_beat as int) <= usize::MAX,
        ensures
            step == step_in_bar_of(*self, ticks_per_beat as int),
    {
        let beats = self.beat.saturating_sub(1);
        assert(beats * ticks_per_beat <= step_in_bar_of(*self, ticks_per_beat as int)) by (
        nonlinear_arith)
            requires
                beats == (if self.beat >= 1 { self.beat - 1 } else { 0 }),
                step_in_bar_of(*self, ticks_per_beat as int) == beats * ticks_per_beat
                    + self.tick,
                self.tick >= 0,
        ;
        beats * ticks_per_beat + self.tick
    }

    /// Total steps from bar start to this position.
    pub fn total_steps_from_bar_start(&self, ticks_per_beat: usize) -> (step: usize)
        requires
            step_in_bar_of(*self, ticks_per_beat as int) <= usize::MAX,
        ensures
            step == step_in_bar_of(*self, ticks_per_beat as int),
    {
        self.step_in_bar(ticks_per_beat)
    }

    /// The position written as `bar:beat.tick`.
    pub fn display_string(&self) -> (s: String)
        ensures
            s@ == decimal(self.bar as nat) + seq![':'] + decimal(self.beat as nat) + seq!['.']
                + decimal(self.tick as nat),
    {
        let mut s = String::new();
        append_decimal(&mut s, self.bar);
        proof {
            reveal_strlit(":");
            reveal_strlit(".");
        }
        s.append(":");
        append_decimal(&mut s, self.beat);
        s.append(".");
        append_decimal(&mut s, self.tick);
        assert(s@ =~= decimal(self.bar as nat) + seq![':'] + decimal(self.beat as nat) + seq![
            '.',
        ] + decimal(self.tick as nat));
        s
    }
}

/// Articulation hint for the playhead.
#[derive(Clone, Copy, Debug, PartialEq, Eq, Structural)]
pub enum Articulation {
    /// Normal sustain (play for full duration)
    Normal,
    /// Staccato (short, detached)
    Staccato,
    /// Trigger only, no NoteOff needed (percussion)
    Trigger,
}

impl Default for Articulation {
    fn default() -> (a: Self)
        ensures
            a == Articulation::Normal,
    {
        Articulation::Normal
    }
}

/// A note with explicit duration, stored in the timeline.
#[derive(Clone, Copy, Debug, PartialEq, Eq, Structural)]
pub struct TimelineNote {
    /// Unique identifier (monotonically increasing)
    pub id: NoteId,
    /// MIDI note number (0-127)
    pub pitch: u8,
    /// Start position within the measure (step index, 0-based)
    pub start_step: usize,
    /// Duration in steps (0 = trigger-only for percussion)
    pub duration_steps: usize,
    /// MIDI velocity (0-127)
    pub velocity: u8,
    /// Articulation hint for the playhead
    pub articulation: Articulation,
}

/// A time signature: beats per bar over the beat's note value.
#[derive(Clone, Copy, Debug, PartialEq, Eq, Structural)]
pub struct TimeSignature {
    pub numerator: usize,
    pub denominator: usize,
}

impl TimeSignature {
    /// Creates a time signature.
    pub fn new(numerator: usize, denominator: usize) -> (ts: TimeSignature)
        ensures
            ts.numerator == numerator,
            ts.denominator == denominator,
    {
        TimeSignature { numerator, denominator }
    }
}

impl Default for TimeSignature {
    /// Common time, 4/4.
    fn default() -> (ts: Self)
        ensures
            ts.numerator == 4,
            ts.denominator == 4,
    {
        TimeSignature { numerator: 4, denominator: 4 }
    }
}

/// Chord context captured at generation time.
#[derive(Clone, Debug)]
pub struct ChordContext {
    /// Root offset from key (semitones)
    pub root_offset: i32,
    /// Whether the chord is minor
    pub is_minor: bool,
    /// Chord name for display
    pub chord_name: String,
    /// Improv scale guidance for this measure's chord, when known.
    pub scale_guidance: Option<ScaleGuidance>,
}

impl Default for ChordContext {
    fn default() -> (c: Self)
        ensures
            c.root_offset == 0,
            !c.is_minor,
            c.chord_name@ == Seq::<char>::empty(),
            c.scale_guidance is None,
    {
        ChordContext {
            root_offset: 0,
            is_minor: false,
            chord_name: String::new(),
            scale_guidance: None,
        }
    }
}

/// The notes are in non-decreasing order of start step.
pub open spec fn steps_sorted(s: Seq<TimelineNote>) -> bool {
    forall|i: int, j: int| 0 <= i <= j < s.len() ==> s[i].start_step <= s[j].start_step
}

/// Where a note starting at `step` goes: scanning back from the end past
/// the notes that start after `step`, just after the first one that does
/// not.
pub open spec fn insertion_point(s: Seq<TimelineNote>, step: usize) -> int
    decreases s.len(),
{
    if s.len() == 0 {
        0
    } else if s.last().start_step <= step {
        s.len() as int
    } else {
        insertion_point(s.drop_last(), step)
    }
}

proof fn lemma_insertion_point(s: Seq<TimelineNote>, step: usize)
    ensures
        0 <= insertion_point(s, step) <= s.len(),
        forall|j: int|
            insertion_point(s, step) <= j < s.len() ==> #[trigger] s[j].start_step > step,
        insertion_point(s, step) > 0 ==> s[insertion_point(s, step) - 1].start_step <= step,
    decreases s.len(),
{
    if s.len() > 0 && s.last().start_step > step {
        lemma_insertion_point(s.drop_last(), step);
        let p = insertion_point(s, step);
        assert forall|j: int| p <= j < s.len() implies #[trigger] s[j].start_step > step by {
            if j < s.len() - 1 {
                assert(s[j] == s.drop_last()[j]);
            }
        }
        if p > 0 {
            assert(s[p - 1] == s.drop_last()[p - 1]);
        }
    }
}

/// Inserting a note at its insertion point keeps a sorted track sorted.
proof fn lemma_insertion_keeps_sorted(s: Seq<TimelineNote>, note: TimelineNote)
    ensures
        steps_sorted(s) ==> steps_sorted(s.insert(insertion_point(s, note.start_step), note)),
{
    if steps_sorted(s) {
        lemma_insertion_point(s, note.start_step);
        let p = insertion_point(s, note.start_step);
        let r = s.insert(p, note);
        assert forall|i: int, j: int| 0 <= i <= j < r.len() implies r[i].start_step
            <= r[j].start_step by {
            if i < p {
                assert(s[i].start_step <= s[p - 1].start_step);
            }
            if i > p {
                assert(r[i] == s[i - 1] && r[j] == s[j - 1]);
            }
            if i == p && j > p {
                assert(r[j] == s[j - 1]);
            }
            if i < p && j > p {
                assert(r[j] == s[j - 1]);
            }
        }
    }
}

/// Inserts `note` at its insertion point.
fn insert_sorted(v: &mut Vec<TimelineNote>, note: TimelineNote)
    ensures
        final(v)@ == old(v)@.insert(insertion_point(old(v)@, note.start_step), note),
{
    let mut i: usize = v.len();
    assert(v@.take(i as int) =~= v@);
    while i > 0 && v[i - 1].start_step > note.start_step
        invariant
            i <= v@.len(),
            insertion_point(v@, note.start_step) == insertion_point(v@.take(i as int), note.start_step),
        decreases i,
    {
        assert(v@.take(i as int).drop_last() =~= v@.take(i - 1));
        i = i - 1;
    }
    v.insert(i, note);
}

/// A complete measure of music across all tracks.
#[derive(Clone, Debug)]
pub struct Measure {
    /// Absolute measure index (1-based)
    pub index: usize,
    /// Time signature for this measure
    pub time_signature: TimeSignature,
    /// Tempo at generation time, in microseconds per quarter note
    pub tempo_uspq: u32,
    /// Number of steps in this measure
    pub steps: usize,
    /// Chord context for this measure
    pub chord_context: ChordContext,
    /// Notes of the bass track
    pub bass: Vec<TimelineNote>,
    /// Notes of the lead track
    pub lead: Vec<TimelineNote>,
    /// Notes of the snare track
    pub snare: Vec<TimelineNote>,
    /// Notes of the hat track
    pub hat: Vec<TimelineNote>,
}

impl Measure {
    /// The notes of one track, in the order the track holds them.
    pub open spec fn track_notes(&self, track: TrackId) -> Seq<TimelineNote> {
        match track {
            TrackId::Bass => self.bass@,
            TrackId::Lead => self.lead@,
            TrackId::Snare => self.snare@,
            TrackId::Hat => self.hat@,
        }
    }

    /// Every track is sorted by start step.
    pub open spec fn tracks_sorted(&self) -> bool {
        forall|t: TrackId| #[trigger] steps_sorted(self.track_notes(t))
    }

    /// Total number of notes across the four tracks.
    pub open spec fn note_total(&self) -> int {
        (self.track_notes(TrackId::Bass).len() + self.track_notes(TrackId::Lead).len()
            + self.track_notes(TrackId::Snare).len() + self.track_notes(TrackId::Hat).len()) as int
    }

    /// Creates an empty measure with the given parameters.
    pub fn new(index: usize, time_signature: TimeSignature, tempo_uspq: u32, steps: usize) -> (m:
        Measure)
        ensures
            m.index == index,
            m.time_signature == time_signature,
            m.tempo_uspq == tempo_uspq,
            m.steps == steps,
            m.chord_context.root_offset == 0,
            !m.chord_context.is_minor,
            m.chord_context.chord_name@ == Seq::<char>::empty(),
            m.chord_context.scale_guidance is None,
            forall|t: TrackId| #[trigger] m.track_notes(t) == Seq::<TimelineNote>::empty(),
            m.tracks_sorted(),
    {
        let m = Measure {
            index,
            time_signature,
            tempo_uspq,
            steps,
            chord_context: ChordContext::default(),
            bass: Vec::new(),
            lead: Vec::new(),
            snare: Vec::new(),
            hat: Vec::new(),
        };
        assert forall|t: TrackId| #[trigger] m.track_notes(t) == Seq::<TimelineNote>::empty() by {
            match t {
                TrackId::Bass => {},
                TrackId::Lead => {},
                TrackId::Snare => {},
                TrackId::Hat => {},
            }
        }
        m
    }

    /// Number of tracks a measure holds.
    pub fn track_count(&self) -> (n: usize)
        ensures
            n == all_tracks().len(),
    {
        4
    }

    /// Adds a note to a track, keeping the track sorted by start step: the
    /// note goes after every note that starts at or before it and that is
    /// not preceded by a later-starting one when scanning back from the end
    /// (for a sorted track, after all notes starting at or before it and
    /// before all notes starting after it).
    pub fn add_note(&mut self, track: TrackId, note: TimelineNote)
        ensures
            final(self).track_notes(track) == old(self).track_notes(track).insert(
                insertion_point(old(self).track_notes(track), note.start_step),
                note,
            ),
            steps_sorted(old(self).track_notes(track)) ==> steps_sorted(
                final(self).track_notes(track),
            ),
            forall|t: TrackId| t != track ==> #[trigger] final(self).track_notes(t) == old(
                self,
            ).track_notes(t),
            old(self).tracks_sorted() ==> final(self).tracks_sorted(),
            final(self).index == old(self).index,
            final(self).time_signature == old(self).time_signature,
            final(self).tempo_uspq == old(self).tempo_uspq,
            final(self).steps == old(self).steps,
            final(self).chord_context == old(self).chord_context,
    {
        let ghost before = self.track_notes(track);
        let ghost prior = *self;
        match track {
            TrackId::Bass => insert_sorted(&mut self.bass, note),
            TrackId::Lead => insert_sorted(&mut self.lead, note),
            TrackId::Snare => insert_sorted(&mut self.snare, note),
            TrackId::Hat => insert_sorted(&mut self.hat, note),
        }
        proof {
            lemma_insertion_keeps_sorted(before, note);
            if prior.tracks_sorted() {
                assert forall|t: TrackId| #[trigger] steps_sorted(self.track_notes(t)) by {
                    assert(steps_sorted(prior.track_notes(t)));
                }
            }
        }
    }

    /// The notes of one track, sorted by start step for a measure built by
    /// `new` and `add_note`.
    pub fn notes_for_track(&self, track: TrackId) -> (notes: &Vec<TimelineNote>)
        ensures
            notes@ == self.track_notes(track),
            self.tracks_sorted() ==> steps_sorted(notes@),
    {
        proof {
            if self.tracks_sorted() {
                assert(steps_sorted(self.track_notes(track)));
            }
        }
        match track {
            TrackId::Bass => &self.bass,
            TrackId::Lead => &self.lead,
            TrackId::Snare => &self.snare,
            TrackId::Hat => &self.hat,
        }
    }

    /// Total number of notes across all tracks.
    pub fn total_notes(&self) -> (n: usize)
        requires
            self.note_total() <= usize::MAX,
        ensures
            n == self.note_total(),
    {
        self.bass.len() + self.lead.len() + self.snare.len() + self.hat.len()
    }
}

/// Position of the first measure in `ms` whose index is `index`.
pub open spec fn first_with_index(ms: Seq<Measure>, index: usize) -> Option<int>
    decreases ms.len(),
{
    if ms.len() == 0 {
        None
    } else if ms[0].index == index {
        Some(0)
    } else {
        match first_with_index(ms.drop_first(), index) {
            Some(i) => Some(i + 1),
            None => None,
        }
    }
}

/// Whether some measure in `ms` has index `index`.
pub open spec fn has_index(ms: Seq<Measure>, index: usize) -> bool {
    exists|i: int| 0 <= i < ms.len() && #[trigger] ms[i].index == index
}

/// The measures that remain after a push onto a window of `cap` measures.
pub open spec fn window_push(ms: Seq<Measure>, cap: nat, m: Measure) -> Seq<Measure> {
    if ms.len() >= cap {
        ms.drop_first().push(m)
    } else {
        ms.push(m)
    }
}

pub(crate) proof fn lemma_first_with_index(ms: Seq<Measure>, index: usize)
    ensures
        first_with_index(ms, index) matches Some(i) ==> 0 <= i < ms.len() && ms[i].index == index
            && forall|j: int| 0 <= j < i ==> ms[j].index != index,
        first_with_index(ms, index) is None <==> !has_index(ms, index),
    decreases ms.len(),
{
    if ms.len() > 0 {
        lemma_first_with_index(ms.drop_first(), index);
        if ms[0].index != index {
            if has_index(ms, index) {
                let i = choose|i: int| 0 <= i < ms.len() && #[trigger] ms[i].index == index;
                assert(ms.drop_first()[i - 1].index == index);
            }
            if has_index(ms.drop_first(), index) {
                let i = choose|i: int|
                    0 <= i < ms.drop_first().len() && #[trigger] ms.drop_first()[i].index == index;
                assert(ms[i + 1].index == index);
            }
            if let Some(k) = first_with_index(ms.drop_first(), index) {
                assert forall|j: int| 0 <= j < k + 1 implies ms[j].index != index by {
                    if j > 0 {
                        assert(ms[j] == ms.drop_first()[j - 1]);
                    }
                }
            }
        }
    }
}

pub(crate) proof fn lemma_first_at(ms: Seq<Measure>, index: usize, i: int)
    requires
        0 <= i < ms.len(),
        ms[i].index == index,
        forall|j: int| 0 <= j < i ==> ms[j].index != index,
    ensures
        first_with_index(ms, index) == Some(i),
    decreases i,
{
    if i > 0 {
        assert forall|j: int| 0 <= j < i - 1 implies ms.drop_first()[j].index != index by {
            assert(ms.drop_first()[j] == ms[j + 1]);
        }
        lemma_first_at(ms.drop_first(), index, i - 1);
    }
}

/// The master score timeline: a bounded sliding window of measures.
pub struct ScoreTimeline {
    /// Stored measures, oldest first
    measures: Vec<Measure>,
    /// Maximum number of measures to retain
    max_measures: usize,
    /// Next note ID to assign
    next_note_id: NoteId,
}

impl ScoreTimeline {
    /// The window never holds more measures than its capacity.
    #[verifier::type_invariant]
    spec fn window_bounded(self) -> bool {
        self.measures@.len() <= self.max_measures
    }

    /// The stored measures, oldest first.
    pub closed spec fn stored(&self) -> Seq<Measure> {
        self.measures@
    }

    /// The capacity of the window.
    pub closed spec fn capacity(&self) -> usize {
        self.max_measures
    }

    /// The note ID the next call to `next_note_id` hands out.
    pub closed spec fn upcoming_note_id(&self) -> NoteId {
        self.next_note_id
    }

    /// Creates an empty timeline holding at most `max_measures` measures.
    pub fn new(max_measures: usize) -> (t: Self)
        ensures
            t.stored() == Seq::<Measure>::empty(),
            t.capacity() == max_measures,
            t.upcoming_note_id() == 1,
    {
        ScoreTimeline { measures: Vec::new(), max_measures, next_note_id: 1 }
    }

    /// An empty timeline with the default capacity of 100 bars.
    pub fn with_default_capacity() -> (t: Self)
        ensures
            t.stored() == Seq::<Measure>::empty(),
            t.capacity() == 100,
            t.upcoming_note_id() == 1,
    {
        Self::new(100)
    }

    /// Hands out the next unique note ID.
    pub fn next_note_id(&mut self) -> (id: NoteId)
        requires
            old(self).upcoming_note_id() < u64::MAX,
        ensures
            id == old(self).upcoming_note_id(),
            final(self).upcoming_note_id() == id + 1,
            final(self).stored() == old(self).stored(),
            final(self).capacity() == old(self).capacity(),
    {
        proof {
            use_type_invariant(&*self);
        }
        let id = self.next_note_id;
        self.next_note_id = self.next_note_id + 1;
        id
    }

    /// Appends a measure; at capacity, the oldest measure is dropped first.
    pub fn push_measure(&mut self, measure: Measure)
        requires
            old(self).capacity() > 0,
        ensures
            final(self).stored() == window_push(
                old(self).stored(),
                old(self).capacity() as nat,
                measure,
            ),
            final(self).capacity() == old(self).capacity(),
            final(self).upcoming_note_id() == old(self).upcoming_note_id(),
    {
        proof {
            use_type_invariant(&*self);
        }
        let mut ms: Vec<Measure> = Vec::new();
        std::mem::swap(&mut ms, &mut self.measures);
        if ms.len() >= self.max_measures {
            ms.remove(0);
        }
        ms.push(measure);
        self.measures = ms;
    }

    /// The first stored measure with the given index.
    pub fn get_measure(&self, index: usize) -> (m: Option<&Measure>)
        ensures
            m is Some <==> has_index(self.stored(), index),
            m matches Some(r) ==> first_with_index(self.stored(), index) matches Some(i) && *r
                == self.stored()[i],
    {
        proof {
            lemma_first_with_index(self.measures@, index);
        }
        match self.position_of(index) {
            Some(i) => Some(&self.measures[i]),
            None => None,
        }
    }

    /// Position of the first stored measure with the given index.
    fn position_of(&self, index: usize) -> (p: Option<usize>)
        ensures
            p matches Some(i) ==> first_with_index(self.stored(), index) == Some(i as int),
            p is None ==> first_with_index(self.stored(), index) is None,
            p is None <==> !has_index(self.stored(), index),
            p matches Some(i) ==> i < self.stored().len(),
    {
        proof {
            lemma_first_with_index(self.measures@, index);
        }
        let mut i: usize = 0;
        while i < self.measures.len()
            invariant
                i <= self.measures@.len(),
                forall|j: int| 0 <= j < i ==> self.measures@[j].index != index,
            decreases self.measures.len() - i,
        {
            if self.measures[i].index == index {
                proof {
                    lemma_first_at(self.measures@, index, i as int);
                }
                return Some(i);
            }
            i = i + 1;
        }
        proof {
            if has_index(self.measures@, index) {
                let k = choose|k: int|
                    0 <= k < self.measures@.len() && #[trigger] self.measures@[k].index == index;
                assert(self.measures@[k].index != index);
            }
        }
        None
    }

    /// The index of the first (oldest) stored measure.
    pub fn first_index(&self) -> (i: Option<usize>)
        ensures
            self.stored().len() == 0 ==> i is None,
            self.stored().len() > 0 ==> i == Some(self.stored()[0].index),
    {
        if self.measures.len() == 0 {
            None
        } else {
            Some(self.measures[0].index)
        }
    }

    /// The index of the last (newest) stored measure.
    pub fn last_index(&self) -> (i: Option<usize>)
        ensures
            self.stored().len() == 0 ==> i is None,
            self.stored().len() > 0 ==> i == Some(self.stored().last().index),
    {
        if self.measures.len() == 0 {
            None
        } else {
            Some(self.measures[self.measures.len() - 1].index)
        }
    }

    /// Number of stored measures.
    pub fn len(&self) -> (n: usize)
        ensures
            n == self.stored().len(),
    {
        self.measures.len()
    }

    /// Whether the timeline holds no measure.
    pub fn is_empty(&self) -> (b: bool)
        ensures
            b == (self.stored().len() == 0),
    {
        self.measures.len() == 0
    }

    /// Removes every measure.
    pub fn clear(&mut self)
        ensures
            final(self).stored() == Seq::<Measure>::empty(),
            final(self).capacity() == old(self).capacity(),
            final(self).upcoming_note_id() == old(self).upcoming_note_id(),
    {
        self.measures = Vec::new();
    }

    /// The stored measures, oldest first.
    pub fn measures(&self) -> (ms: &Vec<Measure>)
        ensures
            ms@ == self.stored(),
    {
        &self.measures
    }

    /// Whether a measure with the given index is stored.
    pub fn contains_index(&self, index: usize) -> (b: bool)
        ensures
            b == has_index(self.stored(), index),
    {
        self.position_of(index).is_some()
    }

    /// Removes every measure whose index is `from_index` or later, keeping
    /// the others in order.
    pub fn invalidate_from(&mut self, from_index: usize)
        ensures
            final(self).stored() == old(self).stored().filter(|m: Measure| m.index < from_index),
            final(self).capacity() == old(self).capacity(),
            final(self).upcoming_note_id() == old(self).upcoming_note_id(),
    {
        proof {
            use_type_invariant(&*self);
        }
        let ghost pred = |m: Measure| m.index < from_index;
        let ghost orig = self.measures@;
        let mut kept: Vec<Measure> = Vec::new();
        let mut rest: Vec<Measure> = Vec::new();
        std::mem::swap(&mut rest, &mut self.measures);
        assert(rest@ == orig);
        let mut i: usize = 0;
        let n = rest.len();
        while i < n
            invariant
                n == orig.len(),
                n <= self.max_measures,
                i <= n,
                rest@.len() == n - i,
                rest@ == orig.skip(i as int),
                kept@ == orig.take(i as int).filter(pred),
                kept@.len() <= i,
                pred == (|m: Measure| m.index < from_index),
            decreases n - i,
        {
            let m = rest.remove(0);
            reveal_with_fuel(Seq::filter, 1);
            assert(orig.take(i + 1).drop_last() =~= orig.take(i as int));
            assert(orig.take(i + 1).last() == m);
            if m.index < from_index {
                kept.push(m);
            }
            i = i + 1;
            assert(rest@ =~= orig.skip(i as int));
        }
        assert(orig.take(n as int) =~= orig);
        self.measures = kept;
    }
}

} // verus!
