//! Properties of the MIDI export that hold for every timeline.

use vstd::prelude::*;
use crate::midi_export::{
    MidiEventKind, MidiTrackEvent, delta_at, delta_events, drum_pair, drum_pairs, drum_timed,
    instrument_pair, instrument_pairs, instrument_timed, measure_start_tick, note_kind,
    track_note_count, GM_DRUM_CHANNEL, GM_HIHAT, GM_SNARE, is_midi_export,
};
use crate::stable_sort::{
    TimedNote, insert_stable, keys_sorted, sort_key, stable_sorted,
    lemma_stable_sorted_is_sorted_permutation, lemma_note_offs_before_note_ons,
};
use crate::timeline::{Measure, TimelineNote, TrackId};

verus! {

/// Sum of the delta times of the first `n` events.
pub open spec fn delta_prefix(events: Seq<MidiTrackEvent>, n: int) -> int
    decreases n,
{
    if n <= 0 {
        0
    } else {
        delta_prefix(events, n - 1) + events[n - 1].delta
    }
}

/// Number of note-on events.
pub open spec fn count_note_ons(events: Seq<MidiTrackEvent>) -> nat
    decreases events.len(),
{
    if events.len() == 0 {
        0
    } else {
        count_note_ons(events.drop_last()) + if events.last().kind is NoteOn { 1nat } else { 0nat }
    }
}

/// Number of timed notes that are note-ons.
pub open spec fn count_ons(s: Seq<TimedNote>) -> nat
    decreases s.len(),
{
    if s.len() == 0 {
        0
    } else {
        count_ons(s.drop_last()) + if s.last().is_off { 0nat } else { 1nat }
    }
}

proof fn lemma_sorted_ticks(s: Seq<TimedNote>, i: int, j: int)
    requires
        keys_sorted(s),
        0 <= i <= j < s.len(),
    ensures
        s[i].tick <= s[j].tick,
{
    assert(sort_key(s[i]) <= sort_key(s[j]));
}

proof fn lemma_delta_prefix_sorted(s: Seq<TimedNote>, n: int)
    requires
        keys_sorted(s),
        1 <= n <= s.len(),
    ensures
        delta_prefix(delta_events(s), n) == s[n - 1].tick,
    decreases n,
{
    let e = delta_events(s);
    assert(e[n - 1].delta == delta_at(s, n - 1));
    if n > 1 {
        lemma_delta_prefix_sorted(s, n - 1);
        lemma_sorted_ticks(s, n - 2, n - 1);
    } else {
        assert(delta_prefix(e, 0) == 0);
    }
}

/// Accumulating the delta times of an exported note sequence gives back
/// each event's absolute tick: the sum of the first `k + 1` deltas is the
/// tick of the `k`-th event in sorted order.
pub proof fn lemma_deltas_recover_ticks(timed: Seq<TimedNote>, k: int)
    requires
        0 <= k < timed.len(),
    ensures
        delta_prefix(delta_events(stable_sorted(timed)), k + 1) == stable_sorted(timed)[k].tick,
{
    lemma_stable_sorted_is_sorted_permutation(timed);
    lemma_delta_prefix_sorted(stable_sorted(timed), k + 1);
}

proof fn lemma_count_ons_concat(a: Seq<TimedNote>, b: Seq<TimedNote>)
    ensures
        count_ons(a + b) == count_ons(a) + count_ons(b),
    decreases b.len(),
{
    if b.len() == 0 {
        assert(a + b =~= a);
    } else {
        lemma_count_ons_concat(a, b.drop_last());
        assert((a + b).drop_last() =~= a + b.drop_last());
    }
}

proof fn lemma_count_ons_insert(s: Seq<TimedNote>, x: TimedNote)
    ensures
        count_ons(insert_stable(s, x)) == count_ons(s) + if x.is_off { 0nat } else { 1nat },
    decreases s.len(),
{
    if s.len() == 0 {
        assert(seq![x].drop_last() =~= Seq::<TimedNote>::empty());
        assert(count_ons(seq![x]) == count_ons(Seq::<TimedNote>::empty()) + if x.is_off {
            0nat
        } else {
            1nat
        });
    } else if sort_key(s.last()) <= sort_key(x) {
        assert(s.push(x).drop_last() =~= s);
        assert(count_ons(s.push(x)) == count_ons(s) + if x.is_off { 0nat } else { 1nat });
    } else {
        let t = s.drop_last();
        let r = insert_stable(t, x);
        lemma_count_ons_insert(t, x);
        assert(r.push(s.last()).drop_last() =~= r);
        assert(count_ons(r.push(s.last())) == count_ons(r) + if s.last().is_off {
            0nat
        } else {
            1nat
        });
        assert(count_ons(s) == count_ons(t) + if s.last().is_off { 0nat } else { 1nat });
    }
}

proof fn lemma_count_ons_sorted(s: Seq<TimedNote>)
    ensures
        count_ons(stable_sorted(s)) == count_ons(s),
    decreases s.len(),
{
    if s.len() > 0 {
        lemma_count_ons_sorted(s.drop_last());
        lemma_count_ons_insert(stable_sorted(s.drop_last()), s.last());
    }
}

proof fn lemma_count_note_ons_delta(s: Seq<TimedNote>)
    ensures
        count_note_ons(delta_events(s)) == count_ons(s),
    decreases s.len(),
{
    if s.len() > 0 {
        lemma_count_note_ons_delta(s.drop_last());
        assert(delta_events(s).drop_last() =~= delta_events(s.drop_last())) by {
            assert forall|i: int| 0 <= i < s.len() - 1 implies delta_at(s, i) == delta_at(
                s.drop_last(),
                i,
            ) by {}
        }
    }
}

proof fn lemma_instrument_pairs_ons(base: int, notes: Seq<TimelineNote>, channel: u8)
    ensures
        count_ons(instrument_pairs(base, notes, channel)) == notes.len(),
    decreases notes.len(),
{
    if notes.len() > 0 {
        let p = instrument_pair(base, notes.last(), channel);
        lemma_instrument_pairs_ons(base, notes.drop_last(), channel);
        lemma_count_ons_concat(instrument_pairs(base, notes.drop_last(), channel), p);
        assert(p.drop_last().drop_last() =~= Seq::<TimedNote>::empty());
        assert(count_ons(p.drop_last().drop_last()) == 0);
        assert(count_ons(p.drop_last()) == 1);
        assert(count_ons(p) == 1);
    }
}

proof fn lemma_drum_pairs_ons(base: int, notes: Seq<TimelineNote>, key: u8)
    ensures
        count_ons(drum_pairs(base, notes, key)) == notes.len(),
    decreases notes.len(),
{
    if notes.len() > 0 {
        let p = drum_pair(base, notes.last(), key);
        lemma_drum_pairs_ons(base, notes.drop_last(), key);
        lemma_count_ons_concat(drum_pairs(base, notes.drop_last(), key), p);
        assert(p.drop_last().drop_last() =~= Seq::<TimedNote>::empty());
        assert(count_ons(p.drop_last().drop_last()) == 0);
        assert(count_ons(p.drop_last()) == 1);
        assert(count_ons(p) == 1);
    }
}

proof fn lemma_instrument_timed_ons(ms: Seq<Measure>, t: TrackId, channel: u8)
    ensures
        count_ons(instrument_timed(ms, t, channel)) == track_note_count(ms, t),
    decreases ms.len(),
{
    if ms.len() > 0 {
        lemma_instrument_timed_ons(ms.drop_last(), t, channel);
        lemma_instrument_pairs_ons(measure_start_tick(ms.last()), ms.last().track_notes(t), channel);
        lemma_count_ons_concat(
            instrument_timed(ms.drop_last(), t, channel),
            instrument_pairs(measure_start_tick(ms.last()), ms.last().track_notes(t), channel),
        );
    }
}

proof fn lemma_drum_timed_ons(ms: Seq<Measure>)
    ensures
        count_ons(drum_timed(ms)) == track_note_count(ms, TrackId::Snare) + track_note_count(
            ms,
            TrackId::Hat,
        ),
    decreases ms.len(),
{
    if ms.len() > 0 {
        let base = measure_start_tick(ms.last());
        let sn = drum_pairs(base, ms.last().track_notes(TrackId::Snare), GM_SNARE);
        let ht = drum_pairs(base, ms.last().track_notes(TrackId::Hat), GM_HIHAT);
        lemma_drum_timed_ons(ms.drop_last());
        lemma_drum_pairs_ons(base, ms.last().track_notes(TrackId::Snare), GM_SNARE);
        lemma_drum_pairs_ons(base, ms.last().track_notes(TrackId::Hat), GM_HIHAT);
        lemma_count_ons_concat(drum_timed(ms.drop_last()), sn);
        lemma_count_ons_concat(drum_timed(ms.drop_last()) + sn, ht);
    }
}

/// The bass or lead track holds exactly one note-on per note of its track
/// across the timeline.
pub proof fn lemma_instrument_note_on_count(ms: Seq<Measure>, t: TrackId, channel: u8)
    ensures
        count_note_ons(delta_events(stable_sorted(instrument_timed(ms, t, channel))))
            == track_note_count(ms, t),
{
    lemma_count_note_ons_delta(stable_sorted(instrument_timed(ms, t, channel)));
    lemma_count_ons_sorted(instrument_timed(ms, t, channel));
    lemma_instrument_timed_ons(ms, t, channel);
}

/// The drum track holds exactly one note-on per snare or hi-hat hit.
pub proof fn lemma_drum_note_on_count(ms: Seq<Measure>)
    ensures
        count_note_ons(delta_events(stable_sorted(drum_timed(ms)))) == track_note_count(
            ms,
            TrackId::Snare,
        ) + track_note_count(ms, TrackId::Hat),
{
    lemma_count_note_ons_delta(stable_sorted(drum_timed(ms)));
    lemma_count_ons_sorted(drum_timed(ms));
    lemma_drum_timed_ons(ms);
}

proof fn lemma_drum_timed_channel(ms: Seq<Measure>)
    ensures
        forall|i: int| 0 <= i < drum_timed(ms).len() ==> (#[trigger] drum_timed(ms)[i]).channel
            == GM_DRUM_CHANNEL,
    decreases ms.len(),
{
    if ms.len() > 0 {
        lemma_drum_timed_channel(ms.drop_last());
        let base = measure_start_tick(ms.last());
        lemma_drum_pairs_channel(base, ms.last().track_notes(TrackId::Snare), GM_SNARE);
        lemma_drum_pairs_channel(base, ms.last().track_notes(TrackId::Hat), GM_HIHAT);
        let a = drum_timed(ms.drop_last());
        let b = drum_pairs(base, ms.last().track_notes(TrackId::Snare), GM_SNARE);
        let c = drum_pairs(base, ms.last().track_notes(TrackId::Hat), GM_HIHAT);
        assert forall|i: int| 0 <= i < (a + b + c).len() implies (#[trigger] (a + b + c)[i]).channel
            == GM_DRUM_CHANNEL by {
            if i < a.len() {
                assert((a + b + c)[i] == a[i]);
            } else if i < a.len() + b.len() {
                assert((a + b + c)[i] == b[i - a.len()]);
            } else {
                assert((a + b + c)[i] == c[i - a.len() - b.len()]);
            }
        }
    }
}

proof fn lemma_drum_pairs_channel(base: int, notes: Seq<TimelineNote>, key: u8)
    ensures
        forall|i: int| 0 <= i < drum_pairs(base, notes, key).len() ==> (#[trigger] drum_pairs(
            base,
            notes,
            key,
        )[i]).channel == GM_DRUM_CHANNEL,
    decreases notes.len(),
{
    if notes.len() > 0 {
        lemma_drum_pairs_channel(base, notes.drop_last(), key);
        let a = drum_pairs(base, notes.drop_last(), key);
        let b = drum_pair(base, notes.last(), key);
        assert forall|i: int| 0 <= i < (a + b).len() implies (#[trigger] (a + b)[i]).channel
            == GM_DRUM_CHANNEL by {
            if i < a.len() {
                assert((a + b)[i] == a[i]);
            } else {
                assert((a + b)[i] == b[i - a.len()]);
            }
        }
    }
}

/// Every note event of the drum track is on General MIDI channel 9.
pub proof fn lemma_drum_events_on_channel_9(ms: Seq<Measure>, k: int)
    requires
        0 <= k < delta_events(stable_sorted(drum_timed(ms))).len(),
    ensures
        match delta_events(stable_sorted(drum_timed(ms)))[k].kind {
            MidiEventKind::NoteOn { channel, .. } => channel == GM_DRUM_CHANNEL,
            MidiEventKind::NoteOff { channel, .. } => channel == GM_DRUM_CHANNEL,
            _ => false,
        },
{
    broadcast use vstd::seq_lib::group_to_multiset_ensures;
    let t = drum_timed(ms);
    let s = stable_sorted(t);
    lemma_stable_sorted_is_sorted_permutation(t);
    lemma_drum_timed_channel(ms);
    assert(s.to_multiset().count(s[k]) > 0);
    assert(t.to_multiset().count(s[k]) > 0);
    assert(t.contains(s[k]));
}

/// In the event list of sorted note events, an event that follows the one
/// before it at the same tick (delta 0) is never a note-off right after a
/// note-on: at one tick the note-offs come first.
pub proof fn lemma_same_tick_note_off_first(timed: Seq<TimedNote>, k: int)
    requires
        0 <= k,
        k + 1 < timed.len(),
    ensures
        delta_events(stable_sorted(timed))[k + 1].delta == 0 ==> !(
        delta_events(stable_sorted(timed))[k].kind is NoteOn && delta_events(
            stable_sorted(timed),
        )[k + 1].kind is NoteOff),
{
    let r = stable_sorted(timed);
    lemma_stable_sorted_is_sorted_permutation(timed);
    lemma_note_offs_before_note_ons(timed);
    assert(r[k].tick <= r[k + 1].tick);
    if delta_events(r)[k + 1].delta == 0 {
        assert(r[k + 1].tick == r[k].tick);
    }
}

/// Every note track of an exported file (bass, lead, drums) releases a note
/// before sounding the next at the same tick: an event with delta 0 never
/// turns a note-on just before it into a note-off just after it.
pub proof fn lemma_export_note_offs_first(tracks: Seq<Seq<MidiTrackEvent>>, ms: Seq<Measure>, t: int, k: int)
    requires
        is_midi_export(tracks, ms),
        ms.len() > 0,
        1 <= t <= 3,
        1 <= k,
        k + 1 < tracks[t].len() - 1,
    ensures
        tracks[t][k + 1].delta == 0 ==> !(tracks[t][k].kind is NoteOn && tracks[t][k
            + 1].kind is NoteOff),
{
    let timed = if t == 1 {
        instrument_timed(ms, TrackId::Bass, 0)
    } else if t == 2 {
        instrument_timed(ms, TrackId::Lead, 1)
    } else {
        drum_timed(ms)
    };
    let body = delta_events(stable_sorted(timed));
    let tr = tracks[t];
    assert(tr.subrange(1, body.len() + 1int) == body);
    assert(tr[k] == body[k - 1]);
    assert(tr[k + 1] == body[k]);
    lemma_stable_sorted_is_sorted_permutation(timed);
    lemma_same_tick_note_off_first(timed, k - 1);
}

} // verus!
