//! Stable sorting of timed note events by tick, note-offs first.

use vstd::prelude::*;

verus! {

/// A note-on or note-off at an absolute tick.
#[derive(Clone, Copy, Debug, PartialEq, Eq, Structural)]
pub struct TimedNote {
    /// Absolute position in MIDI ticks
    pub tick: u32,
    /// true = note-off, false = note-on
    pub is_off: bool,
    pub channel: u8,
    pub key: u8,
    pub vel: u8,
}

/// The sort key: by tick, and at equal ticks note-offs before note-ons.
pub open spec fn sort_key(e: TimedNote) -> int {
    e.tick as int * 2 + if e.is_off { 0int } else { 1int }
}

/// Inserts `x` after every trailing element whose key exceeds its own is
/// passed over from the end, i.e. after the last element with a key not
/// greater than `x`'s in that trailing run.
pub open spec fn insert_stable(s: Seq<TimedNote>, x: TimedNote) -> Seq<TimedNote>
    decreases s.len(),
{
    if s.len() == 0 {
        seq![x]
    } else if sort_key(s.last()) <= sort_key(x) {
        s.push(x)
    } else {
        insert_stable(s.drop_last(), x).push(s.last())
    }
}

/// Stable insertion sort by `sort_key`.
pub open spec fn stable_sorted(s: Seq<TimedNote>) -> Seq<TimedNote>
    decreases s.len(),
{
    if s.len() == 0 {
        s
    } else {
        insert_stable(stable_sorted(s.drop_last()), s.last())
    }
}

/// Keys never decrease along `s`.
pub open spec fn keys_sorted(s: Seq<TimedNote>) -> bool {
    forall|i: int, j: int| 0 <= i <= j < s.len() ==> sort_key(s[i]) <= sort_key(s[j])
}

proof fn lemma_insert_at(s: Seq<TimedNote>, x: TimedNote, p: int)
    requires
        0 <= p <= s.len(),
        forall|j: int| p <= j < s.len() ==> sort_key(#[trigger] s[j]) > sort_key(x),
        p == 0 || sort_key(s[p - 1]) <= sort_key(x),
    ensures
        insert_stable(s, x) == s.take(p) + seq![x] + s.skip(p),
    decreases s.len(),
{
    if s.len() == 0 {
        assert(s.take(p) + seq![x] + s.skip(p) =~= seq![x]);
    } else if p == s.len() {
        assert(s.take(p) + seq![x] + s.skip(p) =~= s.push(x));
    } else {
        let t = s.drop_last();
        assert forall|j: int| p <= j < t.len() implies sort_key(#[trigger] t[j]) > sort_key(x) by {
            assert(t[j] == s[j]);
        }
        lemma_insert_at(t, x, p);
        assert(s.take(p) + seq![x] + s.skip(p) =~= (t.take(p) + seq![x] + t.skip(p)).push(
            s.last(),
        ));
    }
}

proof fn lemma_insert_multiset(s: Seq<TimedNote>, x: TimedNote)
    ensures
        insert_stable(s, x).to_multiset() == s.to_multiset().insert(x),
        insert_stable(s, x).len() == s.len() + 1,
    decreases s.len(),
{
    broadcast use vstd::seq_lib::group_to_multiset_ensures;
    if s.len() > 0 && sort_key(s.last()) > sort_key(x) {
        let t = s.drop_last();
        lemma_insert_multiset(t, x);
        assert(s =~= t.push(s.last()));
        assert(insert_stable(s, x).to_multiset() =~= s.to_multiset().insert(x));
    }
}

proof fn lemma_insert_sorted(s: Seq<TimedNote>, x: TimedNote)
    requires
        keys_sorted(s),
    ensures
        keys_sorted(insert_stable(s, x)),
    decreases s.len(),
{
    if s.len() > 0 && sort_key(s.last()) > sort_key(x) {
        let t = s.drop_last();
        assert(keys_sorted(t));
        lemma_insert_sorted(t, x);
        lemma_insert_multiset(t, x);
        let r = insert_stable(t, x);
        assert forall|k: int| 0 <= k < r.len() implies sort_key(#[trigger] r[k]) <= sort_key(
            s.last(),
        ) by {
            lemma_insert_members(t, x, k);
        }
    }
}

proof fn lemma_insert_members(s: Seq<TimedNote>, x: TimedNote, k: int)
    requires
        0 <= k < insert_stable(s, x).len(),
    ensures
        insert_stable(s, x)[k] == x || exists|j: int| 0 <= j < s.len() && insert_stable(s, x)[k]
            == s[j],
    decreases s.len(),
{
    if s.len() == 0 {
    } else if sort_key(s.last()) <= sort_key(x) {
        if k < s.len() {
            assert(insert_stable(s, x)[k] == s[k]);
        }
    } else {
        let t = s.drop_last();
        lemma_insert_multiset(t, x);
        if k == insert_stable(s, x).len() - 1 {
            assert(insert_stable(s, x)[k] == s[s.len() - 1]);
        } else {
            lemma_insert_members(t, x, k);
            if insert_stable(t, x)[k] != x {
                let j = choose|j: int| 0 <= j < t.len() && insert_stable(t, x)[k] == t[j];
                assert(insert_stable(s, x)[k] == s[j]);
            }
        }
    }
}

/// The stable sort orders the events by key and keeps every event: its
/// result is sorted and a permutation of its input.
pub proof fn lemma_stable_sorted_is_sorted_permutation(s: Seq<TimedNote>)
    ensures
        keys_sorted(stable_sorted(s)),
        stable_sorted(s).to_multiset() == s.to_multiset(),
        stable_sorted(s).len() == s.len(),
    decreases s.len(),
{
    broadcast use vstd::seq_lib::group_to_multiset_ensures;
    if s.len() > 0 {
        let t = s.drop_last();
        lemma_stable_sorted_is_sorted_permutation(t);
        lemma_insert_sorted(stable_sorted(t), s.last());
        lemma_insert_multiset(stable_sorted(t), s.last());
        assert(s =~= t.push(s.last()));
    }
}

/// Sorts timed note events by tick, note-offs before note-ons at equal
/// ticks, keeping the input order among equal keys.
pub fn sort_timed_notes(events: &Vec<TimedNote>) -> (sorted: Vec<TimedNote>)
    ensures
        sorted@ == stable_sorted(events@),
{
    let mut sorted: Vec<TimedNote> = Vec::new();
    let mut i: usize = 0;
    while i < events.len()
        invariant
            i <= events@.len(),
            sorted@ == stable_sorted(events@.take(i as int)),
            sorted@.len() == i,
        decreases events.len() - i,
    {
        let x = events[i];
        let x_key: u64 = x.tick as u64 * 2 + if x.is_off { 0u64 } else { 1u64 };
        let mut p: usize = sorted.len();
        while p > 0
            invariant
                p <= sorted@.len(),
                x_key == sort_key(x),
                forall|j: int| p <= j < sorted@.len() ==> sort_key(#[trigger] sorted@[j]) > sort_key(
                    x,
                ),
            ensures
                p <= sorted@.len(),
                forall|j: int| p <= j < sorted@.len() ==> sort_key(#[trigger] sorted@[j]) > sort_key(
                    x,
                ),
                p == 0 || sort_key(sorted@[p - 1]) <= sort_key(x),
            decreases p,
        {
            let y = sorted[p - 1];
            let y_key: u64 = y.tick as u64 * 2 + if y.is_off { 0u64 } else { 1u64 };
            if y_key <= x_key {
                break;
            }
            p = p - 1;
        }
        proof {
            lemma_insert_at(sorted@, x, p as int);
            lemma_stable_sorted_is_sorted_permutation(events@.take(i as int));
            assert(events@.take(i + 1).drop_last() =~= events@.take(i as int));
        }
        sorted.insert(p, x);
        assert(sorted@ =~= stable_sorted(events@.take(i as int)).take(p as int) + seq![x]
            + stable_sorted(events@.take(i as int)).skip(p as int));
        i = i + 1;
    }
    assert(events@.take(i as int) =~= events@);
    sorted
}

/// The order of exported note events: ticks never decrease, and among
/// events at one tick every note-off comes before any note-on, so a note
/// that ends where the next one starts is released before it sounds again.
pub proof fn lemma_note_offs_before_note_ons(s: Seq<TimedNote>)
    ensures
        forall|i: int, j: int|
            0 <= i <= j < stable_sorted(s).len() ==> (#[trigger] stable_sorted(s)[i]).tick
                <= (#[trigger] stable_sorted(s)[j]).tick,
        forall|i: int, j: int|
            0 <= i < j < stable_sorted(s).len() && (#[trigger] stable_sorted(s)[i]).tick == (
            #[trigger] stable_sorted(s)[j]).tick ==> !(!stable_sorted(s)[i].is_off
                && stable_sorted(s)[j].is_off),
{
    lemma_stable_sorted_is_sorted_permutation(s);
    let r = stable_sorted(s);
    assert forall|i: int, j: int| 0 <= i <= j < r.len() implies (#[trigger] r[i]).tick <= (
    #[trigger] r[j]).tick by {
        assert(sort_key(r[i]) <= sort_key(r[j]));
    }
    assert forall|i: int, j: int|
        0 <= i < j < r.len() && (#[trigger] r[i]).tick == (#[trigger] r[j]).tick implies !(
        !r[i].is_off && r[j].is_off) by {
        assert(sort_key(r[i]) <= sort_key(r[j]));
    }
}

} // verus!
