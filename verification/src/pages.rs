//! The pages of generated measures shared between the composer and the
//! playback side, and the buffers of measure snapshots kept for display.

use vstd::prelude::*;
use crate::report::{MeasureSnapshot, same_snapshot};
use crate::timeline::{Measure, first_with_index, has_index, lemma_first_with_index, lemma_first_at};

verus! {

/// Most snapshots a display buffer keeps.
pub const SNAPSHOT_BUFFER_LIMIT: usize = 256;

/// The first bar to regenerate after a parameter change: the bar after the
/// playhead, or bar one before playback has begun.
pub open spec fn regeneration_bar(playhead_bar: usize) -> int {
    if playhead_bar == 0 {
        1
    } else {
        playhead_bar + 1
    }
}

/// The first bar past a preview window of `preview_bars` bars ahead of the
/// playhead (counting from bar one before playback has begun).
pub open spec fn preview_end_bar(playhead_bar: usize, preview_bars: usize) -> int {
    if playhead_bar == 0 {
        1 + preview_bars
    } else {
        playhead_bar + preview_bars
    }
}

/// The first bar to regenerate after a parameter change.
pub fn regeneration_start(playhead_bar: usize) -> (bar: usize)
    requires
        playhead_bar < usize::MAX,
    ensures
        bar == regeneration_bar(playhead_bar),
        bar > playhead_bar,
{
    if playhead_bar == 0 {
        1
    } else {
        playhead_bar + 1
    }
}

/// The first bar past the preview window; the bars before it are kept.
pub fn preview_end(playhead_bar: usize, preview_bars: usize) -> (bar: usize)
    requires
        playhead_bar + preview_bars < usize::MAX,
    ensures
        bar == preview_end_bar(playhead_bar, preview_bars),
{
    if playhead_bar == 0 {
        1 + preview_bars
    } else {
        playhead_bar + preview_bars
    }
}

/// The pages after publishing a measure: it replaces the first page with
/// its index, or is appended when there is none.
pub open spec fn published(pages: Seq<Measure>, m: Measure) -> Seq<Measure> {
    match first_with_index(pages, m.index) {
        Some(i) => pages.update(i, m),
        None => pages.push(m),
    }
}

/// Publishes a measure into the shared pages by its index.
pub fn publish_measure(pages: &mut Vec<Measure>, measure: Measure)
    ensures
        final(pages)@ == published(old(pages)@, measure),
{
    proof {
        lemma_first_with_index(pages@, measure.index);
    }
    let mut i: usize = 0;
    while i < pages.len()
        invariant
            i <= pages@.len(),
            pages@ == old(pages)@,
            forall|j: int| 0 <= j < i ==> pages@[j].index != measure.index,
            first_with_index(pages@, measure.index) is None <==> !has_index(pages@, measure.index),
        decreases pages.len() - i,
    {
        if pages[i].index == measure.index {
            proof {
                lemma_first_at(pages@, measure.index, i as int);
            }
            pages.set(i, measure);
            return;
        }
        i = i + 1;
    }
    proof {
        if has_index(pages@, measure.index) {
            let k = choose|k: int| 0 <= k < pages@.len() && #[trigger] pages@[k].index == measure.index;
            assert(pages@[k].index != measure.index);
        }
    }
    pages.push(measure);
}

/// The page of a bar, when one has been published: the first with its
/// index.
pub fn find_page(pages: &Vec<Measure>, bar: usize) -> (page: Option<&Measure>)
    ensures
        match first_with_index(pages@, bar) {
            Some(i) => page == Some(&pages@[i]),
            None => page is None,
        },
{
    proof {
        lemma_first_with_index(pages@, bar);
    }
    let mut i: usize = 0;
    while i < pages.len()
        invariant
            i <= pages@.len(),
            forall|j: int| 0 <= j < i ==> pages@[j].index != bar,
        decreases pages.len() - i,
    {
        if pages[i].index == bar {
            proof {
                lemma_first_at(pages@, bar, i as int);
            }
            return Some(&pages[i]);
        }
        i = i + 1;
    }
    proof {
        if has_index(pages@, bar) {
            let k = choose|k: int| 0 <= k < pages@.len() && #[trigger] pages@[k].index == bar;
            assert(pages@[k].index != bar);
        }
    }
    None
}

/// A published measure is the page found for its bar, and publishing adds
/// a page only for a bar that had none.
pub proof fn lemma_published_is_found(pages: Seq<Measure>, m: Measure)
    ensures
        first_with_index(published(pages, m), m.index) matches Some(i) && published(pages, m)[i]
            == m,
        published(pages, m).len() == pages.len() + if has_index(pages, m.index) {
            0int
        } else {
            1int
        },
{
    lemma_first_with_index(pages, m.index);
    let p = published(pages, m);
    match first_with_index(pages, m.index) {
        Some(i) => {
            assert forall|j: int| 0 <= j < i implies p[j].index != m.index by {
                assert(p[j] == pages[j]);
            }
            lemma_first_at(p, m.index, i);
        },
        None => {
            assert forall|j: int| 0 <= j < pages.len() implies p[j].index != m.index by {
                assert(p[j] == pages[j]);
                if pages[j].index == m.index {
                    assert(has_index(pages, m.index));
                }
            }
            lemma_first_at(p, m.index, pages.len() as int);
        },
    }
}

/// Drops every page at bar `bar` or later, keeping the others in order.
pub fn retain_before(pages: &mut Vec<Measure>, bar: usize)
    ensures
        final(pages)@ == old(pages)@.filter(|m: Measure| m.index < bar),
{
    let ghost pred = |m: Measure| m.index < bar;
    let ghost orig = pages@;
    let mut kept: Vec<Measure> = Vec::new();
    let mut rest: Vec<Measure> = Vec::new();
    std::mem::swap(&mut rest, pages);
    let n = rest.len();
    let mut i: usize = 0;
    while i < n
        invariant
            n == orig.len(),
            i <= n,
            rest@ == orig.skip(i as int),
            kept@ == orig.take(i as int).filter(pred),
            pred == (|m: Measure| m.index < bar),
        decreases n - i,
    {
        let m = rest.remove(0);
        reveal_with_fuel(Seq::filter, 1);
        assert(orig.take(i + 1).drop_last() =~= orig.take(i as int));
        assert(orig.take(i + 1).last() == m);
        if m.index < bar {
            kept.push(m);
        }
        i = i + 1;
        assert(rest@ =~= orig.skip(i as int));
    }
    assert(orig.take(n as int) =~= orig);
    *pages = kept;
}

/// The bar indices of a sequence of snapshots.
pub open spec fn snapshot_indices(s: Seq<MeasureSnapshot>) -> Seq<usize> {
    s.map_values(|m: MeasureSnapshot| m.index)
}

/// Position of the first occurrence of `k` in `keys`, or the length when
/// `k` does not occur.
pub open spec fn first_position(keys: Seq<usize>, k: usize) -> int
    decreases keys.len(),
{
    if keys.len() == 0 {
        0
    } else if keys[0] == k {
        0
    } else {
        1 + first_position(keys.drop_first(), k)
    }
}

proof fn lemma_first_position(keys: Seq<usize>, k: usize)
    ensures
        0 <= first_position(keys, k) <= keys.len(),
        first_position(keys, k) < keys.len() ==> keys[first_position(keys, k)] == k,
        forall|j: int| 0 <= j < first_position(keys, k) ==> keys[j] != k,
    decreases keys.len(),
{
    if keys.len() > 0 && keys[0] != k {
        lemma_first_position(keys.drop_first(), k);
        assert forall|j: int| 0 <= j < first_position(keys, k) implies keys[j] != k by {
            if j > 0 {
                assert(keys[j] == keys.drop_first()[j - 1]);
            }
        }
    }
}

proof fn lemma_first_position_at(keys: Seq<usize>, k: usize, i: int)
    requires
        0 <= i < keys.len(),
        keys[i] == k,
        forall|j: int| 0 <= j < i ==> keys[j] != k,
    ensures
        first_position(keys, k) == i,
    decreases i,
{
    if i > 0 {
        assert forall|j: int| 0 <= j < i - 1 implies keys.drop_first()[j] != k by {
            assert(keys.drop_first()[j] == keys[j + 1]);
        }
        lemma_first_position_at(keys.drop_first(), k, i - 1);
    }
}

/// Whether some snapshot of `s` is for bar `k`.
pub open spec fn holds_bar(s: Seq<MeasureSnapshot>, k: usize) -> bool {
    exists|i: int| 0 <= i < s.len() && #[trigger] s[i].index == k
}

/// The display buffer after absorbing new snapshots, from the combined
/// snapshots `c` (the buffer's, then the new ones): one snapshot per bar,
/// the earliest one of that bar in `c`, in increasing bar order, at most
/// the limit of them, and these are the latest bars of `c`.
pub open spec fn merged_buffer(c: Seq<MeasureSnapshot>, b: Seq<MeasureSnapshot>) -> bool {
    &&& forall|i: int, j: int| 0 <= i < j < b.len() ==> b[i].index < b[j].index
    &&& forall|i: int|
        0 <= i < b.len() ==> first_position(snapshot_indices(c), #[trigger] b[i].index) < c.len()
            && b[i] == c[first_position(snapshot_indices(c), b[i].index)]
    &&& b.len() <= SNAPSHOT_BUFFER_LIMIT
    &&& b.len() < SNAPSHOT_BUFFER_LIMIT ==> forall|j: int|
        0 <= j < c.len() ==> holds_bar(b, #[trigger] c[j].index)
    &&& b.len() > 0 ==> forall|j: int|
        0 <= j < c.len() && #[trigger] c[j].index >= b[0].index ==> holds_bar(b, c[j].index)
}

/// Absorbs newly generated snapshots into a display buffer: the buffer
/// stays ordered by bar with one snapshot per bar (the earlier one wins)
/// and keeps only the latest bars up to its limit.
pub fn merge_snapshots(buffer: &mut Vec<MeasureSnapshot>, incoming: Vec<MeasureSnapshot>)
    ensures
        merged_buffer(old(buffer)@ + incoming@, final(buffer)@),
{
    let ghost inc = incoming@;
    let mut rest: Vec<MeasureSnapshot> = Vec::new();
    std::mem::swap(&mut rest, buffer);
    let mut incoming = incoming;
    rest.append(&mut incoming);
    let ghost c = rest@;
    let ghost ck = snapshot_indices(c);
    assert(c =~= old(buffer)@ + inc);
    let n = rest.len();
    let mut out: Vec<MeasureSnapshot> = Vec::new();
    let mut i: usize = 0;
    while i < n
        invariant
            n == c.len(),
            ck == snapshot_indices(c),
            i <= n,
            rest@ == c.skip(i as int),
            forall|a: int, b: int| 0 <= a < b < out@.len() ==> out@[a].index < out@[b].index,
            forall|a: int|
                0 <= a < out@.len() ==> first_position(ck, #[trigger] out@[a].index) < i && out@[a]
                    == c[first_position(ck, out@[a].index)],
            forall|j: int| 0 <= j < i ==> holds_bar(out@, #[trigger] c[j].index),
        decreases n - i,
    {
        let x = rest.remove(0);
        assert(x == c[i as int]);
        let mut p: usize = 0;
        while p < out.len() && out[p].index < x.index
            invariant
                p <= out@.len(),
                forall|a: int| 0 <= a < p ==> out@[a].index < x.index,
            decreases out@.len() - p,
        {
            p = p + 1;
        }
        if p < out.len() && out[p].index == x.index {
            assert(holds_bar(out@, c[i as int].index)) by {
                assert(out@[p as int].index == c[i as int].index);
            }
        } else {
            proof {
                assert forall|j: int| 0 <= j < i implies ck[j] != x.index by {
                    assert(ck[j] == c[j].index);
                    if c[j].index == x.index {
                        let a = choose|a: int| 0 <= a < out@.len() && #[trigger] out@[a].index == c[j].index;
                        if a < p {
                            assert(out@[a].index < x.index);
                        } else if a == p {
                        } else {
                            assert(out@[p as int].index < out@[a].index);
                            assert(out@[p as int].index >= x.index);
                        }
                    }
                }
                assert(ck[i as int] == x.index);
                lemma_first_position_at(ck, x.index, i as int);
            }
            let ghost before = out@;
            out.insert(p, x);
            proof {
                assert forall|a: int, b: int| 0 <= a < b < out@.len() implies out@[a].index
                    < out@[b].index by {
                    if a < p && b > p {
                        assert(out@[b] == before[b - 1]);
                        if b - 1 > a {
                        }
                    }
                    if a > p {
                        assert(out@[a] == before[a - 1]);
                        assert(out@[b] == before[b - 1]);
                    }
                }
                assert forall|a: int|
                    0 <= a < out@.len() implies first_position(ck, #[trigger] out@[a].index) < i + 1
                        && out@[a] == c[first_position(ck, out@[a].index)] by {
                    if a > p {
                        assert(out@[a] == before[a - 1]);
                    }
                }
                assert forall|j: int| 0 <= j < i implies holds_bar(out@, #[trigger] c[j].index) by {
                    let a = choose|a: int| 0 <= a < before.len() && #[trigger] before[a].index == c[j].index;
                    if a < p {
                        assert(out@[a] == before[a]);
                    } else {
                        assert(out@[a + 1] == before[a]);
                    }
                }
                assert(out@[p as int].index == c[i as int].index);
            }
        }
        i = i + 1;
        assert(rest@ =~= c.skip(i as int));
    }
    let ghost mut removed = false;
    while out.len() > SNAPSHOT_BUFFER_LIMIT
        invariant
            forall|a: int, b: int| 0 <= a < b < out@.len() ==> out@[a].index < out@[b].index,
            forall|a: int|
                0 <= a < out@.len() ==> first_position(ck, #[trigger] out@[a].index) < c.len()
                    && out@[a] == c[first_position(ck, out@[a].index)],
            ck == snapshot_indices(c),
            n == c.len(),
            removed ==> out@.len() >= SNAPSHOT_BUFFER_LIMIT,
            !removed ==> forall|j: int| 0 <= j < c.len() ==> holds_bar(out@, #[trigger] c[j].index),
            out@.len() > 0 ==> forall|j: int|
                0 <= j < c.len() && #[trigger] c[j].index >= out@[0].index ==> holds_bar(
                    out@,
                    c[j].index,
                ),
        decreases out@.len(),
    {
        let ghost before = out@;
        let _ = out.remove(0);
        proof {
            assert forall|a: int, b: int| 0 <= a < b < out@.len() implies out@[a].index
                < out@[b].index by {
                assert(out@[a] == before[a + 1]);
                assert(out@[b] == before[b + 1]);
            }
            assert forall|a: int|
                0 <= a < out@.len() implies first_position(ck, #[trigger] out@[a].index) < c.len()
                    && out@[a] == c[first_position(ck, out@[a].index)] by {
                assert(out@[a] == before[a + 1]);
            }
            assert forall|j: int|
                0 <= j < c.len() && #[trigger] c[j].index >= out@[0].index implies holds_bar(
                out@,
                c[j].index,
            ) by {
                let a = choose|a: int| 0 <= a < before.len() && #[trigger] before[a].index == c[j].index;
                assert(out@[0] == before[1]);
                if a == 0 {
                    assert(before[0].index < before[1].index);
                } else {
                    assert(out@[a - 1] == before[a]);
                }
            }
            removed = true;
        }
    }
    *buffer = out;
}

/// The buffer after absorbing one snapshot: it replaces the first
/// snapshot of its bar, or is appended when its bar is new.
pub open spec fn upserted(buf: Seq<MeasureSnapshot>, m: MeasureSnapshot) -> Seq<MeasureSnapshot> {
    let p = first_position(snapshot_indices(buf), m.index);
    if p < buf.len() {
        buf.update(p, m)
    } else {
        buf.push(m)
    }
}

/// The buffer after absorbing snapshots one after the other.
pub open spec fn absorbed(buf: Seq<MeasureSnapshot>, inc: Seq<MeasureSnapshot>) -> Seq<
    MeasureSnapshot,
>
    decreases inc.len(),
{
    if inc.len() == 0 {
        buf
    } else {
        upserted(absorbed(buf, inc.drop_last()), inc.last())
    }
}

/// Absorbs new snapshots into a buffer in order, each replacing the
/// snapshot of its bar or appended after the others.
pub fn absorb_snapshots(buffer: &mut Vec<MeasureSnapshot>, incoming: Vec<MeasureSnapshot>)
    ensures
        final(buffer)@ == absorbed(old(buffer)@, incoming@),
{
    let ghost inc = incoming@;
    let ghost start = buffer@;
    let mut rest = incoming;
    let n = rest.len();
    let mut i: usize = 0;
    while i < n
        invariant
            n == inc.len(),
            i <= n,
            rest@ == inc.skip(i as int),
            buffer@ == absorbed(start, inc.take(i as int)),
        decreases n - i,
    {
        let m = rest.remove(0);
        assert(inc.take(i + 1).drop_last() =~= inc.take(i as int));
        assert(inc.take(i + 1).last() == m);
        let ghost cur = buffer@;
        proof {
            lemma_first_position(snapshot_indices(cur), m.index);
        }
        let mut p: usize = 0;
        while p < buffer.len() && buffer[p].index != m.index
            invariant
                buffer@ == cur,
                p <= cur.len(),
                forall|j: int| 0 <= j < p ==> cur[j].index != m.index,
            decreases cur.len() - p,
        {
            p = p + 1;
        }
        proof {
            if p < cur.len() {
                assert forall|j: int| 0 <= j < p implies snapshot_indices(cur)[j] != m.index by {
                    assert(snapshot_indices(cur)[j] == cur[j].index);
                }
                lemma_first_position_at(snapshot_indices(cur), m.index, p as int);
            } else {
                let q = first_position(snapshot_indices(cur), m.index);
                if q < cur.len() {
                    assert(snapshot_indices(cur)[q] == cur[q].index);
                }
            }
        }
        if p < buffer.len() {
            buffer.set(p, m);
        } else {
            buffer.push(m);
        }
        i = i + 1;
        assert(rest@ =~= inc.skip(i as int));
    }
    assert(inc.take(n as int) =~= inc);
}

/// Whether a snapshot lies in the bars `from_bar .. from_bar + count`.
pub open spec fn in_bar_range(m: MeasureSnapshot, from_bar: usize, count: usize) -> bool {
    from_bar <= m.index < from_bar + count
}

/// Copies of the buffered snapshots whose bars lie in `from_bar ..
/// from_bar + count`, in buffer order.
pub fn buffered_measures(buffer: &Vec<MeasureSnapshot>, from_bar: usize, count: usize) -> (found: Vec<
    MeasureSnapshot,
>)
    requires
        from_bar + count <= usize::MAX,
    ensures
        found@.len() == buffer@.filter(|m: MeasureSnapshot| in_bar_range(m, from_bar, count)).len(),
        forall|i: int|
            0 <= i < found@.len() ==> same_snapshot(
                #[trigger] found@[i],
                buffer@.filter(|m: MeasureSnapshot| in_bar_range(m, from_bar, count))[i],
            ),
{
    let ghost pred = |m: MeasureSnapshot| in_bar_range(m, from_bar, count);
    let end = from_bar + count;
    let mut found: Vec<MeasureSnapshot> = Vec::new();
    let mut i: usize = 0;
    while i < buffer.len()
        invariant
            i <= buffer@.len(),
            end == from_bar + count,
            pred == (|m: MeasureSnapshot| in_bar_range(m, from_bar, count)),
            found@.len() == buffer@.take(i as int).filter(pred).len(),
            forall|k: int|
                0 <= k < found@.len() ==> same_snapshot(
                    #[trigger] found@[k],
                    buffer@.take(i as int).filter(pred)[k],
                ),
        decreases buffer.len() - i,
    {
        reveal_with_fuel(Seq::filter, 1);
        assert(buffer@.take(i + 1).drop_last() =~= buffer@.take(i as int));
        assert(buffer@.take(i + 1).last() == buffer@[i as int]);
        if buffer[i].index >= from_bar && buffer[i].index < end {
            let copy = buffer[i].clone();
            found.push(copy);
        }
        i = i + 1;
    }
    assert(buffer@.take(buffer@.len() as int) =~= buffer@);
    found
}

} // verus!
