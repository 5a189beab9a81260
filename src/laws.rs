//! Laws of the history model that hold across operations of `Manager`.
use vstd::prelude::*;
use vstd::set_lib::lemma_subset_equality;

use crate::entry::{precedes, ClipEntry, ClipView};
use crate::manager::{inserted_as, present_ids, History};
use crate::mode::ClipboardMode;

verus! {

/// After an entry is inserted, looking its id up finds the inserted payload
/// and media type, and the buffer it went into holds it.
pub proof fn lemma_insert_then_get(
    before: History,
    after: History,
    id: u64,
    data: Seq<u8>,
    mime: Seq<char>,
    mode: ClipboardMode,
)
    requires
        before.wf(),
        inserted_as(before, after, id, data, mime, mode),
    ensures
        after.wf(),
        after.lookup(id) matches Some(v) && v.id == id && v.data == data && v.mime == mime,
        after.current_entry(mode) == after.lookup(id),
{
}

/// The ids of a listing of `h` are all the ids that `h` stores.
proof fn lemma_listing_covers(h: History, s: Seq<ClipEntry>)
    requires
        h.wf(),
        h.is_listing(s),
    ensures
        forall|k: u64| #[trigger]
            h.entries.contains_key(k) ==> exists|i: int| 0 <= i < s.len() && s[i].id == k,
{
    let ids = s.map_values(|e: ClipEntry| e.id);
    assert forall|a: int, b: int| 0 <= a < ids.len() && 0 <= b < ids.len() && a != b implies ids[a]
        != ids[b] by {
        if a < b {
            assert(s[a].id != s[b].id);
        } else {
            assert(s[b].id != s[a].id);
        }
    }
    ids.unique_seq_to_set();
    assert forall|k: u64| ids.to_set().contains(k) implies h.entries.dom().contains(k) by {
        let i = choose|i: int| 0 <= i < ids.len() && ids[i] == k;
        assert(h.lookup(s[i].id) == Some(s[i]@));
    }
    lemma_subset_equality(ids.to_set(), h.entries.dom());
    assert forall|k: u64| #[trigger] h.entries.contains_key(k) implies exists|i: int|
        0 <= i < s.len() && s[i].id == k by {
        assert(ids.to_set().contains(k));
        let i = choose|i: int| 0 <= i < ids.len() && ids[i] == k;
        assert(s[i].id == k);
    }
}

/// Two sequences, each ordered and with distinct ids, that hold the same
/// entries (at most one per id) are the same sequence.
proof fn lemma_ordered_unique(x: Seq<ClipView>, y: Seq<ClipView>)
    requires
        forall|i: int, j: int|
            0 <= i < j < x.len() ==> precedes(#[trigger] x[i], #[trigger] x[j]) && x[i].id != x[j].id,
        forall|i: int, j: int|
            0 <= i < j < y.len() ==> precedes(#[trigger] y[i], #[trigger] y[j]) && y[i].id != y[j].id,
        forall|v: ClipView| x.contains(v) <==> y.contains(v),
        forall|u: ClipView, v: ClipView|
            #[trigger] x.contains(u) && #[trigger] x.contains(v) && u.id == v.id ==> u == v,
    ensures
        x == y,
    decreases x.len(),
{
    if x.len() == 0 {
        if y.len() > 0 {
            assert(y.contains(y[0]));
        }
        assert(x =~= y);
    } else {
        assert(x.contains(x[0]));
        assert(y.len() > 0);
        assert(y.contains(y[0]));
        let k = choose|k: int| 0 <= k < y.len() && y[k] == x[0];
        let m = choose|m: int| 0 <= m < x.len() && x[m] == y[0];
        if k != 0 && m != 0 {
            assert(precedes(x[0], x[m]) && x[0].id != x[m].id);
            assert(precedes(y[0], y[k]));
            assert(x.contains(x[m]));
            assert(false);
        }
        assert(x[0] == y[0]);
        let xs = x.drop_first();
        let ys = y.drop_first();
        assert forall|v: ClipView| xs.contains(v) <==> ys.contains(v) by {
            if xs.contains(v) {
                let a = choose|a: int| 0 <= a < xs.len() && xs[a] == v;
                assert(x[a + 1] == v);
                assert(x.contains(v));
                let b = choose|b: int| 0 <= b < y.len() && y[b] == v;
                if b == 0 {
                    assert(x[0].id != x[a + 1].id);
                }
                assert(ys[b - 1] == v);
            }
            if ys.contains(v) {
                let a = choose|a: int| 0 <= a < ys.len() && ys[a] == v;
                assert(y[a + 1] == v);
                assert(y.contains(v));
                let b = choose|b: int| 0 <= b < x.len() && x[b] == v;
                if b == 0 {
                    assert(y[0].id != y[a + 1].id);
                }
                assert(xs[b - 1] == v);
            }
        }
        assert forall|u: ClipView, v: ClipView|
            #[trigger] xs.contains(u) && #[trigger] xs.contains(v) && u.id == v.id implies u
            == v by {
            let a = choose|a: int| 0 <= a < xs.len() && xs[a] == u;
            let b = choose|b: int| 0 <= b < xs.len() && xs[b] == v;
            assert(x[a + 1] == u && x[b + 1] == v);
            assert(x.contains(u) && x.contains(v));
        }
        assert forall|i: int, j: int| 0 <= i < j < xs.len() implies precedes(
            #[trigger] xs[i],
            #[trigger] xs[j],
        ) && xs[i].id != xs[j].id by {
            assert(xs[i] == x[i + 1] && xs[j] == x[j + 1]);
        }
        assert forall|i: int, j: int| 0 <= i < j < ys.len() implies precedes(
            #[trigger] ys[i],
            #[trigger] ys[j],
        ) && ys[i].id != ys[j].id by {
            assert(ys[i] == y[i + 1] && ys[j] == y[j + 1]);
        }
        lemma_ordered_unique(xs, ys);
        assert(x =~= seq![x[0]] + xs);
        assert(y =~= seq![y[0]] + ys);
    }
}

/// Two listings of the same history hold the same entries in the same order.
pub proof fn lemma_listing_unique(h: History, a: Seq<ClipEntry>, b: Seq<ClipEntry>)
    requires
        h.wf(),
        h.is_listing(a),
        h.is_listing(b),
    ensures
        a.len() == b.len(),
        forall|i: int| 0 <= i < a.len() ==> (#[trigger] a[i])@ == b[i]@,
{
    let x = a.map_values(|e: ClipEntry| e@);
    let y = b.map_values(|e: ClipEntry| e@);
    lemma_listing_covers(h, a);
    lemma_listing_covers(h, b);
    assert forall|v: ClipView| x.contains(v) implies h.entries.contains_key(v.id)
        && h.entries[v.id] == v by {
        let i = choose|i: int| 0 <= i < x.len() && x[i] == v;
        assert(h.lookup(a[i].id) == Some(a[i]@));
    }
    assert forall|v: ClipView| y.contains(v) implies h.entries.contains_key(v.id)
        && h.entries[v.id] == v by {
        let i = choose|i: int| 0 <= i < y.len() && y[i] == v;
        assert(h.lookup(b[i].id) == Some(b[i]@));
    }
    assert forall|v: ClipView| x.contains(v) <==> y.contains(v) by {
        if x.contains(v) {
            assert(h.entries.contains_key(v.id));
            let j = choose|j: int| 0 <= j < b.len() && b[j].id == v.id;
            assert(h.lookup(b[j].id) == Some(b[j]@));
            assert(y[j] == v);
        }
        if y.contains(v) {
            assert(h.entries.contains_key(v.id));
            let j = choose|j: int| 0 <= j < a.len() && a[j].id == v.id;
            assert(h.lookup(a[j].id) == Some(a[j]@));
            assert(x[j] == v);
        }
    }
    assert forall|i: int, j: int| 0 <= i < j < x.len() implies precedes(
        #[trigger] x[i],
        #[trigger] x[j],
    ) && x[i].id != x[j].id by {
        assert(a[i].id != a[j].id);
    }
    assert forall|i: int, j: int| 0 <= i < j < y.len() implies precedes(
        #[trigger] y[i],
        #[trigger] y[j],
    ) && y[i].id != y[j].id by {
        assert(b[i].id != b[j].id);
    }
    lemma_ordered_unique(x, y);
    assert forall|i: int| 0 <= i < a.len() implies (#[trigger] a[i])@ == b[i]@ by {
        assert(x[i] == y[i]);
    }
}

/// Removing an id leaves a well-formed history without it and with every
/// other entry as it was; so a second removal of the same id finds nothing.
pub proof fn lemma_remove_once(h: History, id: u64)
    requires
        h.wf(),
    ensures
        h.removed(id).wf(),
        h.removed(id).lookup(id) is None,
        forall|k: u64| k != id ==> #[trigger] h.removed(id).lookup(k) == h.lookup(k),
{
    lemma_removed_all_wf(h, set![id]);
}

/// What `batch_remove` reports holds exactly the ids of `ids` that were
/// stored, each no more often than in `ids`; afterwards none of `ids` is
/// stored.
pub proof fn lemma_batch_remove(h: History, ids: Seq<u64>)
    requires
        h.wf(),
    ensures
        forall|k: u64|
            #[trigger] present_ids(h, ids).contains(k) <==> (ids.contains(k)
                && h.entries.contains_key(k)),
        present_ids(h, ids).len() <= ids.len(),
        h.removed_all(ids.to_set()).wf(),
        forall|k: u64| #[trigger] ids.contains(k) ==> h.removed_all(ids.to_set()).lookup(k) is None,
{
    broadcast use vstd::seq_lib::group_filter_ensures;

    let f = |i: u64| h.entries.contains_key(i);
    assert forall|k: u64| #[trigger] present_ids(h, ids).contains(k) <==> (ids.contains(k)
        && h.entries.contains_key(k)) by {
        if ids.contains(k) && h.entries.contains_key(k) {
            let i = choose|i: int| 0 <= i < ids.len() && ids[i] == k;
            ids.lemma_filter_contains(f, i);
        }
        if present_ids(h, ids).contains(k) {
            let i = choose|i: int| 0 <= i < ids.filter(f).len() && ids.filter(f)[i] == k;
            assert(f(ids.filter(f)[i]));
            ids.lemma_filter_contains_rev(f, k);
        }
    }
    lemma_removed_all_wf(h, ids.to_set());
}

/// Dropping entries keeps a history well formed.
proof fn lemma_removed_all_wf(h: History, gone: Set<u64>)
    requires
        h.wf(),
    ensures
        h.removed_all(gone).wf(),
{
    assert(h.removed_all(gone).entries.dom() =~= h.entries.dom().difference(gone));
}

/// After `clear`, the history holds nothing, and its only listing is empty.
pub proof fn lemma_cleared(s: Seq<ClipEntry>)
    ensures
        History::empty().wf(),
        History::empty().entries.len() == 0,
        History::empty().is_listing(s) ==> s.len() == 0,
{
}

} // verus!
