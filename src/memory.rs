//! A manager that keeps the history in memory: a stand-in for the remote
//! service where code written against `Manager` is exercised.
use vstd::prelude::*;
use vstd::slice::slice_to_vec;

use crate::entry::{is_ordered, sort_entries, ClipEntry, ClipView};
use crate::error::{
    BatchRemoveClipError, ClearClipError, GetClipError, GetCurrentClipError, GetLengthError,
    InsertClipError, ListClipError, MarkClipError, RemoveClipError, UpdateClipError,
};
use crate::manager::{present_ids, updated_as, History, Manager};
use crate::mode::ClipboardMode;

verus! {

/// Relies on tonic::Status::resource_exhausted: builds the status that reports
/// that the manager has run out of ids.
#[verifier::external_body]
fn exhausted() -> tonic::Status {
    tonic::Status::resource_exhausted("no identifier left")
}

/// The ids of `s`, in order.
pub open spec fn ids_of(s: Seq<ClipEntry>) -> Seq<u64> {
    s.map_values(|e: ClipEntry| e.id)
}

/// The entries of `s` by id.
pub open spec fn entry_map(s: Seq<ClipEntry>) -> Map<u64, ClipView> {
    Map::new(|k: u64| ids_of(s).contains(k), |k: u64| s[ids_of(s).index_of(k)]@)
}

/// An in-memory clipboard history. Every id and stamp it has handed out is
/// below `tick`, so that the next one is fresh.
pub struct MemoryManager {
    entries: Vec<ClipEntry>,
    clipboard: Option<u64>,
    selection: Option<u64>,
    tick: u64,
}

/// With distinct ids, each entry of `s` is found under its own id.
proof fn lemma_entry_at(s: Seq<ClipEntry>, i: int)
    requires
        ids_of(s).no_duplicates(),
        0 <= i < s.len(),
    ensures
        entry_map(s).contains_key(s[i].id),
        entry_map(s)[s[i].id] == s[i]@,
{
    let ids = ids_of(s);
    assert(ids[i] == s[i].id);
    assert(ids.contains(s[i].id));
    let j = ids.index_of(s[i].id);
    assert(ids[j] == s[i].id);
}

/// A stored id belongs to some entry of `s`.
proof fn lemma_entry_witness(s: Seq<ClipEntry>, k: u64) -> (i: int)
    requires
        entry_map(s).contains_key(k),
    ensures
        0 <= i < s.len(),
        s[i].id == k,
{
    let ids = ids_of(s);
    let i = choose|i: int| 0 <= i < ids.len() && ids[i] == k;
    i
}

/// With distinct ids, the map has one key per entry, each keying its own entry.
proof fn lemma_entry_map_wf(s: Seq<ClipEntry>)
    requires
        ids_of(s).no_duplicates(),
    ensures
        entry_map(s).dom().finite(),
        entry_map(s).len() == s.len(),
        forall|k: u64| #[trigger]
            entry_map(s).contains_key(k) ==> entry_map(s)[k].id == k,
{
    let ids = ids_of(s);
    assert(entry_map(s).dom() =~= ids.to_set());
    ids.unique_seq_to_set();
    assert forall|k: u64| #[trigger] entry_map(s).contains_key(k) implies entry_map(s)[k].id
        == k by {
        let i = lemma_entry_witness(s, k);
        lemma_entry_at(s, i);
    }
}

/// Appending an entry with a fresh id adds it to the map.
proof fn lemma_entry_map_push(s: Seq<ClipEntry>, e: ClipEntry)
    requires
        ids_of(s).no_duplicates(),
        !ids_of(s).contains(e.id),
    ensures
        ids_of(s.push(e)).no_duplicates(),
        entry_map(s.push(e)) == entry_map(s).insert(e.id, e@),
{
    let t = s.push(e);
    assert(ids_of(t) =~= ids_of(s).push(e.id));
    assert(ids_of(t).no_duplicates()) by {
        assert forall|a: int, b: int|
            0 <= a < ids_of(t).len() && 0 <= b < ids_of(t).len() && a != b implies ids_of(t)[a]
            != ids_of(t)[b] by {
            if a < s.len() && b < s.len() {
                assert(ids_of(t)[a] == ids_of(s)[a] && ids_of(t)[b] == ids_of(s)[b]);
            } else if a < s.len() {
                assert(ids_of(s)[a] == ids_of(t)[a]);
            } else {
                assert(ids_of(s)[b] == ids_of(t)[b]);
            }
        }
    }
    assert forall|k: u64| #[trigger] entry_map(t).contains_key(k) <==> entry_map(s).insert(
        e.id,
        e@,
    ).contains_key(k) by {
        if entry_map(s).contains_key(k) {
            let i = lemma_entry_witness(s, k);
            assert(t[i] == s[i]);
            lemma_entry_at(t, i);
        }
        if k == e.id {
            lemma_entry_at(t, s.len() as int);
        }
        if entry_map(t).contains_key(k) {
            let i = lemma_entry_witness(t, k);
            if i < s.len() {
                assert(t[i] == s[i]);
                lemma_entry_at(s, i);
            }
        }
    }
    assert forall|k: u64| #[trigger] entry_map(t).contains_key(k) implies entry_map(t)[k]
        == entry_map(s).insert(e.id, e@)[k] by {
        let i = lemma_entry_witness(t, k);
        lemma_entry_at(t, i);
        if i < s.len() {
            assert(t[i] == s[i]);
            lemma_entry_at(s, i);
        }
    }
    assert(entry_map(t) =~= entry_map(s).insert(e.id, e@));
}

/// Overwriting an entry with one of the same id overwrites it in the map.
proof fn lemma_entry_map_set(s: Seq<ClipEntry>, i: int, e: ClipEntry)
    requires
        ids_of(s).no_duplicates(),
        0 <= i < s.len(),
        e.id == s[i].id,
    ensures
        ids_of(s.update(i, e)) == ids_of(s),
        entry_map(s.update(i, e)) == entry_map(s).insert(e.id, e@),
{
    let t = s.update(i, e);
    assert(ids_of(t) =~= ids_of(s));
    lemma_entry_at(s, i);
    assert(entry_map(t).dom() =~= entry_map(s).insert(e.id, e@).dom());
    assert forall|k: u64| #[trigger] entry_map(t).contains_key(k) implies entry_map(t)[k]
        == entry_map(s).insert(e.id, e@)[k] by {
        let j = lemma_entry_witness(t, k);
        lemma_entry_at(t, j);
        if j != i {
            assert(t[j] == s[j]);
            assert(ids_of(s)[j] != ids_of(s)[i]);
            lemma_entry_at(s, j);
        }
    }
    assert(entry_map(t) =~= entry_map(s).insert(e.id, e@));
}

/// Removing an entry drops its id from the map.
proof fn lemma_entry_map_remove(s: Seq<ClipEntry>, i: int)
    requires
        ids_of(s).no_duplicates(),
        0 <= i < s.len(),
    ensures
        ids_of(s.remove(i)).no_duplicates(),
        !ids_of(s.remove(i)).contains(s[i].id),
        entry_map(s.remove(i)) == entry_map(s).remove(s[i].id),
{
    let t = s.remove(i);
    let ids = ids_of(s);
    assert(ids_of(t) =~= ids.remove(i));
    assert forall|a: int| 0 <= a < t.len() implies #[trigger] t[a] == (if a < i {
        s[a]
    } else {
        s[a + 1]
    }) by {}
    assert(!ids_of(t).contains(s[i].id)) by {
        if ids_of(t).contains(s[i].id) {
            let a = choose|a: int| 0 <= a < ids_of(t).len() && ids_of(t)[a] == s[i].id;
            if a < i {
                assert(ids[a] == ids[i]);
            } else {
                assert(ids[a + 1] == ids[i]);
            }
        }
    }
    assert forall|k: u64| #[trigger] entry_map(t).contains_key(k) <==> entry_map(s).remove(
        s[i].id,
    ).contains_key(k) by {
        if entry_map(t).contains_key(k) {
            let a = lemma_entry_witness(t, k);
            if a < i {
                lemma_entry_at(s, a);
            } else {
                lemma_entry_at(s, a + 1);
            }
        }
        if entry_map(s).contains_key(k) && k != s[i].id {
            let a = lemma_entry_witness(s, k);
            if a < i {
                assert(ids_of(t)[a] == k);
            } else {
                assert(ids_of(t)[a - 1] == k);
            }
        }
    }
    assert forall|k: u64| #[trigger] entry_map(t).contains_key(k) implies entry_map(t)[k]
        == entry_map(s)[k] by {
        let a = lemma_entry_witness(t, k);
        lemma_entry_at(t, a);
        if a < i {
            lemma_entry_at(s, a);
        } else {
            lemma_entry_at(s, a + 1);
        }
    }
    assert(entry_map(t) =~= entry_map(s).remove(s[i].id));
}

/// Sorted copies of all entries of `s` are a listing of its history.
proof fn lemma_listing(h: History, s: Seq<ClipEntry>, copies: Seq<ClipEntry>, sorted: Seq<ClipEntry>)
    requires
        h.entries == entry_map(s),
        ids_of(s).no_duplicates(),
        copies.len() == s.len(),
        forall|j: int| 0 <= j < s.len() ==> (#[trigger] copies[j])@ == s[j]@,
        is_ordered(sorted),
        sorted.to_multiset() == copies.to_multiset(),
    ensures
        h.is_listing(sorted),
{
    broadcast use vstd::seq_lib::group_to_multiset_ensures;

    lemma_entry_map_wf(s);
    sorted.to_multiset_ensures();
    copies.to_multiset_ensures();
    assert(copies.no_duplicates()) by {
        assert forall|a: int, b: int|
            0 <= a < copies.len() && 0 <= b < copies.len() && a != b implies copies[a]
            != copies[b] by {
            assert(ids_of(s)[a] != ids_of(s)[b]);
        }
    }
    copies.lemma_multiset_has_no_duplicates();
    sorted.lemma_multiset_has_no_duplicates_conv();
    assert forall|i: int| 0 <= i < sorted.len() implies #[trigger] h.lookup(sorted[i].id) == Some(
        sorted[i]@,
    ) by {
        assert(sorted.contains(sorted[i]));
        assert(sorted.to_multiset().count(sorted[i]) > 0);
        assert(copies.contains(sorted[i]));
        let a = choose|a: int| 0 <= a < copies.len() && copies[a] == sorted[i];
        lemma_entry_at(s, a);
    }
    assert forall|i: int, j: int| 0 <= i < j < sorted.len() implies #[trigger] sorted[i].id
        != #[trigger] sorted[j].id by {
        assert(sorted.contains(sorted[i]));
        assert(sorted.to_multiset().count(sorted[i]) > 0);
        assert(copies.contains(sorted[i]));
        assert(sorted.contains(sorted[j]));
        assert(sorted.to_multiset().count(sorted[j]) > 0);
        assert(copies.contains(sorted[j]));
        let a = choose|a: int| 0 <= a < copies.len() && copies[a] == sorted[i];
        let b = choose|b: int| 0 <= b < copies.len() && copies[b] == sorted[j];
        if a != b {
            assert(ids_of(s)[a] != ids_of(s)[b]);
        }
    }
}

impl MemoryManager {
    /// Every id has been handed out: no entry can be added or marked.
    pub closed spec fn is_exhausted(&self) -> bool {
        self.tick == u64::MAX
    }

    /// An empty history.
    pub fn new() -> (r: MemoryManager)
        ensures
            r.inv(),
            r.history() == History::empty(),
            !r.is_exhausted(),
    {
        let r = MemoryManager { entries: Vec::new(), clipboard: None, selection: None, tick: 0 };
        proof {
            assert(entry_map(r.entries@) =~= Map::empty());
        }
        r
    }

    /// The position of the entry `id`.
    fn find(&self, id: u64) -> (r: Option<usize>)
        requires
            self.inv(),
        ensures
            r matches Some(i) ==> i < self.entries@.len() && self.entries@[i as int].id == id,
            r is None ==> !self.history().entries.contains_key(id),
    {
        let mut i: usize = 0;
        while i < self.entries.len()
            invariant
                i <= self.entries@.len(),
                forall|j: int| 0 <= j < i ==> (#[trigger] self.entries@[j]).id != id,
            decreases self.entries@.len() - i,
        {
            if self.entries[i].id == id {
                return Some(i);
            }
            i = i + 1;
        }
        proof {
            if self.history().entries.contains_key(id) {
                let j = lemma_entry_witness(self.entries@, id);
            }
        }
        None
    }

    /// The id of the entry that the buffer `mode` holds.
    fn current_id(&self, mode: ClipboardMode) -> (r: Option<u64>)
        ensures
            r == self.history().current(mode),
    {
        match mode {
            ClipboardMode::Clipboard => self.clipboard,
            ClipboardMode::Selection => self.selection,
        }
    }

    /// Puts `id` into the buffer `mode`.
    fn set_current(&mut self, mode: ClipboardMode, id: Option<u64>)
        ensures
            final(self).entries == old(self).entries,
            final(self).tick == old(self).tick,
            final(self).history() == old(self).history().with_current(mode, id),
    {
        match mode {
            ClipboardMode::Clipboard => self.clipboard = id,
            ClipboardMode::Selection => self.selection = id,
        }
    }
}

impl Manager for MemoryManager {
    closed spec fn history(&self) -> History {
        History { entries: entry_map(self.entries@), clipboard: self.clipboard, selection: self.selection }
    }

    closed spec fn inv(&self) -> bool {
        &&& ids_of(self.entries@).no_duplicates()
        &&& forall|i: int|
            0 <= i < self.entries@.len() ==> (#[trigger] self.entries@[i]).id < self.tick
                && self.entries@[i].timestamp < self.tick
        &&& (self.clipboard matches Some(c) ==> entry_map(self.entries@).contains_key(c))
        &&& (self.selection matches Some(c) ==> entry_map(self.entries@).contains_key(c))
    }

    proof fn lemma_inv_wf(&self) {
        lemma_entry_map_wf(self.entries@);
    }

    fn get(&self, id: u64) -> (r: Result<ClipEntry, GetClipError>)
        ensures
            r is Ok <==> self.history().entries.contains_key(id),
            r matches Err(e) ==> e is Empty,
    {
        match self.find(id) {
            Some(i) => {
                proof {
                    lemma_entry_at(self.entries@, i as int);
                }
                Ok(self.entries[i].duplicate())
            },
            None => Err(GetClipError::Empty),
        }
    }

    fn get_current_clip(&self, mode: ClipboardMode) -> (r: Result<ClipEntry, GetCurrentClipError>)
        ensures
            r is Ok <==> self.history().current(mode) is Some,
            r matches Err(e) ==> e is Empty,
    {
        match self.current_id(mode) {
            Some(id) => match self.find(id) {
                Some(i) => {
                    proof {
                        lemma_entry_at(self.entries@, i as int);
                    }
                    Ok(self.entries[i].duplicate())
                },
                None => Err(GetCurrentClipError::Empty),
            },
            None => Err(GetCurrentClipError::Empty),
        }
    }

    fn update(&mut self, id: u64, data: &[u8], mime: &str) -> (r: Result<(bool, u64), UpdateClipError>)
        ensures
            r is Ok <==> !old(self).is_exhausted(),
    {
        if self.tick == u64::MAX {
            return Err(UpdateClipError::Status { source: exhausted() });
        }
        let stamp = self.tick;
        let ghost before = self.history();
        proof {
            self.lemma_inv_wf();
        }
        match self.find(id) {
            Some(i) => {
                let e = ClipEntry::new(id, slice_to_vec(data), mime.to_owned(), stamp);
                let ghost s = self.entries@;
                proof {
                    lemma_entry_map_set(s, i as int, e);
                    lemma_entry_at(s, i as int);
                }
                self.entries.set(i, e);
                self.tick = stamp + 1;
                proof {
                    assert(self.entries@ == s.update(i as int, e));
                    assert(self.history().entries =~= before.entries.remove(id).insert(id, e@));
                    assert(e@ == ClipView { id, data: data@, mime: mime@, timestamp: stamp });
                    assert(updated_as(before, self.history(), id, id, data@, mime@));
                }
                Ok((true, id))
            },
            None => {
                let e = ClipEntry::new(stamp, slice_to_vec(data), mime.to_owned(), stamp);
                let ghost s = self.entries@;
                proof {
                    if ids_of(s).contains(stamp) {
                        let j = choose|j: int| 0 <= j < ids_of(s).len() && ids_of(s)[j] == stamp;
                        assert(s[j].id < self.tick);
                    }
                    lemma_entry_map_push(s, e);
                }
                self.entries.push(e);
                self.tick = stamp + 1;
                proof {
                    assert(self.entries@ == s.push(e));
                    assert(before.entries.remove(id) =~= before.entries);
                    lemma_entry_map_wf(self.entries@);
                    assert(e@ == ClipView { id: stamp, data: data@, mime: mime@, timestamp: stamp });
                    assert(updated_as(before, self.history(), id, stamp, data@, mime@));
                }
                Ok((stamp == id, stamp))
            },
        }
    }

    fn mark(&mut self, id: u64, mode: ClipboardMode) -> (r: Result<bool, MarkClipError>)
        ensures
            r is Ok <==> (!old(self).is_exhausted() || !old(self).history().entries.contains_key(id)),
    {
        match self.find(id) {
            None => Ok(false),
            Some(i) => {
                proof {
                    lemma_entry_at(self.entries@, i as int);
                }
                if self.tick == u64::MAX {
                    return Err(MarkClipError::Status { source: exhausted(), id, mode });
                }
                let stamp = self.tick;
                let ghost s = self.entries@;
                let ghost before = self.history();
                proof {
                    lemma_entry_at(s, i as int);
                }
                let e = self.entries[i].duplicate();
                let e = ClipEntry { timestamp: stamp, ..e };
                proof {
                    lemma_entry_map_set(s, i as int, e);
                }
                self.entries.set(i, e);
                self.tick = stamp + 1;
                self.set_current(mode, Some(id));
                proof {
                    assert(self.entries@ == s.update(i as int, e));
                    assert(self.history() == before.marked(id, mode, stamp));
                }
                Ok(true)
            },
        }
    }

    fn insert(&mut self, data: &[u8], mime: &str, mode: ClipboardMode) -> (r: Result<u64, InsertClipError>)
        ensures
            r is Ok <==> !old(self).is_exhausted(),
    {
        if self.tick == u64::MAX {
            return Err(InsertClipError::Status { source: exhausted() });
        }
        let stamp = self.tick;
        let e = ClipEntry::new(stamp, slice_to_vec(data), mime.to_owned(), stamp);
        let ghost s = self.entries@;
        proof {
            if ids_of(s).contains(stamp) {
                let j = choose|j: int| 0 <= j < ids_of(s).len() && ids_of(s)[j] == stamp;
                assert(s[j].id < self.tick);
            }
            lemma_entry_map_push(s, e);
        }
        self.entries.push(e);
        self.tick = stamp + 1;
        self.set_current(mode, Some(stamp));
        proof {
            assert(self.entries@ == s.push(e));
        }
        Ok(stamp)
    }

    fn length(&self) -> (r: Result<usize, GetLengthError>)
        ensures
            r is Ok,
    {
        proof {
            lemma_entry_map_wf(self.entries@);
        }
        Ok(self.entries.len())
    }

    fn list(&self) -> (r: Result<Vec<ClipEntry>, ListClipError>)
        ensures
            r is Ok,
    {
        let mut copies: Vec<ClipEntry> = Vec::with_capacity(self.entries.len());
        let mut i: usize = 0;
        while i < self.entries.len()
            invariant
                i <= self.entries@.len(),
                copies@.len() == i,
                forall|j: int| 0 <= j < i ==> (#[trigger] copies@[j])@ == self.entries@[j]@,
            decreases self.entries@.len() - i,
        {
            copies.push(self.entries[i].duplicate());
            i = i + 1;
        }
        let sorted = sort_entries(copies);
        proof {
            lemma_listing(self.history(), self.entries@, copies@, sorted@);
        }
        Ok(sorted)
    }

    fn remove(&mut self, id: u64) -> (r: Result<bool, RemoveClipError>)
        ensures
            r is Ok,
    {
        let ghost before = self.history();
        proof {
            self.lemma_inv_wf();
        }
        match self.find(id) {
            Some(i) => {
                let ghost s = self.entries@;
                proof {
                    lemma_entry_map_remove(s, i as int);
                    lemma_entry_at(s, i as int);
                }
                self.entries.remove(i);
                if self.clipboard == Some(id) {
                    self.clipboard = None;
                }
                if self.selection == Some(id) {
                    self.selection = None;
                }
                proof {
                    assert(self.entries@ == s.remove(i as int));
                    assert(before.entries.remove(id) =~= before.entries.remove_keys(set![id]));
                    assert forall|j: int| 0 <= j < self.entries@.len() implies (
                    #[trigger] self.entries@[j]).id < self.tick && self.entries@[j].timestamp
                        < self.tick by {
                        if j >= i {
                            assert(self.entries@[j] == s[j + 1]);
                        }
                    }
                }
                Ok(true)
            },
            None => {
                proof {
                    assert(before.entries =~= before.entries.remove_keys(set![id]));
                }
                Ok(false)
            },
        }
    }

    fn batch_remove(&mut self, ids: &[u64]) -> (r: Result<Vec<u64>, BatchRemoveClipError>)
        ensures
            r is Ok,
    {
        let ghost before = self.history();
        let mut present: Vec<u64> = Vec::new();
        let mut i: usize = 0;
        while i < ids.len()
            invariant
                self.inv(),
                self.history() == before,
                i <= ids@.len(),
                present@ == present_ids(before, ids@.take(i as int)),
            decreases ids@.len() - i,
        {
            proof {
                broadcast use vstd::seq::Seq::lemma_filter_push;

                assert(ids@.take(i as int + 1) =~= ids@.take(i as int).push(ids@[i as int]));
            }
            match self.find(ids[i]) {
                Some(k) => {
                    proof {
                        lemma_entry_at(self.entries@, k as int);
                    }
                    present.push(ids[i]);
                },
                None => {},
            }
            i = i + 1;
        }
        proof {
            assert(ids@.take(ids@.len() as int) =~= ids@);
            assert(ids@.take(0).to_set() =~= Set::empty());
            assert(before.entries.remove_keys(Set::empty()) =~= before.entries);
        }
        let mut j: usize = 0;
        while j < ids.len()
            invariant
                self.inv(),
                j <= ids@.len(),
                self.history() == before.removed_all(ids@.take(j as int).to_set()),
            decreases ids@.len() - j,
        {
            let ghost mid = self.history();
            let r = self.remove(ids[j]);
            proof {
                let gone = ids@.take(j as int).to_set();
                let more = ids@.take(j as int + 1).to_set();
                assert(ids@.take(j as int + 1) =~= ids@.take(j as int).push(ids@[j as int]));
                ids@.take(j as int).lemma_push_to_set_commute(ids@[j as int]);
                assert(self.history().entries =~= before.entries.remove_keys(more));
            }
            j = j + 1;
        }
        proof {
            assert(ids@.take(ids@.len() as int) =~= ids@);
        }
        Ok(present)
    }

    fn clear(&mut self) -> (r: Result<(), ClearClipError>)
        ensures
            r is Ok,
    {
        self.entries = Vec::new();
        self.clipboard = None;
        self.selection = None;
        proof {
            assert(entry_map(self.entries@) =~= Map::empty());
        }
        Ok(())
    }
}

} // verus!
