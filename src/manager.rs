//! The `Manager` interface: every operation on the clipboard history, stated
//! over a model of that history.
use vstd::prelude::*;

use crate::entry::{is_ordered, ClipEntry, ClipView};
use crate::error::{
    BatchRemoveClipError, ClearClipError, GetClipError, GetCurrentClipError, GetLengthError,
    InsertClipError, ListClipError, MarkClipError, RemoveClipError, UpdateClipError,
};
use crate::mode::ClipboardMode;

verus! {

/// The clipboard history as a manager holds it: the stored entries by id, and
/// the entry that each buffer currently holds.
pub ghost struct History {
    pub entries: Map<u64, ClipView>,
    pub clipboard: Option<u64>,
    pub selection: Option<u64>,
}

/// `current`, unless it names an id of `gone`.
pub open spec fn without_gone(current: Option<u64>, gone: Set<u64>) -> Option<u64> {
    match current {
        Some(c) => if gone.contains(c) {
            None
        } else {
            current
        },
        None => None,
    }
}

/// `current`, with `from` renamed to `to`.
pub open spec fn renamed(current: Option<u64>, from: u64, to: u64) -> Option<u64> {
    if current == Some(from) {
        Some(to)
    } else {
        current
    }
}

impl History {
    /// Finitely many entries, each stored under its own id, and each buffer
    /// holding a stored entry or none.
    pub open spec fn wf(self) -> bool {
        &&& self.entries.dom().finite()
        &&& forall|k: u64| #[trigger] self.entries.contains_key(k) ==> self.entries[k].id == k
        &&& (self.clipboard matches Some(c) ==> self.entries.contains_key(c))
        &&& (self.selection matches Some(c) ==> self.entries.contains_key(c))
    }

    /// No entries, and both buffers empty.
    pub open spec fn empty() -> History {
        History { entries: Map::empty(), clipboard: None, selection: None }
    }

    /// The id of the entry that the buffer `mode` holds.
    pub open spec fn current(self, mode: ClipboardMode) -> Option<u64> {
        match mode {
            ClipboardMode::Clipboard => self.clipboard,
            ClipboardMode::Selection => self.selection,
        }
    }

    /// The entry stored under `id`.
    pub open spec fn lookup(self, id: u64) -> Option<ClipView> {
        if self.entries.contains_key(id) {
            Some(self.entries[id])
        } else {
            None
        }
    }

    /// The entry that the buffer `mode` holds.
    pub open spec fn current_entry(self, mode: ClipboardMode) -> Option<ClipView> {
        match self.current(mode) {
            Some(id) => self.lookup(id),
            None => None,
        }
    }

    /// The history with the buffer `mode` holding `id`.
    pub open spec fn with_current(self, mode: ClipboardMode, id: Option<u64>) -> History {
        match mode {
            ClipboardMode::Clipboard => History { clipboard: id, ..self },
            ClipboardMode::Selection => History { selection: id, ..self },
        }
    }

    /// The history after `e` is stored and put into the buffer `mode`.
    pub open spec fn inserted(self, e: ClipView, mode: ClipboardMode) -> History {
        History { entries: self.entries.insert(e.id, e), ..self }.with_current(mode, Some(e.id))
    }

    /// The history after the entry `id` gets the stamp `stamp` and is put into
    /// the buffer `mode`.
    pub open spec fn marked(self, id: u64, mode: ClipboardMode, stamp: u64) -> History {
        History {
            entries: self.entries.insert(id, ClipView { timestamp: stamp, ..self.entries[id] }),
            ..self
        }.with_current(mode, Some(id))
    }

    /// The history after the entry `id`, if stored, gives way to `e`; a buffer
    /// that held `id` now holds `e`.
    pub open spec fn updated(self, id: u64, e: ClipView) -> History {
        History {
            entries: self.entries.remove(id).insert(e.id, e),
            clipboard: renamed(self.clipboard, id, e.id),
            selection: renamed(self.selection, id, e.id),
        }
    }

    /// The history after the entries with ids in `gone` are dropped.
    pub open spec fn removed_all(self, gone: Set<u64>) -> History {
        History {
            entries: self.entries.remove_keys(gone),
            clipboard: without_gone(self.clipboard, gone),
            selection: without_gone(self.selection, gone),
        }
    }

    /// The history after the entry `id` is dropped.
    pub open spec fn removed(self, id: u64) -> History {
        self.removed_all(set![id])
    }

    /// `s` lists the stored entries, each once, in presentation order.
    pub open spec fn is_listing(self, s: Seq<ClipEntry>) -> bool {
        &&& s.len() == self.entries.len()
        &&& forall|i: int|
            0 <= i < s.len() ==> #[trigger] self.lookup(s[i].id) == Some(s[i]@)
        &&& forall|i: int, j: int|
            0 <= i < j < s.len() ==> #[trigger] s[i].id != #[trigger] s[j].id
        &&& is_ordered(s)
    }
}

/// `after` is `before` with a new entry `id` holding `data` and `mime`, put
/// into the buffer `mode`; the entry's stamp is the manager's choice.
pub open spec fn inserted_as(
    before: History,
    after: History,
    id: u64,
    data: Seq<u8>,
    mime: Seq<char>,
    mode: ClipboardMode,
) -> bool {
    &&& !before.entries.contains_key(id)
    &&& after == before.inserted(
        ClipView { id, data, mime, timestamp: after.entries[id].timestamp },
        mode,
    )
}

/// `after` is `before` where the entry `id` gave way to an entry `new_id`
/// holding `data` and `mime`: the same id, or one that was not in use.
pub open spec fn updated_as(
    before: History,
    after: History,
    id: u64,
    new_id: u64,
    data: Seq<u8>,
    mime: Seq<char>,
) -> bool {
    &&& (new_id == id || !before.entries.contains_key(new_id))
    &&& after == before.updated(
        id,
        ClipView { id: new_id, data, mime, timestamp: after.entries[new_id].timestamp },
    )
}

/// The ids of `ids` that are stored in `h`, in their order in `ids`.
pub open spec fn present_ids(h: History, ids: Seq<u64>) -> Seq<u64> {
    ids.filter(|i: u64| h.entries.contains_key(i))
}

/// The operations of a clipboard history manager. Where an operation fails
/// with a status error, the call may or may not have reached the history.
pub trait Manager: Sized {
    /// The history that the manager holds.
    spec fn history(&self) -> History;

    /// The manager's own invariant.
    spec fn inv(&self) -> bool;

    /// The invariant keeps the history well formed.
    proof fn lemma_inv_wf(&self)
        requires
            self.inv(),
        ensures
            self.history().wf(),
    ;

    /// The entry stored under `id`; `Empty` exactly where there is none.
    fn get(&self, id: u64) -> (r: Result<ClipEntry, GetClipError>)
        requires
            self.inv(),
        ensures
            r matches Ok(e) ==> self.history().lookup(id) == Some(e@),
            r matches Err(GetClipError::Empty) ==> self.history().lookup(id) is None,
            r matches Err(GetClipError::Status { id: i, .. }) ==> i == id,
    ;

    /// The entry that the buffer `mode` holds; `Empty` exactly where it holds
    /// none.
    fn get_current_clip(&self, mode: ClipboardMode) -> (r: Result<ClipEntry, GetCurrentClipError>)
        requires
            self.inv(),
        ensures
            r matches Ok(e) ==> self.history().current_entry(mode) == Some(e@),
            r matches Err(GetCurrentClipError::Empty) ==> self.history().current_entry(mode) is None,
            r matches Err(GetCurrentClipError::Status { mode: m, .. }) ==> m == mode,
    ;

    /// Replaces the entry `id` by one holding `data` and `mime`; gives whether
    /// the id was kept, and the resulting id.
    fn update(&mut self, id: u64, data: &[u8], mime: &str) -> (r: Result<(bool, u64), UpdateClipError>)
        requires
            old(self).inv(),
        ensures
            final(self).inv(),
            r matches Ok((same, new_id)) ==> {
                &&& same == (new_id == id)
                &&& updated_as(old(self).history(), final(self).history(), id, new_id, data@, mime@)
            },
    ;

    /// Puts the entry `id` into the buffer `mode`; gives whether it is stored.
    fn mark(&mut self, id: u64, mode: ClipboardMode) -> (r: Result<bool, MarkClipError>)
        requires
            old(self).inv(),
        ensures
            final(self).inv(),
            r matches Ok(ok) ==> {
                &&& ok == old(self).history().entries.contains_key(id)
                &&& ok ==> final(self).history() == old(self).history().marked(
                    id,
                    mode,
                    final(self).history().entries[id].timestamp,
                )
                &&& !ok ==> final(self).history() == old(self).history()
            },
            r matches Err(MarkClipError::Status { id: i, mode: m, .. }) ==> i == id && m == mode,
    ;

    /// Stores a new entry holding `data` and `mime` and puts it into the
    /// buffer `mode`; gives its id.
    fn insert(&mut self, data: &[u8], mime: &str, mode: ClipboardMode) -> (r: Result<u64, InsertClipError>)
        requires
            old(self).inv(),
        ensures
            final(self).inv(),
            r matches Ok(id) ==> inserted_as(old(self).history(), final(self).history(), id, data@, mime@, mode),
    ;

    /// `insert` into the system clipboard.
    fn insert_clipboard(&mut self, data: &[u8], mime: &str) -> (r: Result<u64, InsertClipError>)
        requires
            old(self).inv(),
        ensures
            final(self).inv(),
            r matches Ok(id) ==> inserted_as(
                old(self).history(),
                final(self).history(),
                id,
                data@,
                mime@,
                ClipboardMode::Clipboard,
            ),
    {
        self.insert(data, mime, ClipboardMode::Clipboard)
    }

    /// `insert` into the primary selection.
    fn insert_primary(&mut self, data: &[u8], mime: &str) -> (r: Result<u64, InsertClipError>)
        requires
            old(self).inv(),
        ensures
            final(self).inv(),
            r matches Ok(id) ==> inserted_as(
                old(self).history(),
                final(self).history(),
                id,
                data@,
                mime@,
                ClipboardMode::Selection,
            ),
    {
        self.insert(data, mime, ClipboardMode::Selection)
    }

    /// The number of stored entries.
    fn length(&self) -> (r: Result<usize, GetLengthError>)
        requires
            self.inv(),
        ensures
            r matches Ok(n) ==> n == self.history().entries.len(),
    ;

    /// All stored entries, in presentation order.
    fn list(&self) -> (r: Result<Vec<ClipEntry>, ListClipError>)
        requires
            self.inv(),
        ensures
            r matches Ok(v) ==> self.history().is_listing(v@),
    ;

    /// Drops the entry `id`; gives whether it was stored.
    fn remove(&mut self, id: u64) -> (r: Result<bool, RemoveClipError>)
        requires
            old(self).inv(),
        ensures
            final(self).inv(),
            r matches Ok(ok) ==> {
                &&& ok == old(self).history().entries.contains_key(id)
                &&& final(self).history() == old(self).history().removed(id)
            },
    ;

    /// Drops the entries of `ids`; gives those of `ids` that were stored.
    fn batch_remove(&mut self, ids: &[u64]) -> (r: Result<Vec<u64>, BatchRemoveClipError>)
        requires
            old(self).inv(),
        ensures
            final(self).inv(),
            r matches Ok(v) ==> {
                &&& v@ == present_ids(old(self).history(), ids@)
                &&& final(self).history() == old(self).history().removed_all(ids@.to_set())
            },
    ;

    /// Drops every entry.
    fn clear(&mut self) -> (r: Result<(), ClearClipError>)
        requires
            old(self).inv(),
        ensures
            final(self).inv(),
            r is Ok ==> final(self).history() == History::empty(),
    ;
}

} // verus!
