use vstd::prelude::*;
use vstd::multiset::Multiset;
use vstd::seq_lib::lemma_multiset_commutative;

verus! {

/// One stored clipboard item.
#[derive(Debug)]
pub struct ClipEntry {
    /// Identity assigned by the manager.
    pub id: u64,
    /// The payload.
    pub data: Vec<u8>,
    /// The media type, in its canonical `type/subtype` form.
    pub mime: String,
    /// Recency stamp: a larger stamp was used more recently.
    pub timestamp: u64,
}

/// What a `ClipEntry` holds, as mathematical values.
pub ghost struct ClipView {
    pub id: u64,
    pub data: Seq<u8>,
    pub mime: Seq<char>,
    pub timestamp: u64,
}

impl View for ClipEntry {
    type V = ClipView;

    open spec fn view(&self) -> ClipView {
        ClipView { id: self.id, data: self.data@, mime: self.mime@, timestamp: self.timestamp }
    }
}

/// The order in which entries are presented: most recently used first, and
/// among entries with the same stamp, the smaller id first.
pub open spec fn precedes(a: ClipView, b: ClipView) -> bool {
    a.timestamp > b.timestamp || (a.timestamp == b.timestamp && a.id <= b.id)
}

/// Each entry of `s` precedes every later one.
pub open spec fn is_ordered(s: Seq<ClipEntry>) -> bool {
    forall|i: int, j: int| 0 <= i < j < s.len() ==> precedes(#[trigger] s[i]@, #[trigger] s[j]@)
}

impl ClipEntry {
    /// Builds an entry from its parts.
    pub fn new(id: u64, data: Vec<u8>, mime: String, timestamp: u64) -> (r: ClipEntry)
        ensures
            r.id == id,
            r.data@ == data@,
            r.mime@ == mime@,
            r.timestamp == timestamp,
    {
        ClipEntry { id, data, mime, timestamp }
    }

    /// Whether `self` comes no later than `other` in presentation order.
    pub fn precedes(&self, other: &ClipEntry) -> (r: bool)
        ensures
            r == precedes(self@, other@),
    {
        self.timestamp > other.timestamp || (self.timestamp == other.timestamp && self.id
            <= other.id)
    }

    /// An independent copy of the entry.
    pub fn duplicate(&self) -> (r: ClipEntry)
        ensures
            r@ == self@,
    {
        let mut data: Vec<u8> = Vec::with_capacity(self.data.len());
        let mut i: usize = 0;
        while i < self.data.len()
            invariant
                i <= self.data@.len(),
                data@ == self.data@.take(i as int),
            decreases self.data@.len() - i,
        {
            data.push(self.data[i]);
            i = i + 1;
            assert(data@ =~= self.data@.take(i as int));
        }
        assert(data@ =~= self.data@);
        ClipEntry { id: self.id, data, mime: self.mime.clone(), timestamp: self.timestamp }
    }
}

/// Inserting into a sequence adds one occurrence to its multiset.
proof fn lemma_insert_to_multiset(s: Seq<ClipEntry>, pos: int, x: ClipEntry)
    requires
        0 <= pos <= s.len(),
    ensures
        s.insert(pos, x).to_multiset() == s.to_multiset().insert(x),
{
    let front = s.take(pos);
    let back = s.skip(pos);
    assert(s.insert(pos, x) =~= front.push(x) + back);
    assert(s =~= front + back);
    lemma_multiset_commutative(front.push(x), back);
    lemma_multiset_commutative(front, back);
    front.to_multiset_ensures();
    assert(front.push(x).to_multiset() =~= front.to_multiset().insert(x)) by {
        broadcast use vstd::seq_lib::group_to_multiset_ensures;
    }
}

/// Puts entries in presentation order; the same entries come out.
pub fn sort_entries(v: Vec<ClipEntry>) -> (r: Vec<ClipEntry>)
    ensures
        is_ordered(r@),
        r@.to_multiset() == v@.to_multiset(),
{
    let ghost original = v@;
    let mut rest = v;
    let mut out: Vec<ClipEntry> = Vec::new();
    proof {
        broadcast use vstd::seq_lib::group_to_multiset_ensures;

        assert(out@.to_multiset() =~= Multiset::empty());
        assert(out@.to_multiset().add(rest@.to_multiset()) =~= rest@.to_multiset());
    }
    while rest.len() > 0
        invariant
            is_ordered(out@),
            out@.to_multiset().add(rest@.to_multiset()) == original.to_multiset(),
        decreases rest@.len(),
    {
        let ghost before = rest@;
        let x = rest.pop().unwrap();
        proof {
            assert(before =~= rest@.push(x));
            broadcast use vstd::seq_lib::group_to_multiset_ensures;
        }
        let mut pos: usize = 0;
        while pos < out.len() && out[pos].precedes(&x)
            invariant
                pos <= out@.len(),
                forall|k: int| 0 <= k < pos ==> precedes(#[trigger] out@[k]@, x@),
            decreases out@.len() - pos,
        {
            pos = pos + 1;
        }
        let ghost prev = out@;
        out.insert(pos, x);
        proof {
            assert(out@ == prev.insert(pos as int, x));
            assert forall|i: int, j: int| 0 <= i < j < out@.len() implies precedes(
                #[trigger] out@[i]@,
                #[trigger] out@[j]@,
            ) by {
                if j < pos {
                    assert(out@[i] == prev[i] && out@[j] == prev[j]);
                } else if j == pos {
                    assert(out@[i] == prev[i]);
                } else if i == pos {
                    assert(out@[j] == prev[j - 1]);
                    assert(!precedes(prev[pos as int]@, x@));
                    assert(precedes(prev[pos as int]@, prev[j - 1]@) || j - 1 == pos);
                } else if i < pos {
                    assert(out@[i] == prev[i] && out@[j] == prev[j - 1]);
                } else {
                    assert(out@[i] == prev[i - 1] && out@[j] == prev[j - 1]);
                }
            }
            lemma_insert_to_multiset(prev, pos as int, x);
        }
    }
    proof {
        broadcast use vstd::seq_lib::group_to_multiset_ensures;

        assert(rest@.to_multiset() =~= Multiset::empty());
        assert(out@.to_multiset().add(rest@.to_multiset()) =~= out@.to_multiset());
    }
    out
}

} // verus!
