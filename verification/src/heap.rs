//! A bounded collection that keeps the largest files seen during a scan.
use vstd::prelude::*;

use vstd::multiset::Multiset;

use crate::path::{file_name, file_name_exec};

verus! {

broadcast use vstd::seq_lib::group_to_multiset_ensures;

/// What a large-file entry holds: its name, its path and its size in bytes.
pub type EntryView = (Seq<char>, Seq<char>, u64);

/// A file found by the disk analyzer.
pub struct LargeFileEntry {
    pub name: String,
    pub path: String,
    pub size_bytes: u64,
}

impl View for LargeFileEntry {
    type V = EntryView;

    open spec fn view(&self) -> EntryView {
        (self.name@, self.path@, self.size_bytes)
    }
}

/// The views of a sequence of entries.
pub open spec fn entry_views(s: Seq<LargeFileEntry>) -> Seq<EntryView> {
    s.map_values(|e: LargeFileEntry| e@)
}

/// The entry that a push of `path` with `size` records: the file name of the path, or
/// the empty string when the path has none.
pub open spec fn new_entry(path: Seq<char>, size: u64) -> EntryView {
    let name = match file_name(path) {
        Some(n) => n,
        None => Seq::empty(),
    };
    (name, path, size)
}

/// `s[i]` has the smallest size in `s`.
pub open spec fn is_min_size(s: Seq<EntryView>, i: int) -> bool {
    &&& 0 <= i < s.len()
    &&& forall|j: int| 0 <= j < s.len() ==> s[i].2 <= #[trigger] s[j].2
}

/// The sizes in `s` never increase.
pub open spec fn sorted_by_size_desc(s: Seq<EntryView>) -> bool {
    forall|i: int, j: int| 0 <= i < j < s.len() ==> s[j].2 <= s[i].2
}

/// Keeps at most `capacity` entries: once full, each push drops an entry of the
/// smallest size, so the entries kept are always the largest pushed so far.
pub struct LargeFileHeap {
    capacity: usize,
    entries: Vec<LargeFileEntry>,
    dropped: Ghost<Seq<EntryView>>,
    pushed: Ghost<Seq<EntryView>>,
}

impl View for LargeFileHeap {
    type V = Seq<EntryView>;

    closed spec fn view(&self) -> Seq<EntryView> {
        entry_views(self.entries@)
    }
}

impl LargeFileHeap {
    /// How many entries the heap keeps.
    pub closed spec fn limit(&self) -> nat {
        self.capacity as nat
    }

    /// The entries pushed and since dropped, in the order they left.
    pub closed spec fn dropped(&self) -> Seq<EntryView> {
        self.dropped@
    }

    /// Every entry pushed since the heap was made, in the order of the pushes.
    pub closed spec fn pushed(&self) -> Seq<EntryView> {
        self.pushed@
    }

    /// The heap holds at most `limit` entries, holds exactly `limit` once anything was
    /// dropped, nothing dropped is larger than anything kept, and what is kept together
    /// with what was dropped is what was pushed.
    pub closed spec fn wf(&self) -> bool {
        &&& self.entries.len() <= self.capacity
        &&& self.entries.len() + self.dropped@.len() == self.pushed@.len()
        &&& self@.to_multiset().add(self.dropped@.to_multiset()) == self.pushed@.to_multiset()
        &&& self.dropped@.len() > 0 ==> self.entries.len() == self.capacity
        &&& forall|d: int, k: int|
            0 <= d < self.dropped@.len() && 0 <= k < self.entries.len() ==> #[trigger] self.dropped@[d].2
                <= #[trigger] self.entries@[k].size_bytes
    }

    /// An empty heap that keeps up to `capacity` entries.
    pub fn new(capacity: usize) -> (h: Self)
        requires
            capacity < usize::MAX,
        ensures
            h.wf(),
            h@ == Seq::<EntryView>::empty(),
            h.limit() == capacity,
            h.dropped() == Seq::<EntryView>::empty(),
            h.pushed() == Seq::<EntryView>::empty(),
    {
        let h = LargeFileHeap {
            capacity,
            entries: Vec::new(),
            dropped: Ghost(Seq::empty()),
            pushed: Ghost(Seq::empty()),
        };
        proof {
            broadcast use vstd::multiset::group_multiset_axioms;

            assert(h@ =~= Seq::<EntryView>::empty());
            assert(h@.to_multiset().add(h.dropped@.to_multiset()) =~= h.pushed@.to_multiset());
        }
        h
    }

    /// Records the file at `path` with its size; when that makes the heap hold more than
    /// its limit, an entry of the smallest size leaves it.
    pub fn push(&mut self, path: &str, size_bytes: u64)
        requires
            old(self).wf(),
        ensures
            final(self).wf(),
            final(self).limit() == old(self).limit(),
            final(self).pushed() == old(self).pushed().push(new_entry(path@, size_bytes)),
            ({
                let all = old(self)@.push(new_entry(path@, size_bytes));
                if all.len() <= old(self).limit() {
                    &&& final(self)@ == all
                    &&& final(self).dropped() == old(self).dropped()
                } else {
                    exists|i: int|
                        #[trigger] is_min_size(all, i) && final(self)@ == all.remove(i)
                            && final(self).dropped() == old(self).dropped().push(all[i])
                }
            }),
    {
        let name = match file_name_exec(path) {
            Some(n) => n,
            None => String::new(),
        };
        let entry = LargeFileEntry { name, path: path.to_string(), size_bytes };
        assert(entry@ == new_entry(path@, size_bytes));
        let ghost old_entries = self.entries@;
        let ghost all = old(self)@.push(entry@);
        let ghost e = entry@;
        self.entries.push(entry);
        assert(entry_views(self.entries@) =~= all);
        proof {
            broadcast use vstd::multiset::group_multiset_axioms;

            self.pushed@ = self.pushed@.push(e);
            assert(all.to_multiset().add(self.dropped@.to_multiset()) =~= self.pushed@.to_multiset());
        }
        if self.entries.len() > self.capacity {
            let i = index_of_smallest(&self.entries);
            let ghost gone = all[i as int];
            self.entries.remove(i);
            proof {
                broadcast use vstd::multiset::group_multiset_axioms;

                assert(entry_views(self.entries@) =~= all.remove(i as int));
                let ghost before_dropped = self.dropped@;
                self.dropped@ = self.dropped@.push(gone);
                assert(all.to_multiset().count(gone) > 0) by {
                    assert(all.contains(gone));
                }
                assert(all.remove(i as int).to_multiset().add(self.dropped@.to_multiset())
                    =~= all.to_multiset().add(before_dropped.to_multiset()));
                assert(is_min_size(all, i as int));
                let n = self.dropped@.len();
                assert forall|d: int, k: int|
                    0 <= d < n && 0 <= k < self.entries.len() implies #[trigger] self.dropped@[d].2
                    <= #[trigger] self.entries@[k].size_bytes by {
                    let kk = if k < i { k } else { k + 1 };
                    assert(self.entries@[k].size_bytes == all[kk].2);
                    if d < n - 1 {
                        if kk < old_entries.len() {
                            assert(old_entries[kk].size_bytes == all[kk].2);
                        } else {
                            // the new entry stays; what left was an old entry no larger
                            assert(old_entries[i as int].size_bytes == all[i as int].2);
                        }
                    }
                }
            }
        }
    }

    /// The entries kept, largest first.
    pub fn into_sorted_vec(self) -> (v: Vec<LargeFileEntry>)
        requires
            self.wf(),
        ensures
            entry_views(v@).to_multiset() == self@.to_multiset(),
            sorted_by_size_desc(entry_views(v@)),
    {
        let ghost start = self@;
        let mut rest = self.entries;
        let mut out: Vec<LargeFileEntry> = Vec::new();
        while rest.len() > 0
            invariant
                entry_views(out@).to_multiset().add(entry_views(rest@).to_multiset())
                    == start.to_multiset(),
                sorted_by_size_desc(entry_views(out@)),
                forall|a: int, b: int|
                    0 <= a < out.len() && 0 <= b < rest.len() ==> #[trigger] rest@[b].size_bytes
                        <= #[trigger] out@[a].size_bytes,
            decreases rest.len(),
        {
            let k = index_of_largest(&rest);
            let ghost before_rest = rest@;
            let ghost before_out = out@;
            let e = rest.remove(k);
            proof {
                assert(entry_views(rest@) =~= entry_views(before_rest).remove(k as int));
                assert(entry_views(before_rest)[k as int] == e@);
            }
            out.push(e);
            proof {
                assert(entry_views(out@) =~= entry_views(before_out).push(e@));
                assert forall|a: int, b: int|
                    0 <= a < out.len() && 0 <= b < rest.len() implies #[trigger] rest@[b].size_bytes
                    <= #[trigger] out@[a].size_bytes by {
                    let bb = if b < k { b } else { b + 1 };
                    assert(rest@[b] == before_rest[bb]);
                    if a < before_out.len() {
                        assert(out@[a] == before_out[a]);
                    }
                }
                assert forall|i: int, j: int| 0 <= i < j < out.len() implies
                    entry_views(out@)[j].2 <= entry_views(out@)[i].2 by {
                    if j == out.len() - 1 {
                        assert(out@[j] == e);
                        assert(before_rest[k as int] == e);
                        assert(out@[i] == before_out[i]);
                    }
                }
            }
        }
        proof {
            assert(entry_views(rest@) =~= Seq::<EntryView>::empty());
            assert(entry_views(rest@).to_multiset() =~= Multiset::empty());
            assert(entry_views(out@).to_multiset().add(Multiset::empty()) =~= entry_views(out@).to_multiset());
        }
        out
    }
}

/// The position of a smallest entry (the first one).
fn index_of_smallest(v: &Vec<LargeFileEntry>) -> (i: usize)
    requires
        v.len() > 0,
    ensures
        is_min_size(entry_views(v@), i as int),
{
    let mut best: usize = 0;
    let mut j: usize = 1;
    while j < v.len()
        invariant
            0 < j <= v.len(),
            best < j,
            forall|t: int| 0 <= t < j ==> v@[best as int].size_bytes <= #[trigger] v@[t].size_bytes,
        decreases v.len() - j,
    {
        if v[j].size_bytes < v[best].size_bytes {
            best = j;
        }
        j = j + 1;
    }
    best
}

/// The position of a largest entry (the first one).
fn index_of_largest(v: &Vec<LargeFileEntry>) -> (i: usize)
    requires
        v.len() > 0,
    ensures
        i < v.len(),
        forall|t: int| 0 <= t < v.len() ==> #[trigger] v@[t].size_bytes <= v@[i as int].size_bytes,
{
    let mut best: usize = 0;
    let mut j: usize = 1;
    while j < v.len()
        invariant
            0 < j <= v.len(),
            best < j,
            forall|t: int| 0 <= t < j ==> #[trigger] v@[t].size_bytes <= v@[best as int].size_bytes,
        decreases v.len() - j,
    {
        if v[j].size_bytes > v[best].size_bytes {
            best = j;
        }
        j = j + 1;
    }
    best
}

/// After any sequence of pushes into a heap made empty, the heap keeps as many entries
/// as were pushed, up to its limit; what it keeps and what it let go are, together,
/// exactly what was pushed; and nothing it let go is larger than anything it kept. So
/// the sizes kept are the largest sizes pushed.
pub proof fn lemma_keeps_largest(h: &LargeFileHeap)
    requires
        h.wf(),
    ensures
        h@.len() == (if h.pushed().len() <= h.limit() { h.pushed().len() } else { h.limit() }),
        h.dropped().len() > 0 ==> h@.len() == h.limit(),
        h@.to_multiset().add(h.dropped().to_multiset()) == h.pushed().to_multiset(),
        forall|d: int, k: int|
            0 <= d < h.dropped().len() && 0 <= k < h@.len() ==> #[trigger] h.dropped()[d].2
                <= #[trigger] h@[k].2,
{
    assert forall|d: int, k: int|
        0 <= d < h.dropped().len() && 0 <= k < h@.len() implies #[trigger] h.dropped()[d].2
        <= #[trigger] h@[k].2 by {
        assert(h@[k].2 == h.entries@[k].size_bytes);
    }
}

} // verus!
