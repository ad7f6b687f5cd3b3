//! The disk analyzer's bookkeeping: which files count as large, the top-level entries
//! ordered by size, and their total.
use vstd::prelude::*;

use crate::heap::{new_entry, LargeFileHeap};
use crate::order::{by_size_desc, sort_by_size_desc, SizedItem};

verus! {

/// Files over this many bytes (50 MiB) are listed among the large files.
pub open spec fn large_file_threshold() -> u64 {
    52428800
}

/// Whether a file of `len` bytes counts as large.
pub fn is_large_file(len: u64) -> (r: bool)
    ensures
        r == (len > large_file_threshold()),
        r == (len > 52428800),
{
    len > 52428800
}

/// Records a file met by the walk: a large one goes into the heap, any other is left out.
pub fn note_file(heap: &mut LargeFileHeap, path: &str, len: u64)
    requires
        old(heap).wf(),
    ensures
        final(heap).wf(),
        final(heap).limit() == old(heap).limit(),
        final(heap).pushed() == (if len > large_file_threshold() {
            old(heap).pushed().push(new_entry(path@, len))
        } else {
            old(heap).pushed()
        }),
        len <= large_file_threshold() ==> final(heap)@ == old(heap)@ && final(heap).dropped() == old(heap).dropped(),
        len > large_file_threshold() ==> ({
            let all = old(heap)@.push(new_entry(path@, len));
            if all.len() <= old(heap).limit() {
                &&& final(heap)@ == all
                &&& final(heap).dropped() == old(heap).dropped()
            } else {
                exists|i: int|
                    #[trigger] crate::heap::is_min_size(all, i) && final(heap)@ == all.remove(i)
                        && final(heap).dropped() == old(heap).dropped().push(all[i])
            }
        }),
{
    if is_large_file(len) {
        heap.push(path, len);
    }
}

/// A top-level entry of the analyzed folder with the size of all it holds.
pub struct DirEntrySummary {
    pub name: String,
    pub path: String,
    pub size_bytes: u64,
    pub is_dir: bool,
}

impl SizedItem for DirEntrySummary {
    open spec fn size_of(&self) -> u64 {
        self.size_bytes
    }

    fn size(&self) -> (r: u64) {
        self.size_bytes
    }
}

/// The entries, largest first (equal sizes keep their order).
pub fn sort_entries(entries: Vec<DirEntrySummary>) -> (out: Vec<DirEntrySummary>)
    ensures
        out@ == by_size_desc(entries@),
{
    sort_by_size_desc(entries)
}

/// The sizes of the entries added up.
pub open spec fn entries_total(entries: Seq<DirEntrySummary>) -> int
    decreases entries.len(),
{
    if entries.len() == 0 {
        0
    } else {
        entries_total(entries.drop_last()) + entries.last().size_bytes
    }
}

proof fn lemma_entries_total_grows(entries: Seq<DirEntrySummary>, i: int)
    requires
        0 <= i <= entries.len(),
    ensures
        0 <= entries_total(entries.take(i)) <= entries_total(entries),
    decreases entries.len() - i,
{
    lemma_entries_total_nonneg(entries.take(i));
    if i < entries.len() {
        assert(entries.take(i + 1).drop_last() =~= entries.take(i));
        lemma_entries_total_grows(entries, i + 1);
    } else {
        assert(entries.take(i) =~= entries);
        lemma_entries_total_nonneg(entries);
    }
}

proof fn lemma_entries_total_nonneg(entries: Seq<DirEntrySummary>)
    ensures
        0 <= entries_total(entries),
    decreases entries.len(),
{
    if entries.len() > 0 {
        lemma_entries_total_nonneg(entries.drop_last());
    }
}

/// The size of the analyzed folder: its entries' sizes added up; `None` when that does
/// not fit in 64 bits.
pub fn total_size(entries: &Vec<DirEntrySummary>) -> (r: Option<u64>)
    ensures
        match r {
            Some(t) => t == entries_total(entries@),
            None => entries_total(entries@) > u64::MAX,
        },
{
    let mut total: u64 = 0;
    let mut i: usize = 0;
    while i < entries.len()
        invariant
            i <= entries.len(),
            total == entries_total(entries@.take(i as int)),
        decreases entries.len() - i,
    {
        assert(entries@.take(i + 1).drop_last() =~= entries@.take(i as int));
        let s = entries[i].size_bytes;
        if s > u64::MAX - total {
            proof {
                lemma_entries_total_grows(entries@, i + 1);
            }
            return None;
        }
        total = total + s;
        i = i + 1;
    }
    assert(entries@.take(entries.len() as int) =~= entries@);
    Some(total)
}

} // verus!
