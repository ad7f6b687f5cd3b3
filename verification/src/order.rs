//! Ordering scan results from the largest to the smallest, keeping the order of equal
//! sizes (what a stable `sort_by` on descending size does).
use vstd::prelude::*;

verus! {

broadcast use vstd::seq_lib::group_to_multiset_ensures;

/// Something that has a size in bytes.
pub trait SizedItem {
    spec fn size_of(&self) -> u64;

    fn size(&self) -> (r: u64)
        ensures
            r == self.size_of(),
    ;
}

/// Where `x` goes into `sorted`: before the first item smaller than it.
pub open spec fn insert_pos<T: SizedItem>(sorted: Seq<T>, x: T) -> nat
    decreases sorted.len(),
{
    if sorted.len() == 0 {
        0
    } else if sorted[0].size_of() < x.size_of() {
        0
    } else {
        1 + insert_pos(sorted.drop_first(), x)
    }
}

/// `s` ordered by descending size, items of equal size in their order in `s`.
pub open spec fn by_size_desc<T: SizedItem>(s: Seq<T>) -> Seq<T>
    decreases s.len(),
{
    if s.len() == 0 {
        Seq::empty()
    } else {
        let r = by_size_desc(s.drop_last());
        r.insert(insert_pos(r, s.last()) as int, s.last())
    }
}

/// The sizes never increase along `s`.
pub open spec fn is_size_desc<T: SizedItem>(s: Seq<T>) -> bool {
    forall|i: int, j: int| 0 <= i < j < s.len() ==> s[j].size_of() <= s[i].size_of()
}

proof fn lemma_insert_pos<T: SizedItem>(sorted: Seq<T>, x: T)
    ensures
        insert_pos(sorted, x) <= sorted.len(),
        forall|i: int| 0 <= i < insert_pos(sorted, x) ==> x.size_of() <= #[trigger] sorted[i].size_of(),
        insert_pos(sorted, x) < sorted.len() ==> sorted[insert_pos(sorted, x) as int].size_of() < x.size_of(),
    decreases sorted.len(),
{
    if sorted.len() > 0 && !(sorted[0].size_of() < x.size_of()) {
        lemma_insert_pos(sorted.drop_first(), x);
        assert forall|i: int| 0 <= i < insert_pos(sorted, x) implies x.size_of() <= #[trigger] sorted[i].size_of() by {
            if i > 0 {
                assert(sorted[i] == sorted.drop_first()[i - 1]);
            }
        }
    }
}

/// Ordering by descending size gives a sorted arrangement of the same items.
pub proof fn lemma_by_size_desc<T: SizedItem>(s: Seq<T>)
    ensures
        is_size_desc(by_size_desc(s)),
        by_size_desc(s).to_multiset() == s.to_multiset(),
        by_size_desc(s).len() == s.len(),
    decreases s.len(),
{
    if s.len() > 0 {
        let r = by_size_desc(s.drop_last());
        lemma_by_size_desc(s.drop_last());
        let x = s.last();
        let k = insert_pos(r, x);
        lemma_insert_pos(r, x);
        let out = r.insert(k as int, x);
        assert forall|i: int, j: int| 0 <= i < j < out.len() implies out[j].size_of() <= out[i].size_of() by {
            if j < k {
                assert(out[i] == r[i] && out[j] == r[j]);
            } else if j == k {
                assert(out[j] == x);
                assert(out[i] == r[i]);
            } else if i < k {
                assert(out[i] == r[i] && out[j] == r[j - 1]);
            } else if i == k {
                assert(out[i] == x && out[j] == r[j - 1]);
                assert(r[k as int].size_of() < x.size_of());
                if j - 1 > k {
                    assert(r[j - 1].size_of() <= r[k as int].size_of());
                }
            } else {
                assert(out[i] == r[i - 1] && out[j] == r[j - 1]);
            }
        }
        vstd::seq_lib::to_multiset_insert(r, k as int, x);
        assert(s.drop_last().push(x) =~= s);
    }
}

/// Orders items by descending size; items of equal size keep their order.
pub fn sort_by_size_desc<T: SizedItem>(items: Vec<T>) -> (out: Vec<T>)
    ensures
        out@ == by_size_desc(items@),
{
    let ghost orig = items@;
    let n = items.len();
    let mut rest = items;
    let mut rev: Vec<T> = Vec::new();
    while rest.len() > 0
        invariant
            rest@ == orig.take(rest.len() as int),
            rev.len() + rest.len() == orig.len(),
            forall|j: int| 0 <= j < rev.len() ==> #[trigger] rev@[j] == orig[orig.len() - 1 - j],
        decreases rest.len(),
    {
        let ghost before = rest@;
        let x = rest.pop().unwrap();
        assert(orig.take(before.len() as int)[rest.len() as int] == x);
        assert(rest@ =~= orig.take(rest.len() as int));
        rev.push(x);
    }
    let mut out: Vec<T> = Vec::new();
    let mut idx: usize = 0;
    assert(orig.take(0) =~= Seq::<T>::empty());
    while rev.len() > 0
        invariant
            idx + rev.len() == orig.len(),
            orig.len() == n,
            forall|j: int| 0 <= j < rev.len() ==> #[trigger] rev@[j] == orig[orig.len() - 1 - j],
            out@ == by_size_desc(orig.take(idx as int)),
            out.len() == idx,
        decreases rev.len(),
    {
        let x = rev.pop().unwrap();
        assert(x == orig[idx as int]);
        assert(orig.take(idx + 1).drop_last() =~= orig.take(idx as int));
        let s = x.size();
        let mut k: usize = 0;
        assert(out@.skip(0) =~= out@);
        while k < out.len() && !(out[k].size() < s)
            invariant
                k <= out.len(),
                s == x.size_of(),
                insert_pos(out@, x) == k + insert_pos(out@.skip(k as int), x),
            decreases out.len() - k,
        {
            assert(out@.skip(k as int).drop_first() =~= out@.skip(k + 1));
            k = k + 1;
        }
        proof {
            if k < out.len() {
                assert(out@.skip(k as int)[0] == out@[k as int]);
            }
            assert(insert_pos(out@.skip(k as int), x) == 0);
        }
        out.insert(k, x);
        idx = idx + 1;
    }
    assert(orig.take(orig.len() as int) =~= orig);
    out
}

/// Something ordered by a text key.
pub trait Keyed {
    spec fn key_of(&self) -> Seq<char>;

    fn key(&self) -> (r: String)
        ensures
            r@ == self.key_of(),
    ;
}

/// `a` comes before `b` in the order of `String`: character by character, a proper prefix
/// first.
pub open spec fn text_lt(a: Seq<char>, b: Seq<char>) -> bool
    decreases a.len(),
{
    if a.len() == 0 {
        b.len() > 0
    } else if b.len() == 0 {
        false
    } else if a[0] != b[0] {
        (a[0] as u32) < (b[0] as u32)
    } else {
        text_lt(a.drop_first(), b.drop_first())
    }
}

/// Whether `a` comes before `b` in the order of `String`.
pub fn text_lt_exec(a: &str, b: &str) -> (r: bool)
    ensures
        r == text_lt(a@, b@),
{
    let va = crate::text::chars_of(a);
    let vb = crate::text::chars_of(b);
    let mut i: usize = 0;
    assert(va@.skip(0) =~= va@);
    assert(vb@.skip(0) =~= vb@);
    while i < va.len() && i < vb.len() && va[i] == vb[i]
        invariant
            i <= va.len(),
            i <= vb.len(),
            text_lt(a@, b@) == text_lt(va@.skip(i as int), vb@.skip(i as int)),
            va@ == a@,
            vb@ == b@,
        decreases va.len() - i,
    {
        assert(va@.skip(i as int).drop_first() =~= va@.skip(i + 1));
        assert(vb@.skip(i as int).drop_first() =~= vb@.skip(i + 1));
        i = i + 1;
    }
    if i == va.len() {
        i < vb.len()
    } else if i == vb.len() {
        false
    } else {
        assert(va@.skip(i as int)[0] == va@[i as int]);
        assert(vb@.skip(i as int)[0] == vb@[i as int]);
        (va[i] as u32) < (vb[i] as u32)
    }
}

/// Where `x` goes into `sorted`: before the first item whose key comes after its key.
pub open spec fn key_insert_pos<T: Keyed>(sorted: Seq<T>, x: T) -> nat
    decreases sorted.len(),
{
    if sorted.len() == 0 {
        0
    } else if text_lt(x.key_of(), sorted[0].key_of()) {
        0
    } else {
        1 + key_insert_pos(sorted.drop_first(), x)
    }
}

/// `s` ordered by key, items with equal keys in their order in `s`.
pub open spec fn by_key<T: Keyed>(s: Seq<T>) -> Seq<T>
    decreases s.len(),
{
    if s.len() == 0 {
        Seq::empty()
    } else {
        let r = by_key(s.drop_last());
        r.insert(key_insert_pos(r, s.last()) as int, s.last())
    }
}

/// Orders items by key; items with equal keys keep their order.
pub fn sort_by_key<T: Keyed>(items: Vec<T>) -> (out: Vec<T>)
    ensures
        out@ == by_key(items@),
{
    let ghost orig = items@;
    let n = items.len();
    let mut rest = items;
    let mut rev: Vec<T> = Vec::new();
    while rest.len() > 0
        invariant
            rest@ == orig.take(rest.len() as int),
            rev.len() + rest.len() == orig.len(),
            forall|j: int| 0 <= j < rev.len() ==> #[trigger] rev@[j] == orig[orig.len() - 1 - j],
        decreases rest.len(),
    {
        let ghost before = rest@;
        let x = rest.pop().unwrap();
        assert(orig.take(before.len() as int)[rest.len() as int] == x);
        assert(rest@ =~= orig.take(rest.len() as int));
        rev.push(x);
    }
    let mut out: Vec<T> = Vec::new();
    let mut idx: usize = 0;
    assert(orig.take(0) =~= Seq::<T>::empty());
    while rev.len() > 0
        invariant
            idx + rev.len() == orig.len(),
            orig.len() == n,
            forall|j: int| 0 <= j < rev.len() ==> #[trigger] rev@[j] == orig[orig.len() - 1 - j],
            out@ == by_key(orig.take(idx as int)),
            out.len() == idx,
        decreases rev.len(),
    {
        let x = rev.pop().unwrap();
        assert(x == orig[idx as int]);
        assert(orig.take(idx + 1).drop_last() =~= orig.take(idx as int));
        let xk = x.key();
        let mut k: usize = 0;
        assert(out@.skip(0) =~= out@);
        while k < out.len() && !text_lt_exec(xk.as_str(), out[k].key().as_str())
            invariant
                k <= out.len(),
                xk@ == x.key_of(),
                key_insert_pos(out@, x) == k + key_insert_pos(out@.skip(k as int), x),
            decreases out.len() - k,
        {
            assert(out@.skip(k as int)[0] == out@[k as int]);
            assert(out@.skip(k as int).drop_first() =~= out@.skip(k + 1));
            k = k + 1;
        }
        proof {
            if k < out.len() {
                assert(out@.skip(k as int)[0] == out@[k as int]);
            }
            assert(key_insert_pos(out@.skip(k as int), x) == 0);
        }
        out.insert(k, x);
        idx = idx + 1;
    }
    assert(orig.take(orig.len() as int) =~= orig);
    out
}

} // verus!
