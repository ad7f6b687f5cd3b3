//! Which selected files a removal may touch, and how much it frees.
use vstd::prelude::*;

use crate::order::SizedItem;
use crate::safety::{safety_verdict, PathValidator, ValidatorView};

verus! {

/// Something that lives at a path.
pub trait Located {
    spec fn path_of(&self) -> Seq<char>;

    fn path_str(&self) -> (r: &str)
        ensures
            r@ == self.path_of(),
    ;
}

/// Whether the validator lets `path` be deleted.
pub open spec fn deletable(v: ValidatorView, path: Seq<char>) -> bool {
    safety_verdict(v.home, v.whitelist, path) is Ok
}

/// For each item, whether it may be deleted.
pub open spec fn deletable_flags<T: Located>(v: ValidatorView, items: Seq<T>) -> Seq<bool> {
    items.map_values(|i: T| deletable(v, i.path_of()))
}

/// The total size of the items that may be deleted.
pub open spec fn deletable_total<T: Located + SizedItem>(v: ValidatorView, items: Seq<T>) -> int
    decreases items.len(),
{
    if items.len() == 0 {
        0
    } else {
        deletable_total(v, items.drop_last()) + if deletable(v, items.last().path_of()) {
            items.last().size_of() as int
        } else {
            0
        }
    }
}

proof fn lemma_total_prefix<T: Located + SizedItem>(v: ValidatorView, items: Seq<T>, i: int)
    requires
        0 <= i <= items.len(),
    ensures
        deletable_total(v, items.take(i)) <= deletable_total(v, items),
        0 <= deletable_total(v, items.take(i)),
    decreases items.len() - i,
{
    lemma_total_nonneg(v, items.take(i));
    if i < items.len() {
        lemma_total_prefix(v, items, i + 1);
        assert(items.take(i + 1).drop_last() =~= items.take(i));
    } else {
        assert(items.take(i) =~= items);
        lemma_total_nonneg(v, items);
    }
}

proof fn lemma_total_nonneg<T: Located + SizedItem>(v: ValidatorView, items: Seq<T>)
    ensures
        0 <= deletable_total(v, items),
    decreases items.len(),
{
    if items.len() > 0 {
        lemma_total_nonneg(v, items.drop_last());
    }
}

/// The plan of a removal: for each item whether the validator lets it go, and the total
/// size of those that may go; `None` when that total does not fit in 64 bits.
pub fn plan_removals<T: Located + SizedItem>(validator: &PathValidator, items: &Vec<T>) -> (r: Option<
    (u64, Vec<bool>),
>)
    ensures
        match r {
            Some((total, flags)) => total == deletable_total(validator@, items@) && flags@
                == deletable_flags(validator@, items@),
            None => deletable_total(validator@, items@) > u64::MAX,
        },
{
    let mut total: u64 = 0;
    let mut flags: Vec<bool> = Vec::new();
    let mut i: usize = 0;
    while i < items.len()
        invariant
            i <= items.len(),
            total == deletable_total(validator@, items@.take(i as int)),
            flags@ == deletable_flags(validator@, items@.take(i as int)),
        decreases items.len() - i,
    {
        proof {
            assert(items@.take(i + 1).drop_last() =~= items@.take(i as int));
            assert(items@.take(i + 1).last() == items@[i as int]);
        }
        let ok = validator.is_safe_to_delete(items[i].path_str()).is_ok();
        if ok {
            let size = items[i].size();
            if size > u64::MAX - total {
                proof {
                    lemma_total_prefix(validator@, items@, i + 1);
                }
                return None;
            }
            total = total + size;
        }
        flags.push(ok);
        assert(flags@ =~= deletable_flags(validator@, items@.take(i + 1)));
        i = i + 1;
    }
    assert(items@.take(items.len() as int) =~= items@);
    Some((total, flags))
}

/// What a removal reports, item by item in order: for each item the plan lets go
/// (`flags`), its preview line in a dry run, otherwise its done line when its removal
/// succeeded (`removed`); nothing for the others.
pub open spec fn removal_log<T>(
    items: Seq<T>,
    flags: Seq<bool>,
    removed: Seq<bool>,
    dry_run: bool,
    preview: spec_fn(T) -> Seq<char>,
    done: spec_fn(T) -> Seq<char>,
) -> Seq<Seq<char>>
    decreases items.len(),
{
    if items.len() == 0 {
        Seq::empty()
    } else {
        let i = items.len() - 1;
        let rest = removal_log(items.drop_last(), flags, removed, dry_run, preview, done);
        if i < flags.len() && flags[i] {
            if dry_run {
                rest.push(preview(items.last()))
            } else if i < removed.len() && removed[i] {
                rest.push(done(items.last()))
            } else {
                rest
            }
        } else {
            rest
        }
    }
}

/// Whether the item at `i` gets a line, and, when it does, whether it is the preview one.
pub(crate) fn log_choice(flags: &Vec<bool>, removed: &Vec<bool>, dry_run: bool, i: usize) -> (r: Option<bool>)
    ensures
        r == if i < flags.len() && flags@[i as int] {
            if dry_run {
                Some(true)
            } else if i < removed.len() && removed@[i as int] {
                Some(false)
            } else {
                None::<bool>
            }
        } else {
            None::<bool>
        },
{
    if i < flags.len() && flags[i] {
        if dry_run {
            Some(true)
        } else if i < removed.len() && removed[i] {
            Some(false)
        } else {
            None
        }
    } else {
        None
    }
}

/// What a run logs as its status: `"dry_run"` for a preview, `"success"` otherwise.
pub fn run_status(dry_run: bool) -> (s: &'static str)
    ensures
        s@ == if dry_run {
            "dry_run"@
        } else {
            "success"@
        },
{
    if dry_run {
        "dry_run"
    } else {
        "success"
    }
}

} // verus!
