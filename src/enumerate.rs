//! Turning the entries read from the directory of version directories into
//! the ordered list of version names.
use vstd::prelude::*;
use crate::error::Error;
use crate::order::{name_views, sort_names, sorted_names};

verus! {

broadcast use vstd::seq_lib::group_to_multiset_ensures;

/// One entry as it was read from the directory of version directories.
#[derive(Debug, Clone, PartialEq, Eq)]
pub enum EntryRead {
    /// The entry was read; this is its name.
    Name(String),
    /// The entry could not be read; this is why.
    Unreadable(String),
}

/// What to do with an entry that cannot be read.
#[derive(Debug, Clone, Copy, PartialEq, Eq, Structural)]
pub enum EntryPolicy {
    /// Fail the whole listing with `DirectoryUnreadable`.
    Abort,
    /// Leave the entry out, keep its reason, and go on with the others.
    Skip,
}

/// The version names found, in ascending order, and the reasons of the
/// entries that were left out.
#[derive(Debug, Clone, PartialEq, Eq)]
pub struct Enumeration {
    pub names: Vec<String>,
    pub skipped: Vec<String>,
}

/// The names of the readable entries, in the order read.
pub open spec fn readable_names(entries: Seq<EntryRead>) -> Seq<String>
    decreases entries.len(),
{
    if entries.len() == 0 {
        Seq::empty()
    } else {
        let rest = readable_names(entries.drop_last());
        match entries.last() {
            EntryRead::Name(n) => rest.push(n),
            EntryRead::Unreadable(_) => rest,
        }
    }
}

/// The reasons of the unreadable entries, in the order read.
pub open spec fn unreadable_reasons(entries: Seq<EntryRead>) -> Seq<String>
    decreases entries.len(),
{
    if entries.len() == 0 {
        Seq::empty()
    } else {
        let rest = unreadable_reasons(entries.drop_last());
        match entries.last() {
            EntryRead::Name(_) => rest,
            EntryRead::Unreadable(c) => rest.push(c),
        }
    }
}

/// Lists the version names among the entries read, sorted ascending.
///
/// Under `Skip`, unreadable entries are left out and their reasons kept.
/// Under `Abort`, the first unreadable entry fails the listing with its reason.
pub fn enumerate_candidates(entries: Vec<EntryRead>, policy: EntryPolicy) -> (r: Result<Enumeration, Error>)
    ensures
        r is Err <==> (policy == EntryPolicy::Abort && unreadable_reasons(entries@).len() > 0),
        r is Err ==> r->Err_0 == Error::DirectoryUnreadable(unreadable_reasons(entries@)[0]),
        r is Ok ==> {
            &&& sorted_names(name_views(r->Ok_0.names@))
            &&& r->Ok_0.names@.to_multiset() == readable_names(entries@).to_multiset()
            &&& r->Ok_0.skipped@ == unreadable_reasons(entries@)
        },
{
    let mut names: Vec<String> = Vec::new();
    let mut skipped: Vec<String> = Vec::new();
    let mut k: usize = 0;
    while k < entries.len()
        invariant
            k <= entries.len(),
            names@ == readable_names(entries@.subrange(0, k as int)),
            skipped@ == unreadable_reasons(entries@.subrange(0, k as int)),
            policy == EntryPolicy::Abort ==> skipped@.len() == 0,
        decreases entries.len() - k,
    {
        proof {
            assert(entries@.subrange(0, k + 1).drop_last() =~= entries@.subrange(0, k as int));
        }
        match &entries[k] {
            EntryRead::Name(n) => {
                names.push(n.clone());
            },
            EntryRead::Unreadable(c) => {
                if policy == EntryPolicy::Abort {
                    proof {
                        lemma_reasons_prefix(entries@, k as int + 1);
                        assert(entries@.subrange(0, k + 1).last() == entries@[k as int]);
                        assert(unreadable_reasons(entries@.subrange(0, k + 1))[0] == *c);
                    }
                    return Err(Error::DirectoryUnreadable(c.clone()));
                }
                skipped.push(c.clone());
            },
        }
        k = k + 1;
    }
    proof {
        assert(entries@.subrange(0, entries.len() as int) =~= entries@);
    }
    Ok(Enumeration { names: sort_names(names), skipped })
}

/// The reasons of a prefix of the entries start the reasons of all of them.
proof fn lemma_reasons_prefix(entries: Seq<EntryRead>, k: int)
    requires
        0 <= k <= entries.len(),
    ensures
        unreadable_reasons(entries.subrange(0, k)).len() <= unreadable_reasons(entries).len(),
        forall|i: int| 0 <= i < unreadable_reasons(entries.subrange(0, k)).len()
            ==> #[trigger] unreadable_reasons(entries.subrange(0, k))[i] == unreadable_reasons(entries)[i],
    decreases entries.len() - k,
{
    if k < entries.len() {
        lemma_reasons_prefix(entries, k + 1);
        assert(entries.subrange(0, k + 1).drop_last() =~= entries.subrange(0, k));
        let a = unreadable_reasons(entries.subrange(0, k));
        let b = unreadable_reasons(entries.subrange(0, k + 1));
        assert(a.len() <= b.len() && forall|i: int| 0 <= i < a.len() ==> a[i] == #[trigger] b[i]);
        assert forall|i: int| 0 <= i < a.len() implies #[trigger] a[i] == unreadable_reasons(entries)[i] by {
            assert(b[i] == unreadable_reasons(entries)[i]);
        }
    } else {
        assert(entries.subrange(0, k) =~= entries);
    }
}

} // verus!
