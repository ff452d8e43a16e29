//! The decisions of a run that come before any copy: which destinations are
//! attempted, or why the run cannot start.
use vstd::prelude::*;
use crate::enumerate::{enumerate_candidates, readable_names, unreadable_reasons, EntryPolicy, EntryRead};
use crate::error::Error;
use crate::order::{name_le, name_views, sorted_names};
use crate::targets::{destination_versions, select_targets, Destination, Policy};

verus! {

broadcast use vstd::seq_lib::group_to_multiset_ensures;

/// The destinations to attempt, in order, and the reasons of the directory
/// entries that were left out.
#[derive(Debug, Clone, PartialEq, Eq)]
pub struct Plan {
    pub destinations: Vec<Destination>,
    pub skipped: Vec<String>,
}

/// Plans a run over the entries read from `<root>/bin`.
///
/// A failure here is a failure of the whole run: no copy is to be attempted.
pub fn plan_run(root: &String, entries: Vec<EntryRead>, entry_policy: EntryPolicy, policy: Policy) -> (r: Result<Plan, Error>)
    ensures
        (entry_policy == EntryPolicy::Abort && unreadable_reasons(entries@).len() > 0) ==> r is Err
            && r->Err_0 == Error::DirectoryUnreadable(unreadable_reasons(entries@)[0]),
        !(entry_policy == EntryPolicy::Abort && unreadable_reasons(entries@).len() > 0) ==> {
            &&& (r is Err <==> (policy == Policy::Newest && readable_names(entries@).len() == 0))
            &&& r is Err ==> r->Err_0 == Error::NoVersionDirectory
        },
        r is Ok ==> {
            &&& r->Ok_0.skipped@ == unreadable_reasons(entries@)
            &&& forall|i: int| 0 <= i < r->Ok_0.destinations@.len() ==> (#[trigger] r->Ok_0.destinations@[i]).resolves(root@)
        },
        (r is Ok && policy == Policy::All) ==> {
            &&& r->Ok_0.destinations@.len() == readable_names(entries@).len()
            &&& destination_versions(r->Ok_0.destinations@).to_multiset() == readable_names(entries@).to_multiset()
            &&& sorted_names(name_views(destination_versions(r->Ok_0.destinations@)))
        },
        (r is Ok && policy == Policy::Newest) ==> {
            &&& r->Ok_0.destinations@.len() == 1
            &&& readable_names(entries@).contains(r->Ok_0.destinations@[0].version)
            &&& forall|i: int| 0 <= i < readable_names(entries@).len()
                ==> name_le(#[trigger] readable_names(entries@)[i]@, r->Ok_0.destinations@[0].version@)
        },
{
    let found = match enumerate_candidates(entries, entry_policy) {
        Ok(found) => found,
        Err(e) => return Err(e),
    };
    let ghost names = found.names@;
    let ghost readable = readable_names(entries@);
    let skipped = found.skipped;
    assert(names.len() == readable.len()) by {
        assert(names.to_multiset().len() == readable.to_multiset().len());
    }
    let destinations = match select_targets(root, found.names, policy) {
        Ok(ds) => ds,
        Err(e) => return Err(e),
    };
    proof {
        if policy == Policy::Newest {
            let v = destinations@[0].version;
            assert(names.to_multiset().count(v) > 0);
            assert(readable.to_multiset().count(v) > 0);
            assert forall|i: int| 0 <= i < readable.len() implies name_le(#[trigger] readable[i]@, v@) by {
                assert(readable.to_multiset().count(readable[i]) > 0);
                assert(names.to_multiset().count(readable[i]) > 0);
                let j = choose|j: int| 0 <= j < names.len() && names[j] == readable[i];
                assert(name_le(names[j]@, v@));
            }
        }
    }
    Ok(Plan { destinations, skipped })
}

} // verus!
