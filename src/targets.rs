//! Where the content goes: the destination path of a version directory, and
//! which version directories are chosen.
use vstd::prelude::*;
use vstd::string::StringExecFns;
use crate::error::Error;
use crate::order::{name_le, name_views, sort_names, sorted_names};
use crate::order::lemma_name_le_total;

verus! {

broadcast use vstd::seq_lib::group_to_multiset_ensures;

/// The name of the directory under the root that holds the version directories.
pub open spec fn bin_segment() -> Seq<char> {
    seq!['b', 'i', 'n']
}

/// The name of the content directory inside a version directory.
pub open spec fn res_mods_segment() -> Seq<char> {
    seq!['r', 'e', 's', '_', 'm', 'o', 'd', 's']
}

/// The path segments of the destination of a version: `<root>/bin/<version>/res_mods`.
pub open spec fn destination_segments(root: Seq<char>, version: Seq<char>) -> Seq<Seq<char>> {
    seq![root, bin_segment(), version, res_mods_segment()]
}

/// One resolved destination directory.
#[derive(Debug, Clone, PartialEq, Eq)]
pub struct Destination {
    /// The name of the version directory it lies in.
    pub version: String,
    /// The path, one segment per item, starting with the root.
    pub segments: Vec<String>,
}

impl Destination {
    /// The destination is the content directory of its version under `root`.
    pub open spec fn resolves(self, root: Seq<char>) -> bool {
        name_views(self.segments@) == destination_segments(root, self.version@)
    }
}

/// Which version directories receive the content.
#[derive(Debug, Clone, Copy, PartialEq, Eq, Structural)]
pub enum Policy {
    /// Only the one whose name sorts last.
    Newest,
    /// Every one of them.
    All,
}

/// The version names of a sequence of destinations.
pub open spec fn destination_versions(ds: Seq<Destination>) -> Seq<String> {
    ds.map_values(|d: Destination| d.version)
}

/// The destination of the version directory `version` under `root`: the path
/// `<root>/bin/<version>/res_mods`, one segment per item.
pub fn resolve_destination(root: &String, version: &String) -> (d: Destination)
    ensures
        d.version == *version,
        d.resolves(root@),
{
    let bin = String::from_str("bin");
    let res_mods = String::from_str("res_mods");
    proof {
        reveal_strlit("bin");
        reveal_strlit("res_mods");
        assert(bin@ =~= bin_segment());
        assert(res_mods@ =~= res_mods_segment());
    }
    let mut segments: Vec<String> = Vec::new();
    segments.push(root.clone());
    segments.push(bin);
    segments.push(version.clone());
    segments.push(res_mods);
    let d = Destination { version: version.clone(), segments };
    assert(name_views(d.segments@) =~= destination_segments(root@, version@));
    d
}

/// The path segments of the directory that holds the version directories: `<root>/bin`.
pub fn versions_directory(root: &String) -> (r: Vec<String>)
    ensures
        name_views(r@) == seq![root@, bin_segment()],
{
    let bin = String::from_str("bin");
    proof {
        reveal_strlit("bin");
        assert(bin@ =~= bin_segment());
    }
    let mut r: Vec<String> = Vec::new();
    r.push(root.clone());
    r.push(bin);
    assert(name_views(r@) =~= seq![root@, bin_segment()]);
    r
}

/// Chooses the destinations among the version names `names` under `root`.
///
/// Under `All`, every name gives one destination, in ascending name order;
/// no names give no destinations. Under `Newest`, the name that sorts last
/// gives the one destination; no names are an error.
pub fn select_targets(root: &String, names: Vec<String>, policy: Policy) -> (r: Result<Vec<Destination>, Error>)
    ensures
        policy == Policy::All ==> r is Ok,
        policy == Policy::Newest ==> (r is Err <==> names@.len() == 0),
        r is Err ==> r->Err_0 == Error::NoVersionDirectory,
        r is Ok ==> forall|i: int| 0 <= i < r->Ok_0@.len() ==> (#[trigger] r->Ok_0@[i]).resolves(root@),
        (r is Ok && policy == Policy::All) ==> {
            &&& r->Ok_0@.len() == names@.len()
            &&& destination_versions(r->Ok_0@).to_multiset() == names@.to_multiset()
            &&& sorted_names(name_views(destination_versions(r->Ok_0@)))
        },
        (r is Ok && policy == Policy::Newest) ==> {
            &&& r->Ok_0@.len() == 1
            &&& names@.contains(r->Ok_0@[0].version)
            &&& forall|i: int| 0 <= i < names@.len() ==> name_le(#[trigger] names@[i]@, r->Ok_0@[0].version@)
        },
{
    let sorted = sort_names(names);
    let mut out: Vec<Destination> = Vec::new();
    match policy {
        Policy::Newest => {
            if sorted.len() == 0 {
                assert(names@.to_multiset().len() == 0);
                return Err(Error::NoVersionDirectory);
            }
            let last = sorted.len() - 1;
            out.push(resolve_destination(root, &sorted[last]));
            proof {
                assert(sorted@.to_multiset().count(sorted@[last as int]) > 0);
                assert forall|i: int| 0 <= i < names@.len() implies name_le(#[trigger] names@[i]@, sorted@[last as int]@) by {
                    assert(names@.to_multiset().count(names@[i]) > 0);
                    let j = choose|j: int| 0 <= j < sorted@.len() && sorted@[j] == names@[i];
                    if j < last {
                        assert(name_le(name_views(sorted@)[j], name_views(sorted@)[last as int]));
                    } else {
                        lemma_name_le_total(names@[i]@, names@[i]@);
                    }
                }
            }
        },
        Policy::All => {
            let mut k: usize = 0;
            while k < sorted.len()
                invariant
                    k <= sorted.len(),
                    out@.len() == k,
                    forall|i: int| 0 <= i < k ==> (#[trigger] out@[i]).resolves(root@) && out@[i].version == sorted@[i],
                decreases sorted.len() - k,
            {
                out.push(resolve_destination(root, &sorted[k]));
                k = k + 1;
            }
            assert(destination_versions(out@) =~= sorted@);
            assert(destination_versions(out@).to_multiset().len() == names@.to_multiset().len());
        },
    }
    Ok(out)
}

} // verus!
