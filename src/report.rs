//! The outcome of a run: one entry per attempted destination, and whether
//! every one of them succeeded.
use vstd::prelude::*;
use crate::targets::Destination;

verus! {

/// How overlaying the content into one destination ended.
#[derive(Debug, Clone, PartialEq, Eq)]
pub enum CopyOutcome {
    Succeeded,
    /// The copy stopped partway; this is the underlying cause.
    Failed(String),
}

/// One destination and how its copy ended.
#[derive(Debug, Clone, PartialEq, Eq)]
pub struct TargetResult {
    pub destination: Destination,
    pub outcome: CopyOutcome,
}

/// The outcomes of a run, in the order the destinations were attempted.
#[derive(Debug, Clone, PartialEq, Eq)]
pub struct SyncReport {
    pub results: Vec<TargetResult>,
    pub success: bool,
}

/// Every result in `rs` is a success.
pub open spec fn all_succeeded(rs: Seq<TargetResult>) -> bool {
    forall|i: int| 0 <= i < rs.len() ==> (#[trigger] rs[i]).outcome is Succeeded
}

/// The positions in `rs` whose copy failed, in ascending order.
pub open spec fn failed_positions(rs: Seq<TargetResult>) -> Seq<int>
    decreases rs.len(),
{
    if rs.len() == 0 {
        Seq::empty()
    } else {
        let rest = failed_positions(rs.drop_last());
        if rs.last().outcome is Failed {
            rest.push(rs.len() - 1)
        } else {
            rest
        }
    }
}

impl SyncReport {
    /// The overall flag agrees with the results.
    pub open spec fn wf(self) -> bool {
        self.success == all_succeeded(self.results@)
    }

    /// The report of a run that has attempted nothing yet.
    pub fn new() -> (r: SyncReport)
        ensures
            r.results@.len() == 0,
            r.success,
            r.wf(),
    {
        SyncReport { results: Vec::new(), success: true }
    }

    /// Adds the outcome of the next destination; earlier outcomes are kept
    /// as they are, whatever this one is.
    pub fn record(&mut self, destination: Destination, outcome: CopyOutcome)
        requires
            old(self).wf(),
        ensures
            final(self).results@ == old(self).results@.push(TargetResult { destination, outcome }),
            final(self).success == (old(self).success && outcome is Succeeded),
            final(self).wf(),
    {
        let ok = match &outcome {
            CopyOutcome::Succeeded => true,
            CopyOutcome::Failed(_) => false,
        };
        self.results.push(TargetResult { destination, outcome });
        self.success = self.success && ok;
        assert(self.success == all_succeeded(self.results@)) by {
            if !ok {
                assert(!(self.results@[self.results@.len() - 1].outcome is Succeeded));
            } else {
                assert forall|i: int| 0 <= i < self.results@.len() - 1 implies (#[trigger] old(self).results@[i]).outcome
                    is Succeeded <== all_succeeded(self.results@) by {
                    assert(self.results@[i] == old(self).results@[i]);
                }
            }
        }
    }

    /// The positions of the destinations whose copy failed, in order.
    pub fn failed_indices(&self) -> (r: Vec<usize>)
        ensures
            r@.map_values(|i: usize| i as int) == failed_positions(self.results@),
    {
        let mut r: Vec<usize> = Vec::new();
        let mut k: usize = 0;
        while k < self.results.len()
            invariant
                k <= self.results@.len(),
                r@.map_values(|i: usize| i as int) == failed_positions(self.results@.subrange(0, k as int)),
            decreases self.results@.len() - k,
        {
            let ghost prefix = self.results@.subrange(0, k + 1);
            proof {
                assert(prefix.drop_last() =~= self.results@.subrange(0, k as int));
            }
            match &self.results[k].outcome {
                CopyOutcome::Failed(_) => {
                    r.push(k);
                    assert(r@.map_values(|i: usize| i as int) =~= failed_positions(prefix));
                },
                CopyOutcome::Succeeded => {},
            }
            k = k + 1;
        }
        assert(self.results@.subrange(0, self.results@.len() as int) =~= self.results@);
        r
    }
}

/// Pairs each destination with the outcome of its copy, in order; the run
/// succeeds exactly when every copy did.
pub fn summarize(destinations: Vec<Destination>, outcomes: Vec<CopyOutcome>) -> (r: SyncReport)
    requires
        destinations@.len() == outcomes@.len(),
    ensures
        r.wf(),
        r.results@.len() == destinations@.len(),
        forall|i: int| 0 <= i < r.results@.len() ==> (#[trigger] r.results@[i]) == (TargetResult {
            destination: destinations@[i],
            outcome: outcomes@[i],
        }),
        r.success <==> forall|i: int| 0 <= i < outcomes@.len() ==> (#[trigger] outcomes@[i]) is Succeeded,
{
    let mut report = SyncReport::new();
    let mut ds = destinations;
    let mut os = outcomes;
    let ghost d0 = ds@;
    let ghost o0 = os@;
    let mut k: usize = 0;
    let n = ds.len();
    assert(ds@ =~= d0.subrange(0, n as int));
    assert(os@ =~= o0.subrange(0, n as int));
    while k < n
        invariant
            n == d0.len(),
            n == o0.len(),
            k <= n,
            ds@ == d0.subrange(k as int, n as int),
            os@ == o0.subrange(k as int, n as int),
            report.wf(),
            report.results@.len() == k,
            forall|i: int| 0 <= i < k ==> (#[trigger] report.results@[i]) == (TargetResult {
                destination: d0[i],
                outcome: o0[i],
            }),
        decreases n - k,
    {
        let d = ds.remove(0);
        let o = os.remove(0);
        assert(ds@ =~= d0.subrange(k + 1, n as int));
        assert(os@ =~= o0.subrange(k + 1, n as int));
        report.record(d, o);
        k = k + 1;
    }
    assert(report.success <==> forall|i: int| 0 <= i < o0.len() ==> (#[trigger] o0[i]) is Succeeded) by {
        if report.success {
            assert forall|i: int| 0 <= i < o0.len() implies (#[trigger] o0[i]) is Succeeded by {
                assert(report.results@[i].outcome == o0[i]);
            }
        } else {
            let j = choose|j: int| 0 <= j < report.results@.len() && !(#[trigger] report.results@[j].outcome is Succeeded);
            assert(report.results@[j].outcome == o0[j]);
        }
    }
    report
}

/// A run with no destination to attempt is a success.
pub proof fn lemma_no_destination_succeeds(report: SyncReport)
    requires
        report.wf(),
        report.results@.len() == 0,
    ensures
        report.success,
{
}

} // verus!
