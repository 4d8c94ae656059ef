//! The feedback loop's decisions: which runs the corpus keeps, and which findings
//! are kept whatever happens to the run.

use crate::oracles::finding::{OracleFinding, Severity};
use crate::sequence::MoveSequence;
use vstd::prelude::*;

verus! {

/// Where a corpus entry stands in its cycle.
#[derive(Clone, Copy, Debug, PartialEq, Eq, Structural)]
pub enum EntryState {
    Queued,
    Executing,
    Accepted,
    Rejected,
}

/// What happens to an entry.
#[derive(Clone, Copy, Debug, PartialEq, Eq, Structural)]
pub enum CycleEvent {
    /// The entry is handed to the executor.
    Start,
    /// The executor finished: whether the run completed without a fatal error, and
    /// whether it reached code not covered before.
    Finished { executed_ok: bool, new_coverage: bool },
}

/// The state after `e` in state `s`: a queued entry starts executing; a finished
/// execution is accepted when it completed or found new coverage, else rejected;
/// anything else leaves the state as it is.
pub open spec fn next_state_spec(s: EntryState, e: CycleEvent) -> EntryState {
    match (s, e) {
        (EntryState::Queued, CycleEvent::Start) => EntryState::Executing,
        (EntryState::Executing, CycleEvent::Finished { executed_ok, new_coverage }) => if executed_ok
            || new_coverage {
            EntryState::Accepted
        } else {
            EntryState::Rejected
        },
        _ => s,
    }
}

pub fn next_state(s: EntryState, e: CycleEvent) -> (r: EntryState)
    ensures
        r == next_state_spec(s, e),
{
    match (s, e) {
        (EntryState::Queued, CycleEvent::Start) => EntryState::Executing,
        (EntryState::Executing, CycleEvent::Finished { executed_ok, new_coverage }) => {
            if executed_ok || new_coverage {
                EntryState::Accepted
            } else {
                EntryState::Rejected
            }
        },
        _ => s,
    }
}

/// Whether a finding of this severity is kept whatever becomes of its run.
pub open spec fn is_persistent(s: Severity) -> bool {
    s == Severity::Critical || s == Severity::Major
}

/// Whether a finding of this severity is kept whatever becomes of its run.
pub fn must_persist(s: Severity) -> (r: bool)
    ensures
        r == is_persistent(s),
{
    match s {
        Severity::Critical | Severity::Major => true,
        _ => false,
    }
}

/// Whether the run bitmap `run` marks a location that `known` does not.
pub open spec fn covers_new(known: Seq<u8>, run: Seq<u8>) -> bool {
    exists|i: int| 0 <= i < run.len() && run[i] != 0 && (i >= known.len() || known[i] == 0)
}

/// Whether the run reached a location not covered before.
pub fn expands_coverage(known: &Vec<u8>, run: &Vec<u8>) -> (r: bool)
    ensures
        r == covers_new(known@, run@),
{
    let mut i: usize = 0;
    while i < run.len()
        invariant
            i <= run@.len(),
            forall|k: int| 0 <= k < i ==> !(run@[k] != 0 && (k >= known@.len() || known@[k] == 0)),
        decreases run@.len() - i,
    {
        if run[i] != 0 && (i >= known.len() || known[i] == 0) {
            return true;
        }
        i = i + 1;
    }
    false
}

/// `merged` is `known` with every location that `run` covers marked: as long as
/// the longer of the two, a covered location set to 1, any other kept (0 past the end
/// of `known`).
pub open spec fn is_merged(known: Seq<u8>, run: Seq<u8>, merged: Seq<u8>) -> bool {
    &&& merged.len() == if known.len() >= run.len() {
        known.len()
    } else {
        run.len()
    }
    &&& forall|i: int|
        0 <= i < merged.len() ==> #[trigger] merged[i] == if i < run.len() && run[i] != 0 {
            1u8
        } else if i < known.len() {
            known[i]
        } else {
            0u8
        }
}

/// Marks in `known` every location that `run` covers; `known` grows to the run's
/// length when shorter.
pub fn merge_coverage(known: &mut Vec<u8>, run: &Vec<u8>)
    ensures
        is_merged(old(known)@, run@, final(known)@),
{
    while known.len() < run.len()
        invariant
            forall|i: int| 0 <= i < old(known)@.len() ==> known@[i] == old(known)@[i],
            forall|i: int| old(known)@.len() <= i < known@.len() ==> known@[i] == 0,
            known@.len() >= old(known)@.len(),
            known@.len() <= if old(known)@.len() >= run@.len() {
                old(known)@.len()
            } else {
                run@.len()
            },
        decreases run@.len() - known@.len(),
    {
        known.push(0);
    }
    let ghost padded = known@;
    let mut i: usize = 0;
    while i < run.len()
        invariant
            i <= run@.len() <= known@.len(),
            known@.len() == padded.len(),
            forall|k: int| 0 <= k < i ==> known@[k] == if run@[k] != 0 { 1u8 } else { padded[k] },
            forall|k: int| i <= k < known@.len() ==> known@[k] == padded[k],
        decreases run@.len() - i,
    {
        if run[i] != 0 {
            known.set(i, 1);
        }
        i = i + 1;
    }
}

/// A retained sequence, its coverage and the findings confirmed for it.
pub struct CorpusEntry {
    pub sequence: MoveSequence,
    pub coverage: Vec<u8>,
    pub findings: Vec<OracleFinding>,
}

/// The corpus: retained entries, the union of their coverage, and the findings
/// kept whatever became of their runs.
pub struct Corpus {
    pub entries: Vec<CorpusEntry>,
    pub coverage: Vec<u8>,
    pub persisted: Vec<OracleFinding>,
}

impl Corpus {
    pub fn new() -> (r: Corpus)
        ensures
            r.entries@.len() == 0,
            r.coverage@.len() == 0,
            r.persisted@.len() == 0,
    {
        Corpus { entries: Vec::new(), coverage: Vec::new(), persisted: Vec::new() }
    }

    /// Records a finished run: keeps its Critical and Major findings; keeps the
    /// entry, and merges its coverage, when the run completed or covered new code.
    /// Returns the entry's new state.
    pub fn observe(&mut self, entry: CorpusEntry, executed_ok: bool) -> (r: EntryState)
        ensures
            r == next_state_spec(
                EntryState::Executing,
                CycleEvent::Finished {
                    executed_ok,
                    new_coverage: covers_new(old(self).coverage@, entry.coverage@),
                },
            ),
            r == EntryState::Accepted ==> final(self).entries@ == old(self).entries@.push(entry),
            r == EntryState::Accepted ==> is_merged(old(self).coverage@, entry.coverage@, final(self).coverage@),
            r == EntryState::Rejected ==> final(self).entries@ == old(self).entries@
                && final(self).coverage@ == old(self).coverage@,
            final(self).persisted@.len() >= old(self).persisted@.len(),
            final(self).persisted@.subrange(0, old(self).persisted@.len() as int) == old(self).persisted@,
            forall|k: int| old(self).persisted@.len() <= k < final(self).persisted@.len() ==> is_persistent(
                (#[trigger] final(self).persisted@[k]).severity,
            ),
            forall|k: int|
                0 <= k < entry.findings@.len() && is_persistent(entry.findings@[k].severity) ==> exists|j: int|
                    old(self).persisted@.len() <= j < final(self).persisted@.len() && #[trigger] final(self).persisted@[j].oracle@ == (#[trigger] entry.findings@[k]).oracle@,
    {
        let ghost persisted0 = self.persisted@;
        let mut k: usize = 0;
        while k < entry.findings.len()
            invariant
                k <= entry.findings@.len(),
                self.persisted@.len() >= persisted0.len(),
                self.persisted@.subrange(0, persisted0.len() as int) == persisted0,
                persisted0 == old(self).persisted@,
                self.entries@ == old(self).entries@,
                self.coverage@ == old(self).coverage@,
                forall|j: int| persisted0.len() <= j < self.persisted@.len() ==> is_persistent((#[trigger] self.persisted@[j]).severity),
                forall|i: int|
                    0 <= i < k && is_persistent(entry.findings@[i].severity) ==> exists|j: int|
                        persisted0.len() <= j < self.persisted@.len() && #[trigger] self.persisted@[j].oracle@ == (#[trigger] entry.findings@[i]).oracle@,
            decreases entry.findings@.len() - k,
        {
            let f = &entry.findings[k];
            if must_persist(f.severity) {
                let ghost before = self.persisted@;
                let kept = OracleFinding {
                    oracle: f.oracle.clone(),
                    severity: f.severity,
                    extra: clone_extra(&f.extra),
                };
                self.persisted.push(kept);
                proof {
                    assert(self.persisted@.subrange(0, persisted0.len() as int) =~= before.subrange(0, persisted0.len() as int));
                    assert forall|i: int|
                        0 <= i < k + 1 && is_persistent(entry.findings@[i].severity) implies exists|j: int|
                            persisted0.len() <= j < self.persisted@.len() && #[trigger] self.persisted@[j].oracle@ == (#[trigger] entry.findings@[i]).oracle@ by {
                        if i < k {
                            let j = choose|j: int| persisted0.len() <= j < before.len() && #[trigger] before[j].oracle@ == entry.findings@[i].oracle@;
                            assert(self.persisted@[j] == before[j]);
                        } else {
                            assert(self.persisted@[before.len() as int].oracle@ == entry.findings@[i].oracle@);
                        }
                    }
                    assert forall|j: int| persisted0.len() <= j < self.persisted@.len() implies is_persistent((#[trigger] self.persisted@[j]).severity) by {
                        if j < before.len() {
                            assert(self.persisted@[j] == before[j]);
                        }
                    }
                }
            }
            k = k + 1;
        }
        let new_coverage = expands_coverage(&self.coverage, &entry.coverage);
        let r = next_state(EntryState::Executing, CycleEvent::Finished { executed_ok, new_coverage });
        if r == EntryState::Accepted {
            merge_coverage(&mut self.coverage, &entry.coverage);
            self.entries.push(entry);
        }
        r
    }
}

/// A copy of the detail fields of a finding.
fn clone_extra(extra: &Vec<(String, String)>) -> (r: Vec<(String, String)>)
    ensures
        r@.len() == extra@.len(),
        forall|i: int| 0 <= i < extra@.len() ==> (#[trigger] r@[i]).0@ == extra@[i].0@ && r@[i].1@ == extra@[i].1@,
{
    let mut out: Vec<(String, String)> = Vec::new();
    let mut i: usize = 0;
    while i < extra.len()
        invariant
            i <= extra@.len(),
            out@.len() == i,
            forall|k: int| 0 <= k < i ==> (#[trigger] out@[k]).0@ == extra@[k].0@ && out@[k].1@ == extra@[k].1@,
        decreases extra@.len() - i,
    {
        out.push((extra[i].0.clone(), extra[i].1.clone()));
        i = i + 1;
    }
    out
}

} // verus!
