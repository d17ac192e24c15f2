//! The report of a sync: what became of each hunk.

use vstd::prelude::*;
use crate::hunk::EmailSyncHunk;
use crate::patch::HunkGroup;
use crate::worker::HunkOutcome;

verus! {

/// What became of one hunk of the patch.
#[derive(Clone, Debug)]
pub struct ReportEntry {
    pub message_id: String,
    pub hunk: EmailSyncHunk,
    pub outcome: HunkOutcome,
}

/// The entries of one group, given its outcomes.
pub open spec fn group_entries(g: HunkGroup, outcomes: Seq<HunkOutcome>) -> Seq<ReportEntry> {
    Seq::new(
        outcomes.len(),
        |i: int| ReportEntry { message_id: g.message_id, hunk: g.hunks@[i], outcome: outcomes[i] },
    )
}

/// The entries of the groups, in order.
pub open spec fn entries_of(groups: Seq<HunkGroup>, outcomes: Seq<Seq<HunkOutcome>>) -> Seq<ReportEntry>
    decreases groups.len(),
{
    if groups.len() == 0 || outcomes.len() == 0 {
        Seq::empty()
    } else {
        entries_of(groups.drop_last(), outcomes.drop_last()) + group_entries(
            groups.last(),
            outcomes.last(),
        )
    }
}

/// Each entry of the report is the entry of one hunk of one group: the
/// hunk at position `.1` of group `.0`.
pub proof fn lemma_entry_origin(groups: Seq<HunkGroup>, outcomes: Seq<Seq<HunkOutcome>>, j: int) -> (r: (
    int,
    int,
))
    requires
        outcomes.len() == groups.len(),
        0 <= j < entries_of(groups, outcomes).len(),
    ensures
        0 <= r.0 < groups.len(),
        0 <= r.1 < outcomes[r.0].len(),
        entries_of(groups, outcomes)[j] == group_entries(groups[r.0], outcomes[r.0])[r.1],
    decreases groups.len(),
{
    let gs = groups.drop_last();
    let os = outcomes.drop_last();
    let prev = entries_of(gs, os);
    assert(entries_of(groups, outcomes) == prev + group_entries(groups.last(), outcomes.last()));
    if j < prev.len() {
        let r = lemma_entry_origin(gs, os, j);
        assert(gs[r.0] == groups[r.0] && os[r.0] == outcomes[r.0]);
        r
    } else {
        (groups.len() - 1, j - prev.len())
    }
}

/// Each hunk with an outcome has its entry in the report, at position
/// `j`.
pub proof fn lemma_entry_index(groups: Seq<HunkGroup>, outcomes: Seq<Seq<HunkOutcome>>, g: int, i: int) -> (j:
    int)
    requires
        outcomes.len() == groups.len(),
        0 <= g < groups.len(),
        0 <= i < outcomes[g].len(),
    ensures
        0 <= j < entries_of(groups, outcomes).len(),
        entries_of(groups, outcomes)[j] == group_entries(groups[g], outcomes[g])[i],
    decreases groups.len(),
{
    let gs = groups.drop_last();
    let os = outcomes.drop_last();
    let prev = entries_of(gs, os);
    assert(entries_of(groups, outcomes) == prev + group_entries(groups.last(), outcomes.last()));
    if g < groups.len() - 1 {
        assert(gs[g] == groups[g] && os[g] == outcomes[g]);
        lemma_entry_index(gs, os, g, i)
    } else {
        prev.len() + i
    }
}

/// The number of entries whose outcome satisfies `p`.
pub open spec fn count_where(entries: Seq<ReportEntry>, p: spec_fn(HunkOutcome) -> bool) -> nat
    decreases entries.len(),
{
    if entries.len() == 0 {
        0
    } else {
        count_where(entries.drop_last(), p) + if p(entries.last().outcome) {
            1nat
        } else {
            0
        }
    }
}

/// The report of a sync: one entry per hunk of the patch, in patch order.
#[derive(Clone, Debug)]
pub struct EmailSyncReport {
    pub entries: Vec<ReportEntry>,
}

impl EmailSyncReport {
    /// The number of entries whose outcome is of the kind `kind` picks.
    fn count(&self, kind: u8) -> (r: usize)
        requires
            kind < 3,
        ensures
            r == count_kind(self.entries@, kind),
    {
        let mut n: usize = 0;
        let mut i: usize = 0;
        while i < self.entries.len()
            invariant
                i <= self.entries@.len(),
                n <= i,
                n == count_kind(self.entries@.take(i as int), kind),
            decreases self.entries.len() - i,
        {
            let k: u8 = match &self.entries[i].outcome {
                HunkOutcome::Applied => 0,
                HunkOutcome::Failed(_) => 1,
                HunkOutcome::Skipped => 2,
            };
            proof {
                let t = self.entries@.take(i + 1);
                assert(t.drop_last() =~= self.entries@.take(i as int));
                assert(t.last() == self.entries@[i as int]);
                assert(k == outcome_kind(self.entries@[i as int].outcome));
            }
            if k == kind {
                n = n + 1;
            }
            i = i + 1;
        }
        proof {
            assert(self.entries@.take(i as int) =~= self.entries@);
        }
        n
    }

    /// The number of hunks applied.
    pub fn applied_count(&self) -> (r: usize)
        ensures
            r == count_where(self.entries@, |o: HunkOutcome| o is Applied),
    {
        let r = self.count(0);
        proof {
            lemma_count_kind(self.entries@, 0u8, |o: HunkOutcome| o is Applied);
        }
        r
    }

    /// The number of hunks that failed.
    pub fn failed_count(&self) -> (r: usize)
        ensures
            r == count_where(self.entries@, |o: HunkOutcome| o is Failed),
    {
        let r = self.count(1);
        proof {
            lemma_count_kind(self.entries@, 1u8, |o: HunkOutcome| o is Failed);
        }
        r
    }

    /// The number of hunks skipped after a failure in their group.
    pub fn skipped_count(&self) -> (r: usize)
        ensures
            r == count_where(self.entries@, |o: HunkOutcome| o is Skipped),
    {
        let r = self.count(2);
        proof {
            lemma_count_kind(self.entries@, 2u8, |o: HunkOutcome| o is Skipped);
        }
        r
    }

    /// Whether a hunk of message `message_id` failed.
    pub fn is_failed(&self, message_id: &String) -> (r: bool)
        ensures
            r == exists|i: int|
                0 <= i < self.entries@.len() && (#[trigger] self.entries@[i]).message_id@ == message_id@
                    && self.entries@[i].outcome is Failed,
    {
        let mut i: usize = 0;
        while i < self.entries.len()
            invariant
                i <= self.entries@.len(),
                forall|j: int|
                    0 <= j < i ==> !((#[trigger] self.entries@[j]).message_id@ == message_id@
                        && self.entries@[j].outcome is Failed),
            decreases self.entries.len() - i,
        {
            let e = &self.entries[i];
            if e.message_id == *message_id {
                if let HunkOutcome::Failed(_) = &e.outcome {
                    return true;
                }
            }
            i = i + 1;
        }
        false
    }
}

pub open spec fn outcome_kind(o: HunkOutcome) -> u8 {
    match o {
        HunkOutcome::Applied => 0,
        HunkOutcome::Failed(_) => 1,
        HunkOutcome::Skipped => 2,
    }
}

/// The number of entries whose outcome is of kind `kind`.
pub open spec fn count_kind(entries: Seq<ReportEntry>, kind: u8) -> nat
    decreases entries.len(),
{
    if entries.len() == 0 {
        0
    } else {
        count_kind(entries.drop_last(), kind) + if outcome_kind(entries.last().outcome) == kind {
            1nat
        } else {
            0
        }
    }
}

proof fn lemma_count_kind(entries: Seq<ReportEntry>, kind: u8, p: spec_fn(HunkOutcome) -> bool)
    requires
        forall|o: HunkOutcome| #[trigger] p(o) == (outcome_kind(o) == kind),
    ensures
        count_kind(entries, kind) == count_where(entries, p),
    decreases entries.len(),
{
    if entries.len() > 0 {
        lemma_count_kind(entries.drop_last(), kind, p);
        assert(p(entries.last().outcome) == (outcome_kind(entries.last().outcome) == kind));
    }
}

} // verus!
