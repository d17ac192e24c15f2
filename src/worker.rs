//! The executor: applies the groups of a patch with at most `bound` groups
//! in flight, each group strictly in order.
//!
//! The executor decides; its caller does the work. The caller asks for a
//! group to start while `start_next` grants one, runs each started group
//! by asking `next_hunk` for the hunk to apply and handing the result back
//! to `record`, until `next_hunk` says the group is done.

use vstd::prelude::*;
use crate::hunk::EmailSyncHunk;
use vstd::pervasive::VecAdditionalExecFns;
use crate::patch::HunkGroup;
use crate::report::{
    entries_of, group_entries, lemma_entry_index, lemma_entry_origin, EmailSyncReport, ReportEntry,
};

verus! {

/// How many groups are applied at once unless the caller says otherwise.
pub const DEFAULT_CONCURRENCY: usize = 8;

/// What became of one hunk.
#[derive(Clone, Debug)]
pub enum HunkOutcome {
    Applied,
    Failed(String),
    /// Not attempted: a cache hunk after a failure in its group.
    Skipped,
}

/// Where a group stands.
#[derive(Clone, Copy, Debug, PartialEq, Eq, Structural)]
pub enum RunState {
    /// Not started.
    Pending,
    /// Started, no hunk in flight.
    Running,
    /// Started, one hunk in flight.
    Awaiting,
    /// All hunks have an outcome.
    Done,
}

impl RunState {
    pub open spec fn in_flight(self) -> bool {
        self is Running || self is Awaiting
    }
}

/// A hunk failed before position `i` of the outcomes.
pub open spec fn failed_before(outcomes: Seq<HunkOutcome>, i: int) -> bool {
    exists|j: int| 0 <= j < i && (#[trigger] outcomes[j]) is Failed
}

/// The outcomes of a group follow its hunks: a hunk is skipped exactly
/// when it is a cache hunk after a failure in the group.
pub open spec fn outcomes_follow(hunks: Seq<EmailSyncHunk>, outcomes: Seq<HunkOutcome>) -> bool {
    &&& outcomes.len() <= hunks.len()
    &&& forall|i: int|
        0 <= i < outcomes.len() ==> ((#[trigger] outcomes[i]) is Skipped <==> (hunks[i].effect().is_cache()
            && failed_before(outcomes, i)))
}

impl HunkOutcome {
    /// A copy of the outcome.
    pub fn duplicate(&self) -> (r: HunkOutcome)
        ensures
            r == *self,
    {
        match self {
            HunkOutcome::Applied => HunkOutcome::Applied,
            HunkOutcome::Failed(e) => HunkOutcome::Failed(e.clone()),
            HunkOutcome::Skipped => HunkOutcome::Skipped,
        }
    }
}

/// The progress of one group.
#[derive(Clone, Debug)]
pub struct GroupRun {
    pub state: RunState,
    pub outcomes: Vec<HunkOutcome>,
}

/// Applies a patch group by group, with at most `bound` groups in flight.
pub struct Executor {
    groups: Vec<HunkGroup>,
    bound: usize,
    next_start: usize,
    active: usize,
    runs: Vec<GroupRun>,
}

impl Executor {
    pub closed spec fn groups(&self) -> Seq<HunkGroup> {
        self.groups@
    }

    pub closed spec fn bound(&self) -> nat {
        self.bound as nat
    }

    pub closed spec fn state(&self, g: int) -> RunState {
        self.runs@[g].state
    }

    pub closed spec fn outcomes(&self, g: int) -> Seq<HunkOutcome> {
        self.runs@[g].outcomes@
    }

    /// The groups in flight: started and not done.
    pub open spec fn in_flight(&self) -> Set<int> {
        Set::new(|g: int| 0 <= g < self.groups().len() && self.state(g).in_flight())
    }

    /// The number of groups started so far; groups start in patch order.
    pub closed spec fn started(&self) -> nat {
        self.next_start as nat
    }

    pub closed spec fn wf(&self) -> bool {
        &&& self.bound > 0
        &&& self.runs@.len() == self.groups@.len()
        &&& self.next_start <= self.groups@.len()
        &&& forall|g: int|
            0 <= g < self.runs@.len() ==> ((#[trigger] self.runs@[g]).state is Pending <==> g
                >= self.next_start)
        &&& forall|g: int|
            0 <= g < self.runs@.len() ==> outcomes_follow(
                self.groups@[g].hunks@,
                (#[trigger] self.runs@[g]).outcomes@,
            )
        &&& forall|g: int|
            0 <= g < self.runs@.len() && (#[trigger] self.runs@[g]).state is Done ==> self.runs@[g].outcomes@.len()
                == self.groups@[g].hunks@.len()
        &&& forall|g: int|
            0 <= g < self.runs@.len() && (#[trigger] self.runs@[g]).state is Pending ==> self.runs@[g].outcomes@.len()
                == 0
        &&& forall|g: int|
            0 <= g < self.runs@.len() && (#[trigger] self.runs@[g]).state is Awaiting ==> {
                let o = self.runs@[g].outcomes@;
                &&& o.len() < self.groups@[g].hunks@.len()
                &&& !(self.groups@[g].hunks@[o.len() as int].effect().is_cache() && failed_before(o, o.len() as int))
            }
        &&& self.in_flight().finite()
        &&& self.in_flight().len() == self.active
        &&& self.active <= self.bound
    }

    /// Whether every group is done.
    pub open spec fn all_done(&self) -> bool {
        forall|g: int| 0 <= g < self.groups().len() ==> (#[trigger] self.state(g)) is Done
    }
}

proof fn lemma_in_flight_finite(e: &Executor)
    ensures
        e.in_flight().finite(),
{
    let range = Set::new(|g: int| 0 <= g < e.groups@.len());
    assert(range =~= vstd::set_lib::set_int_range(0, e.groups@.len() as int));
    vstd::set_lib::lemma_int_range(0, e.groups@.len() as int);
    assert(e.in_flight().subset_of(range));
    vstd::set_lib::lemma_len_subset(e.in_flight(), range);
}

/// Within a group, a hunk is skipped exactly when it is a cache hunk that
/// comes after a failure in the group: a cache never records a live
/// change that did not happen.
pub proof fn lemma_outcomes_follow(e: &Executor, g: int)
    requires
        e.wf(),
        0 <= g < e.groups().len(),
    ensures
        outcomes_follow(e.groups()[g].hunks@, e.outcomes(g)),
{
}

/// Concurrency bound: an executor never has more than `bound` groups in
/// flight.
pub proof fn lemma_in_flight_bounded(e: &Executor)
    requires
        e.wf(),
    ensures
        e.in_flight().finite(),
        e.in_flight().len() <= e.bound(),
{
}

impl Executor {
    /// A new executor for `groups`, with at most `bound` groups in flight.
    pub fn new(groups: Vec<HunkGroup>, bound: usize) -> (e: Executor)
        requires
            bound > 0,
        ensures
            e.wf(),
            e.groups() == groups@,
            e.bound() == bound,
            e.started() == 0,
            e.in_flight().is_empty(),
            forall|g: int| 0 <= g < groups@.len() ==> (#[trigger] e.state(g)) is Pending,
    {
        let mut runs: Vec<GroupRun> = Vec::new();
        let mut i: usize = 0;
        while i < groups.len()
            invariant
                i <= groups.len(),
                runs@.len() == i,
                forall|g: int|
                    0 <= g < i ==> (#[trigger] runs@[g]).state is Pending && runs@[g].outcomes@.len() == 0,
            decreases groups.len() - i,
        {
            runs.push(GroupRun { state: RunState::Pending, outcomes: Vec::new() });
            i = i + 1;
        }
        let e = Executor { groups, bound, next_start: 0, active: 0, runs };
        proof {
            assert(e.in_flight() =~= Set::<int>::empty());
            assert forall|g: int| 0 <= g < e.runs@.len() implies outcomes_follow(
                e.groups@[g].hunks@,
                (#[trigger] e.runs@[g]).outcomes@,
            ) by {
                assert(e.runs@[g].outcomes@.len() == 0);
            }
        }
        e
    }
}

/// The outcome that a hunk's result stands for.
pub open spec fn outcome_of(result: Result<(), String>) -> HunkOutcome {
    match result {
        Ok(()) => HunkOutcome::Applied,
        Err(e) => HunkOutcome::Failed(e),
    }
}

/// Whether a hunk failed among `outcomes`.
fn has_failure(outcomes: &Vec<HunkOutcome>) -> (r: bool)
    ensures
        r == failed_before(outcomes@, outcomes@.len() as int),
{
    let mut i: usize = 0;
    while i < outcomes.len()
        invariant
            i <= outcomes.len(),
            !failed_before(outcomes@, i as int),
        decreases outcomes.len() - i,
    {
        if let HunkOutcome::Failed(_) = &outcomes[i] {
            assert(outcomes@[i as int] is Failed);
            return true;
        }
        i = i + 1;
    }
    false
}

proof fn lemma_failed_before_push(o: Seq<HunkOutcome>, x: HunkOutcome, i: int)
    requires
        0 <= i <= o.len(),
    ensures
        failed_before(o.push(x), i) == failed_before(o, i),
{
    if failed_before(o, i) {
        let j = choose|j: int| 0 <= j < i && (#[trigger] o[j]) is Failed;
        assert(o.push(x)[j] == o[j]);
    }
    if failed_before(o.push(x), i) {
        let j = choose|j: int| 0 <= j < i && (#[trigger] o.push(x)[j]) is Failed;
        assert(o.push(x)[j] == o[j]);
    }
}

proof fn lemma_follow_push(hunks: Seq<EmailSyncHunk>, o: Seq<HunkOutcome>, x: HunkOutcome)
    requires
        outcomes_follow(hunks, o),
        o.len() < hunks.len(),
        x is Skipped <==> (hunks[o.len() as int].effect().is_cache() && failed_before(o, o.len() as int)),
    ensures
        outcomes_follow(hunks, o.push(x)),
{
    let o2 = o.push(x);
    assert forall|i: int| 0 <= i < o2.len() implies ((#[trigger] o2[i]) is Skipped <==> (
    hunks[i].effect().is_cache() && failed_before(o2, i))) by {
        lemma_failed_before_push(o, x, i);
    }
}

impl Executor {
    /// Starts the next group of the patch if fewer than `bound` groups are
    /// in flight and one is left; returns its index.
    pub fn start_next(&mut self) -> (r: Option<usize>)
        requires
            old(self).wf(),
        ensures
            final(self).wf(),
            final(self).groups() == old(self).groups(),
            final(self).bound() == old(self).bound(),
            r is Some <==> (old(self).in_flight().len() < old(self).bound() && old(self).started()
                < old(self).groups().len()),
            r matches Some(g) ==> {
                &&& g == old(self).started()
                &&& final(self).started() == old(self).started() + 1
                &&& final(self).state(g as int) is Running
                &&& final(self).outcomes(g as int) == old(self).outcomes(g as int)
                &&& final(self).in_flight() == old(self).in_flight().insert(g as int)
                &&& !old(self).in_flight().contains(g as int)
            },
            r is None ==> final(self).started() == old(self).started() && final(self).in_flight()
                == old(self).in_flight(),
            forall|h: int|
                0 <= h < old(self).groups().len() && (r is None || h != r->0) ==> final(self).state(h)
                    == old(self).state(h) && final(self).outcomes(h) == old(self).outcomes(h),
    {
        proof {
            lemma_in_flight_finite(self);
        }
        if self.active < self.bound && self.next_start < self.groups.len() {
            let g = self.next_start;
            let ghost before = self.in_flight();
            let mut run = GroupRun { state: RunState::Pending, outcomes: Vec::new() };
            self.runs.set_and_swap(g, &mut run);
            run.state = RunState::Running;
            self.runs.set_and_swap(g, &mut run);
            self.next_start = self.next_start + 1;
            self.active = self.active + 1;
            proof {
                assert(!before.contains(g as int));
                assert(self.in_flight() =~= before.insert(g as int));
                lemma_in_flight_finite(self);
            }
            Some(g)
        } else {
            None
        }
    }

    /// The index of the next hunk of group `g` to apply, after recording
    /// as skipped the cache hunks that a failure in the group rules out;
    /// `None` once every hunk of the group has an outcome, which ends the
    /// group and frees its place.
    pub fn next_hunk(&mut self, g: usize) -> (r: Option<usize>)
        requires
            old(self).wf(),
            g < old(self).groups().len(),
            old(self).state(g as int) is Running,
        ensures
            final(self).wf(),
            final(self).groups() == old(self).groups(),
            final(self).bound() == old(self).bound(),
            final(self).started() == old(self).started(),
            old(self).outcomes(g as int).len() <= final(self).outcomes(g as int).len(),
            final(self).outcomes(g as int).subrange(0, old(self).outcomes(g as int).len() as int)
                == old(self).outcomes(g as int),
            forall|i: int|
                old(self).outcomes(g as int).len() <= i < final(self).outcomes(g as int).len() ==> (
                #[trigger] final(self).outcomes(g as int)[i]) is Skipped,
            r matches Some(i) ==> {
                &&& i == final(self).outcomes(g as int).len()
                &&& i < final(self).groups()[g as int].hunks@.len()
                &&& final(self).state(g as int) is Awaiting
                &&& final(self).in_flight() == old(self).in_flight()
            },
            r is None ==> {
                &&& final(self).state(g as int) is Done
                &&& final(self).in_flight() == old(self).in_flight().remove(g as int)
            },
            forall|h: int|
                0 <= h < old(self).groups().len() && h != g ==> final(self).state(h) == old(
                    self,
                ).state(h) && final(self).outcomes(h) == old(self).outcomes(h),
    {
        let ghost before = self.in_flight();
        proof {
            lemma_in_flight_finite(self);
            assert(before.contains(g as int));
            assert(before.remove(g as int).len() == before.len() - 1);
        }
        let mut run = GroupRun { state: RunState::Pending, outcomes: Vec::new() };
        self.runs.set_and_swap(g, &mut run);
        let ghost start = run.outcomes@;
        let hunks = &self.groups[g].hunks;
        let failed = has_failure(&run.outcomes);
        assert(outcomes_follow(hunks@, run.outcomes@));
        while run.outcomes.len() < hunks.len() && failed && hunks[run.outcomes.len()].is_cache()
            invariant
                outcomes_follow(hunks@, run.outcomes@),
                failed == failed_before(run.outcomes@, run.outcomes@.len() as int),
                start.len() <= run.outcomes@.len(),
                run.outcomes@.subrange(0, start.len() as int) == start,
                forall|i: int| start.len() <= i < run.outcomes@.len() ==> (#[trigger] run.outcomes@[i]) is Skipped,
            decreases hunks.len() - run.outcomes.len(),
        {
            let ghost o = run.outcomes@;
            proof {
                lemma_follow_push(hunks@, o, HunkOutcome::Skipped);
                lemma_failed_before_push(o, HunkOutcome::Skipped, o.len() as int);
            }
            run.outcomes.push(HunkOutcome::Skipped);
            proof {
                let o2 = run.outcomes@;
                assert(o2[o.len() as int] is Skipped);
                assert(failed_before(o2, o2.len() as int)) by {
                    let j = choose|j: int| 0 <= j < o.len() && (#[trigger] o[j]) is Failed;
                    assert(o2[j] == o[j]);
                }
                assert(o2.subrange(0, start.len() as int) =~= o.subrange(0, start.len() as int));
            }
        }
        let r = if run.outcomes.len() < hunks.len() {
            run.state = RunState::Awaiting;
            Some(run.outcomes.len())
        } else {
            run.state = RunState::Done;
            self.active = self.active - 1;
            None
        };
        self.runs.set_and_swap(g, &mut run);
        proof {
            if r is None {
                assert(self.in_flight() =~= before.remove(g as int));
            } else {
                assert(self.in_flight() =~= before);
            }
            lemma_in_flight_finite(self);
        }
        r
    }

    /// Records the result of the hunk in flight in group `g`.
    pub fn record(&mut self, g: usize, result: Result<(), String>)
        requires
            old(self).wf(),
            g < old(self).groups().len(),
            old(self).state(g as int) is Awaiting,
        ensures
            final(self).wf(),
            final(self).groups() == old(self).groups(),
            final(self).bound() == old(self).bound(),
            final(self).started() == old(self).started(),
            final(self).in_flight() == old(self).in_flight(),
            final(self).state(g as int) is Running,
            final(self).outcomes(g as int) == old(self).outcomes(g as int).push(outcome_of(result)),
            forall|h: int|
                0 <= h < old(self).groups().len() && h != g ==> final(self).state(h) == old(
                    self,
                ).state(h) && final(self).outcomes(h) == old(self).outcomes(h),
    {
        let ghost before = self.in_flight();
        let mut run = GroupRun { state: RunState::Pending, outcomes: Vec::new() };
        self.runs.set_and_swap(g, &mut run);
        let outcome = match result {
            Ok(()) => HunkOutcome::Applied,
            Err(e) => HunkOutcome::Failed(e),
        };
        proof {
            lemma_follow_push(self.groups@[g as int].hunks@, run.outcomes@, outcome);
        }
        run.outcomes.push(outcome);
        run.state = RunState::Running;
        self.runs.set_and_swap(g, &mut run);
        proof {
            assert(self.in_flight() =~= before);
        }
    }

    /// Where group `g` stands.
    pub fn state_of(&self, g: usize) -> (r: RunState)
        requires
            self.wf(),
            g < self.groups().len(),
        ensures
            r == self.state(g as int),
    {
        self.runs[g].state
    }

    /// Whether every group is done.
    pub fn is_done(&self) -> (r: bool)
        requires
            self.wf(),
        ensures
            r == self.all_done(),
    {
        let mut g: usize = 0;
        while g < self.runs.len()
            invariant
                self.wf(),
                g <= self.runs@.len(),
                forall|h: int| 0 <= h < g ==> (#[trigger] self.state(h)) is Done,
            decreases self.runs.len() - g,
        {
            match self.runs[g].state {
                RunState::Done => {},
                _ => {
                    assert(!(self.state(g as int) is Done));
                    assert(g < self.groups().len());
                    return false;
                },
            }
            g = g + 1;
        }
        true
    }

    /// The hunk at position `i` of group `g`.
    pub fn hunk(&self, g: usize, i: usize) -> (r: &EmailSyncHunk)
        requires
            self.wf(),
            g < self.groups().len(),
            i < self.groups()[g as int].hunks@.len(),
        ensures
            *r == self.groups()[g as int].hunks@[i as int],
    {
        &self.groups[g].hunks[i]
    }

    /// The message id of group `g`.
    pub fn message_id(&self, g: usize) -> (r: &String)
        requires
            g < self.groups().len(),
        ensures
            *r == self.groups()[g as int].message_id,
    {
        &self.groups[g].message_id
    }

    /// The number of groups.
    pub fn group_count(&self) -> (r: usize)
        ensures
            r == self.groups().len(),
    {
        self.groups.len()
    }
}

impl Executor {
    /// The outcomes of all groups, in patch order.
    pub open spec fn all_outcomes(&self) -> Seq<Seq<HunkOutcome>> {
        Seq::new(self.groups().len(), |g: int| self.outcomes(g))
    }

    /// The report of a finished run: one entry per hunk, in patch order.
    pub fn report(&self) -> (r: EmailSyncReport)
        requires
            self.wf(),
            self.all_done(),
        ensures
            r.entries@ == entries_of(self.groups(), self.all_outcomes()),
            forall|g: int|
                0 <= g < self.groups().len() ==> (#[trigger] self.all_outcomes()[g]).len()
                    == self.groups()[g].hunks@.len(),
    {
        let mut entries: Vec<ReportEntry> = Vec::new();
        let mut g: usize = 0;
        let ghost outs = self.all_outcomes();
        while g < self.groups.len()
            invariant
                self.wf(),
                self.all_done(),
                outs == self.all_outcomes(),
                g <= self.groups@.len(),
                entries@ == entries_of(self.groups@.take(g as int), outs.take(g as int)),
            decreases self.groups.len() - g,
        {
            let group = &self.groups[g];
            let outcomes = &self.runs[g].outcomes;
            assert(self.state(g as int) is Done);
            let ghost base = entries@;
            let mut i: usize = 0;
            while i < outcomes.len()
                invariant
                    self.wf(),
                    g < self.groups@.len(),
                    group == self.groups@[g as int],
                    outcomes@ == outs[g as int],
                    outcomes@ == self.runs@[g as int].outcomes@,
                    outcomes@.len() == group.hunks@.len(),
                    i <= outcomes@.len(),
                    entries@ == base + group_entries(*group, outcomes@).take(i as int),
                decreases outcomes.len() - i,
            {
                let e = ReportEntry {
                    message_id: group.message_id.clone(),
                    hunk: group.hunks[i].duplicate(),
                    outcome: outcomes[i].duplicate(),
                };
                entries.push(e);
                proof {
                    assert(group_entries(*group, outcomes@).take(i + 1) =~= group_entries(
                        *group,
                        outcomes@,
                    ).take(i as int).push(e));
                }
                i = i + 1;
            }
            proof {
                assert(group_entries(*group, outcomes@).take(i as int) =~= group_entries(
                    *group,
                    outcomes@,
                ));
                let gs = self.groups@.take(g + 1);
                let os = outs.take(g + 1);
                assert(gs.drop_last() =~= self.groups@.take(g as int));
                assert(os.drop_last() =~= outs.take(g as int));
                assert(gs.last() == *group);
                assert(os.last() == outcomes@);
            }
            g = g + 1;
        }
        proof {
            assert(self.groups@.take(g as int) =~= self.groups@);
            assert(outs.take(g as int) =~= outs);
            assert forall|h: int|
                0 <= h < self.groups().len() implies (#[trigger] self.all_outcomes()[h]).len()
                    == self.groups()[h].hunks@.len() by {
                assert(self.state(h) is Done);
            }
        }
        EmailSyncReport { entries }
    }
}

/// A group in which no hunk failed has all its hunks applied.
pub proof fn lemma_no_failure_all_applied(e: &Executor, h: int)
    requires
        e.wf(),
        e.all_done(),
        0 <= h < e.groups().len(),
        !failed_before(e.outcomes(h), e.outcomes(h).len() as int),
    ensures
        e.outcomes(h).len() == e.groups()[h].hunks@.len(),
        forall|i: int| 0 <= i < e.outcomes(h).len() ==> (#[trigger] e.outcomes(h)[i]) is Applied,
{
    lemma_outcomes_follow(e, h);
    assert(e.state(h) is Done);
    let o = e.outcomes(h);
    assert forall|i: int| 0 <= i < o.len() implies (#[trigger] o[i]) is Applied by {
        if o[i] is Failed {
            assert(failed_before(o, o.len() as int));
        }
        if failed_before(o, i) {
            let j = choose|j: int| 0 <= j < i && (#[trigger] o[j]) is Failed;
            assert(failed_before(o, o.len() as int));
        }
    }
}

/// Failure isolation in the report: when no hunk failed outside group `k`,
/// the report shows every hunk of every other message applied, and each
/// failed hunk of group `k` with its message id, the hunk itself and its
/// error.
pub proof fn lemma_report_isolates_failure(e: &Executor, k: int, r: &EmailSyncReport)
    requires
        e.wf(),
        e.all_done(),
        0 <= k < e.groups().len(),
        r.entries@ == entries_of(e.groups(), e.all_outcomes()),
        forall|h: int|
            0 <= h < e.groups().len() && h != k ==> !failed_before(
                #[trigger] e.outcomes(h),
                e.outcomes(h).len() as int,
            ),
    ensures
        forall|j: int|
            0 <= j < r.entries@.len() && (#[trigger] r.entries@[j]).message_id@ != e.groups()[k].message_id@
                ==> r.entries@[j].outcome is Applied,
        forall|i: int|
            0 <= i < e.outcomes(k).len() && (#[trigger] e.outcomes(k)[i]) is Failed ==> exists|j: int|
                0 <= j < r.entries@.len() && r.entries@[j] == (ReportEntry {
                    message_id: e.groups()[k].message_id,
                    hunk: e.groups()[k].hunks@[i],
                    outcome: e.outcomes(k)[i],
                }),
{
    let gs = e.groups();
    let os = e.all_outcomes();
    assert forall|j: int|
        0 <= j < r.entries@.len() && (#[trigger] r.entries@[j]).message_id@ != gs[k].message_id@
            implies r.entries@[j].outcome is Applied by {
        let (g, i) = lemma_entry_origin(gs, os, j);
        assert(os[g] == e.outcomes(g));
        if g != k {
            lemma_no_failure_all_applied(e, g);
        }
    }
    assert forall|i: int| 0 <= i < e.outcomes(k).len() && (#[trigger] e.outcomes(k)[i]) is Failed implies exists|j: int|
        0 <= j < r.entries@.len() && r.entries@[j] == (ReportEntry {
            message_id: gs[k].message_id,
            hunk: gs[k].hunks@[i],
            outcome: e.outcomes(k)[i],
        }) by {
        assert(os[k] == e.outcomes(k));
        let j = lemma_entry_index(gs, os, k, i);
        assert(r.entries@[j] == group_entries(gs[k], os[k])[i]);
    }
}

/// Progress: while some group is not done, either a group is in flight,
/// whose next step `next_hunk` always takes, or `start_next` grants a new
/// group. A caller that keeps taking these steps processes every group.
pub proof fn lemma_can_progress(e: &Executor)
    requires
        e.wf(),
        !e.all_done(),
    ensures
        !e.in_flight().is_empty() || (e.in_flight().len() < e.bound() && e.started()
            < e.groups().len()),
{
    lemma_in_flight_finite(e);
    if e.in_flight().is_empty() {
        assert(e.in_flight().len() == 0);
        if e.started() == e.groups().len() {
            assert forall|g: int| 0 <= g < e.groups().len() implies (#[trigger] e.state(g)) is Done by {
                assert(!e.in_flight().contains(g));
            }
        }
    }
}

impl Executor {
    /// Runs every group to its end, one group after the other, applying
    /// each hunk with `apply`, which is given the message id of the group
    /// and the hunk.
    pub fn run_in_order<F>(&mut self, apply: &F)
        where
            F: Fn(&String, &EmailSyncHunk) -> Result<(), String>,
        requires
            old(self).wf(),
            old(self).in_flight().is_empty(),
            forall|k: &String, h: &EmailSyncHunk| apply.requires((k, h)),
        ensures
            final(self).wf(),
            final(self).all_done(),
            final(self).groups() == old(self).groups(),
            final(self).bound() == old(self).bound(),
    {
        proof {
            lemma_in_flight_finite(self);
            assert forall|g: int| 0 <= g < self.started() implies (#[trigger] self.state(g)) is Done by {
                if !(self.state(g) is Done) {
                    assert(self.in_flight().contains(g));
                }
            }
        }
        let ghost groups = self.groups();
        loop
            invariant
                self.wf(),
                self.groups() == groups,
                self.bound() == old(self).bound(),
                self.in_flight().is_empty(),
                forall|g: int| 0 <= g < self.started() ==> (#[trigger] self.state(g)) is Done,
                forall|k: &String, h: &EmailSyncHunk| apply.requires((k, h)),
            ensures
                self.wf(),
                self.groups() == groups,
                self.bound() == old(self).bound(),
                self.all_done(),
            decreases self.groups().len() - self.started(),
        {
            proof {
                lemma_in_flight_finite(self);
            }
            match self.start_next() {
                None => {
                    proof {
                        assert forall|g: int| 0 <= g < self.groups().len() implies (#[trigger] self.state(g)) is Done by {
                            assert(g < self.started());
                        }
                    }
                    break;
                },
                Some(g) => {
                    loop
                        invariant_except_break
                            self.state(g as int) is Running,
                            self.in_flight() == Set::<int>::empty().insert(g as int),
                        invariant
                            self.wf(),
                            self.groups() == groups,
                            self.bound() == old(self).bound(),
                            g < self.groups().len(),
                            g + 1 == self.started(),
                            forall|h: int| 0 <= h < g ==> (#[trigger] self.state(h)) is Done,
                            forall|k: &String, h: &EmailSyncHunk| apply.requires((k, h)),
                        ensures
                            self.wf(),
                            self.groups() == groups,
                            self.bound() == old(self).bound(),
                            g + 1 == self.started(),
                            self.in_flight().is_empty(),
                            forall|h: int| 0 <= h <= g ==> (#[trigger] self.state(h)) is Done,
                        decreases self.groups()[g as int].hunks@.len() - self.outcomes(g as int).len(),
                    {
                        match self.next_hunk(g) {
                            None => {
                                proof {
                                    assert(self.in_flight() =~= Set::<int>::empty());
                                }
                                break;
                            },
                            Some(i) => {
                                let result = {
                                    let key = self.message_id(g);
                                    let h = self.hunk(g, i);
                                    apply(key, h)
                                };
                                self.record(g, result);
                            },
                        }
                    }
                },
            }
        }
    }
}

} // verus!
