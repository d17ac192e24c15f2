use email::envelope::{Address, Envelope};
use email::flag::{Flag, Flags};
use email::hunk::{EmailSyncHunk, Side};
use email::patch::{build_patch, HunkGroup};
use email::report::EmailSyncReport;
use email::worker::{Executor, HunkOutcome, RunState};
use std::cell::RefCell;

fn flags(list: &[Flag]) -> Flags {
    let mut f = Flags::new();
    for x in list {
        f.insert(*x);
    }
    f
}

fn env(id: &str, message_id: &str, f: Flags) -> Envelope {
    Envelope {
        id: id.to_string(),
        message_id: message_id.to_string(),
        flags: f,
        from: Address { name: None, addr: String::new() },
        to: Address { name: None, addr: String::new() },
        subject: String::new(),
        date: 0,
    }
}

/// Two in-memory stores and their caches.
#[derive(Default)]
struct Stores {
    left_cached: Vec<Envelope>,
    left: Vec<Envelope>,
    right_cached: Vec<Envelope>,
    right: Vec<Envelope>,
    next_id: usize,
    /// Message ids whose hunks fail.
    broken: Vec<String>,
}

impl Stores {
    fn live(&mut self, side: Side) -> &mut Vec<Envelope> {
        match side {
            Side::Left => &mut self.left,
            Side::Right => &mut self.right,
        }
    }

    fn cache(&mut self, side: Side) -> &mut Vec<Envelope> {
        match side {
            Side::Left => &mut self.left_cached,
            Side::Right => &mut self.right_cached,
        }
    }

    fn fresh_id(&mut self) -> String {
        self.next_id += 1;
        format!("n{}", self.next_id)
    }

    fn apply(&mut self, message_id: &str, h: &EmailSyncHunk) -> Result<(), String> {
        if self.broken.iter().any(|b| b == message_id) {
            return Err(format!("cannot apply hunk of {message_id}"));
        }
        match h {
            EmailSyncHunk::FetchThenCache { id, source, cache, flags, .. } => {
                let e = self.live(*source).iter().find(|e| &e.id == id).cloned().ok_or("missing")?;
                let new_id = self.fresh_id();
                let c = self.cache(*cache);
                c.retain(|x| x.message_id != e.message_id);
                c.push(env(&new_id, &e.message_id, *flags));
            }
            EmailSyncHunk::CopyToOtherSide { id, source, flags, .. } => {
                let e = self.live(*source).iter().find(|e| &e.id == id).cloned().ok_or("missing")?;
                let new_id = self.fresh_id();
                self.live(source.other()).push(env(&new_id, &e.message_id, *flags));
            }
            EmailSyncHunk::UpdateLiveFlags { id, side, flags, .. } => {
                let e = self.live(*side).iter_mut().find(|e| &e.id == id).ok_or("missing")?;
                e.flags = *flags;
            }
            EmailSyncHunk::UpdateCachedFlags { id, side, flags, .. } => {
                let e = self.cache(*side).iter_mut().find(|e| &e.id == id).ok_or("missing")?;
                e.flags = *flags;
            }
            EmailSyncHunk::DeleteLive { id, side, .. } => self.live(*side).retain(|e| &e.id != id),
            EmailSyncHunk::DeleteCached { id, side, .. } => self.cache(*side).retain(|e| &e.id != id),
        }
        Ok(())
    }

    fn patch(&self) -> Vec<HunkGroup> {
        build_patch(
            &"INBOX".to_string(),
            &self.left_cached,
            &self.left,
            &self.right_cached,
            &self.right,
        )
    }

    /// Runs a patch through the executor, keeping at most `bound` groups in
    /// flight and interleaving their hunks; returns the report and the
    /// largest number of groups seen in flight.
    fn run(&mut self, patch: Vec<HunkGroup>, bound: usize) -> (EmailSyncReport, usize) {
        let mut ex = Executor::new(patch, bound);
        let mut running: Vec<usize> = Vec::new();
        let mut most = 0;
        loop {
            while let Some(g) = ex.start_next() {
                running.push(g);
            }
            let in_flight = (0..ex.group_count())
                .filter(|&g| matches!(ex.state_of(g), RunState::Running | RunState::Awaiting))
                .count();
            assert_eq!(in_flight, running.len());
            most = most.max(in_flight);
            if running.is_empty() {
                break;
            }
            // Take one step in each running group, round-robin.
            let mut still = Vec::new();
            for g in running.drain(..) {
                match ex.next_hunk(g) {
                    Some(i) => {
                        let key = ex.message_id(g).clone();
                        let h = ex.hunk(g, i).duplicate();
                        let res = self.apply(&key, &h);
                        ex.record(g, res);
                        still.push(g);
                    }
                    None => {}
                }
            }
            running = still;
        }
        assert!(ex.is_done());
        (ex.report(), most)
    }

    fn sorted(v: &[Envelope]) -> Vec<(String, Flags)> {
        let mut out: Vec<(String, Flags)> = v.iter().map(|e| (e.message_id.clone(), e.flags)).collect();
        out.sort_by(|a, b| a.0.cmp(&b.0));
        out
    }

    fn converged(&self) -> bool {
        let l = Self::sorted(&self.left);
        l == Self::sorted(&self.right) && l == Self::sorted(&self.left_cached)
            && Self::sorted(&self.right) == Self::sorted(&self.right_cached)
    }
}

fn sample() -> Stores {
    let mut s = Stores::default();
    s.left = vec![
        env("l1", "<a>", flags(&[Flag::Seen])),
        env("l2", "<b>", flags(&[])),
        env("l3", "<c>", flags(&[Flag::Draft])),
    ];
    s.right = vec![
        env("r1", "<a>", flags(&[Flag::Flagged])),
        env("r4", "<d>", flags(&[Flag::Answered])),
        env("r3", "<c>", flags(&[Flag::Draft])),
    ];
    s.left_cached = vec![env("lc3", "<c>", flags(&[Flag::Draft])), env("lc5", "<e>", flags(&[]))];
    s.right_cached = vec![env("rc3", "<c>", flags(&[Flag::Draft])), env("rc5", "<e>", flags(&[]))];
    s
}

#[test]
fn sync_converges() {
    let mut s = sample();
    let p = s.patch();
    let (report, _) = s.run(p, 8);
    assert_eq!(report.failed_count(), 0);
    assert_eq!(report.skipped_count(), 0);
    assert_eq!(report.applied_count(), report.entries.len());
    assert!(s.converged());
    let merged = s.left.iter().find(|e| e.message_id == "<a>").unwrap();
    assert_eq!(merged.flags, flags(&[Flag::Seen, Flag::Flagged]));
    assert!(s.left.iter().all(|e| e.message_id != "<e>"));
    assert!(s.left.iter().any(|e| e.message_id == "<d>"));
    assert!(s.right.iter().any(|e| e.message_id == "<b>"));
}

#[test]
fn second_sync_has_empty_patch() {
    let mut s = sample();
    let p = s.patch();
    s.run(p, 8);
    assert!(s.patch().is_empty());
}

#[test]
fn failure_is_isolated_to_its_message() {
    let mut s = sample();
    s.broken.push("<b>".to_string());
    let p = s.patch();
    let (report, _) = s.run(p, 8);
    assert!(report.is_failed(&"<b>".to_string()));
    assert!(!report.is_failed(&"<a>".to_string()));
    assert!(!report.is_failed(&"<d>".to_string()));
    assert_eq!(report.failed_count(), 1);
    // The cache hunks of the failed message were not attempted.
    assert_eq!(report.skipped_count(), 2);
    for e in &report.entries {
        if e.message_id == "<b>" {
            assert!(!matches!(e.outcome, HunkOutcome::Applied));
        } else {
            assert!(matches!(e.outcome, HunkOutcome::Applied));
        }
    }
    // The other messages are synchronized; the failed one is not cached.
    assert!(s.right.iter().any(|e| e.message_id == "<a>"));
    assert!(s.left.iter().any(|e| e.message_id == "<d>"));
    assert!(s.left_cached.iter().all(|e| e.message_id != "<b>"));
    assert!(s.right_cached.iter().all(|e| e.message_id != "<b>"));
    // Once the store works again, the next sync regenerates only its hunks.
    s.broken.clear();
    let p = s.patch();
    assert_eq!(p.len(), 1);
    assert_eq!(p[0].message_id, "<b>");
    s.run(p, 8);
    assert!(s.converged());
}

#[test]
fn at_most_two_groups_in_flight() {
    let mut s = Stores::default();
    for i in 0..10 {
        s.left.push(env(&format!("l{i}"), &format!("<m{i}>"), flags(&[Flag::Seen])));
    }
    let p = s.patch();
    assert_eq!(p.len(), 10);
    let (report, most) = s.run(p, 2);
    assert_eq!(most, 2);
    assert_eq!(report.applied_count(), 30);
    assert!(s.converged());
}

#[test]
fn executor_grants_no_more_than_its_bound() {
    let s = sample();
    let p = s.patch();
    let n = p.len();
    let mut ex = Executor::new(p, 2);
    assert_eq!(ex.start_next(), Some(0));
    assert_eq!(ex.start_next(), Some(1));
    assert_eq!(ex.start_next(), None);
    // Finishing a group frees a place.
    while let Some(_) = ex.next_hunk(0) {
        ex.record(0, Ok(()));
    }
    assert_eq!(ex.start_next(), Some(2));
    assert!(n >= 3);
}

#[test]
fn cache_hunks_after_a_failure_are_skipped() {
    let folder = "INBOX".to_string();
    let left = vec![env("1", "<a>", flags(&[]))];
    let p = build_patch(&folder, &vec![], &left, &vec![], &vec![]);
    let mut ex = Executor::new(p, 1);
    let g = ex.start_next().unwrap();
    assert_eq!(ex.next_hunk(g), Some(0));
    ex.record(g, Err("copy failed".to_string()));
    assert_eq!(ex.next_hunk(g), None);
    assert!(ex.is_done());
    let report = ex.report();
    assert_eq!(report.entries.len(), 3);
    assert!(matches!(&report.entries[0].outcome, HunkOutcome::Failed(e) if e == "copy failed"));
    assert!(matches!(report.entries[1].outcome, HunkOutcome::Skipped));
    assert!(matches!(report.entries[2].outcome, HunkOutcome::Skipped));
}

#[test]
fn live_hunks_after_a_failure_still_run() {
    let folder = "INBOX".to_string();
    let left = vec![env("1", "<a>", flags(&[Flag::Seen]))];
    let right = vec![env("2", "<a>", flags(&[Flag::Flagged]))];
    let p = build_patch(&folder, &vec![], &left, &vec![], &right);
    let mut ex = Executor::new(p, 1);
    let g = ex.start_next().unwrap();
    assert_eq!(ex.next_hunk(g), Some(0));
    ex.record(g, Err("flags".to_string()));
    assert_eq!(ex.next_hunk(g), Some(1));
    ex.record(g, Ok(()));
    assert_eq!(ex.next_hunk(g), None);
    let report = ex.report();
    assert_eq!(report.failed_count(), 1);
    assert_eq!(report.applied_count(), 1);
    assert_eq!(report.skipped_count(), 2);
}

#[test]
fn empty_patch_is_done_at_once() {
    let mut ex = Executor::new(Vec::new(), 8);
    assert!(ex.is_done());
    assert_eq!(ex.start_next(), None);
    assert!(ex.report().entries.is_empty());
}

#[test]
fn run_in_order_processes_every_group() {
    let mut s = Stores::default();
    for i in 0..10 {
        s.left.push(env(&format!("l{i}"), &format!("<m{i}>"), flags(&[Flag::Seen])));
    }
    s.broken.push("<m3>".to_string());
    let p = s.patch();
    let stores = RefCell::new(s);
    let mut ex = Executor::new(p, 2);
    ex.run_in_order(&|key: &String, h: &EmailSyncHunk| stores.borrow_mut().apply(key, h));
    assert!(ex.is_done());
    let report = ex.report();
    assert_eq!(report.entries.len(), 30);
    assert_eq!(report.applied_count(), 27);
    assert_eq!(report.failed_count(), 1);
    assert_eq!(report.skipped_count(), 2);
    assert!(report.is_failed(&"<m3>".to_string()));
    for e in &report.entries {
        if e.message_id != "<m3>" {
            assert!(matches!(e.outcome, HunkOutcome::Applied));
        }
    }
    let s = stores.into_inner();
    assert_eq!(s.right.len(), 9);
}
