use email::envelope::{Address, Envelope};
use email::flag::{Flag, Flags};
use email::hunk::{EmailSyncHunk, Side};
use email::patch::{build_patch, HunkGroup};

fn flags(list: &[Flag]) -> Flags {
    let mut f = Flags::new();
    for x in list {
        f.insert(*x);
    }
    f
}

fn env(id: &str, message_id: &str, list: &[Flag]) -> Envelope {
    Envelope {
        id: id.to_string(),
        message_id: message_id.to_string(),
        flags: flags(list),
        from: Address { name: None, addr: "alice@localhost".to_string() },
        to: Address { name: None, addr: "bob@localhost".to_string() },
        subject: "subject".to_string(),
        date: 0,
    }
}

fn group<'a>(p: &'a [HunkGroup], message_id: &str) -> &'a HunkGroup {
    p.iter().find(|g| g.message_id == message_id).expect("group")
}

#[test]
fn flag_union_scenario() {
    let folder = "INBOX".to_string();
    let left = vec![env("1", "<a>", &[Flag::Seen])];
    let right = vec![env("7", "<a>", &[Flag::Flagged])];
    let p = build_patch(&folder, &vec![], &left, &vec![], &right);
    assert_eq!(p.len(), 1);
    let g = group(&p, "<a>");
    let both = flags(&[Flag::Seen, Flag::Flagged]);
    assert_eq!(g.hunks.len(), 4);
    match &g.hunks[0] {
        EmailSyncHunk::UpdateLiveFlags { folder, id, side, flags } => {
            assert_eq!(folder, "INBOX");
            assert_eq!(id, "1");
            assert_eq!(*side, Side::Left);
            assert!(flags.same_as(&both));
        }
        h => panic!("unexpected {h:?}"),
    }
    match &g.hunks[1] {
        EmailSyncHunk::UpdateLiveFlags { id, side, flags, .. } => {
            assert_eq!(id, "7");
            assert_eq!(*side, Side::Right);
            assert!(flags.same_as(&both));
        }
        h => panic!("unexpected {h:?}"),
    }
    match &g.hunks[2] {
        EmailSyncHunk::FetchThenCache { id, source, cache, flags, .. } => {
            assert_eq!(id, "1");
            assert_eq!(*source, Side::Left);
            assert_eq!(*cache, Side::Left);
            assert!(flags.same_as(&both));
        }
        h => panic!("unexpected {h:?}"),
    }
    match &g.hunks[3] {
        EmailSyncHunk::FetchThenCache { id, source, cache, flags, .. } => {
            assert_eq!(id, "7");
            assert_eq!(*source, Side::Right);
            assert_eq!(*cache, Side::Right);
            assert!(flags.same_as(&both));
        }
        h => panic!("unexpected {h:?}"),
    }
}

#[test]
fn deletion_propagation_scenario() {
    let folder = "INBOX".to_string();
    let left_cached = vec![env("c1", "<a>", &[Flag::Seen])];
    let right_cached = vec![env("c2", "<a>", &[Flag::Seen])];
    let right = vec![env("7", "<a>", &[Flag::Seen])];
    let p = build_patch(&folder, &left_cached, &vec![], &right_cached, &right);
    assert_eq!(p.len(), 1);
    let g = group(&p, "<a>");
    assert_eq!(g.hunks.len(), 3);
    match &g.hunks[0] {
        EmailSyncHunk::DeleteLive { id, side, .. } => {
            assert_eq!(id, "7");
            assert_eq!(*side, Side::Right);
        }
        h => panic!("unexpected {h:?}"),
    }
    match &g.hunks[1] {
        EmailSyncHunk::DeleteCached { id, side, .. } => {
            assert_eq!(id, "c2");
            assert_eq!(*side, Side::Right);
        }
        h => panic!("unexpected {h:?}"),
    }
    match &g.hunks[2] {
        EmailSyncHunk::DeleteCached { id, side, .. } => {
            assert_eq!(id, "c1");
            assert_eq!(*side, Side::Left);
        }
        h => panic!("unexpected {h:?}"),
    }
}

#[test]
fn creation_propagation_scenario() {
    let folder = "INBOX".to_string();
    let left = vec![env("1", "<new>", &[Flag::Answered])];
    let p = build_patch(&folder, &vec![], &left, &vec![], &vec![]);
    assert_eq!(p.len(), 1);
    let g = group(&p, "<new>");
    assert_eq!(g.hunks.len(), 3);
    match &g.hunks[0] {
        EmailSyncHunk::CopyToOtherSide { src_folder, dst_folder, id, source, flags } => {
            assert_eq!(src_folder, "INBOX");
            assert_eq!(dst_folder, "INBOX");
            assert_eq!(id, "1");
            assert_eq!(*source, Side::Left);
            assert!(flags.same_as(&flags_of(&[Flag::Answered])));
        }
        h => panic!("unexpected {h:?}"),
    }
    match &g.hunks[1] {
        EmailSyncHunk::FetchThenCache { id, source, cache, .. } => {
            assert_eq!(id, "1");
            assert_eq!(*source, Side::Left);
            assert_eq!(*cache, Side::Left);
        }
        h => panic!("unexpected {h:?}"),
    }
    match &g.hunks[2] {
        EmailSyncHunk::FetchThenCache { id, source, cache, .. } => {
            assert_eq!(id, "1");
            assert_eq!(*source, Side::Left);
            assert_eq!(*cache, Side::Right);
        }
        h => panic!("unexpected {h:?}"),
    }
}

fn flags_of(list: &[Flag]) -> Flags {
    flags(list)
}

#[test]
fn existence_wins_over_deletion() {
    // Created on the left while the right cache shows a deletion.
    let folder = "INBOX".to_string();
    let left = vec![env("1", "<a>", &[])];
    let right_cached = vec![env("c2", "<a>", &[])];
    let p = build_patch(&folder, &vec![], &left, &right_cached, &vec![]);
    let g = group(&p, "<a>");
    assert!(matches!(g.hunks[0], EmailSyncHunk::CopyToOtherSide { source: Side::Left, .. }));
    assert!(matches!(g.hunks[1], EmailSyncHunk::FetchThenCache { cache: Side::Left, .. }));
    assert_eq!(g.hunks.len(), 2);
}

#[test]
fn unchanged_messages_get_no_hunk() {
    let folder = "INBOX".to_string();
    let e = || vec![env("1", "<a>", &[Flag::Seen])];
    let p = build_patch(&folder, &e(), &e(), &e(), &e());
    assert!(p.is_empty());
}

#[test]
fn empty_views_give_empty_patch() {
    let folder = "INBOX".to_string();
    let p = build_patch(&folder, &vec![], &vec![], &vec![], &vec![]);
    assert!(p.is_empty());
}

#[test]
fn deleted_on_both_sides_clears_caches() {
    let folder = "INBOX".to_string();
    let lc = vec![env("c1", "<a>", &[])];
    let rc = vec![env("c2", "<a>", &[])];
    let p = build_patch(&folder, &lc, &vec![], &rc, &vec![]);
    let g = group(&p, "<a>");
    assert_eq!(g.hunks.len(), 2);
    assert!(matches!(g.hunks[0], EmailSyncHunk::DeleteCached { side: Side::Left, .. }));
    assert!(matches!(g.hunks[1], EmailSyncHunk::DeleteCached { side: Side::Right, .. }));
}

#[test]
fn duplicate_message_ids_keep_the_last_listed() {
    let folder = "INBOX".to_string();
    let left = vec![env("1", "<a>", &[Flag::Seen]), env("2", "<a>", &[Flag::Draft])];
    let right = vec![env("7", "<a>", &[Flag::Draft])];
    let cache = || vec![env("c", "<a>", &[Flag::Draft])];
    let p = build_patch(&folder, &cache(), &left, &cache(), &right);
    assert!(p.is_empty());
}

#[test]
fn one_group_per_message() {
    let folder = "INBOX".to_string();
    let left = vec![env("1", "<a>", &[]), env("2", "<b>", &[]), env("3", "<c>", &[])];
    let right = vec![env("9", "<c>", &[]), env("8", "<d>", &[])];
    let p = build_patch(&folder, &vec![], &left, &vec![], &right);
    let mut keys: Vec<&str> = p.iter().map(|g| g.message_id.as_str()).collect();
    keys.sort();
    assert_eq!(keys, vec!["<a>", "<b>", "<c>", "<d>"]);
}
