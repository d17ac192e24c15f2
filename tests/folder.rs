use email::envelope::{message_id, tz_offset, Address, Envelope};
use email::flag::Flags;
use email::folder::{build_folder_patch, plan_folder, FolderSyncHunk};
use email::hunk::Side;

fn names(list: &[&str]) -> Vec<String> {
    list.iter().map(|s| s.to_string()).collect()
}

#[test]
fn folder_created_on_one_side_is_created_on_the_other() {
    let hs = plan_folder(&"Archive".to_string(), false, true, false, false);
    assert_eq!(
        hs,
        vec![
            FolderSyncHunk::CreateLive("Archive".to_string(), Side::Right),
            FolderSyncHunk::CreateCached("Archive".to_string(), Side::Left),
            FolderSyncHunk::CreateCached("Archive".to_string(), Side::Right),
        ]
    );
}

#[test]
fn folder_deleted_on_one_side_is_deleted_on_the_other() {
    let hs = plan_folder(&"Old".to_string(), true, true, true, false);
    assert_eq!(
        hs,
        vec![
            FolderSyncHunk::DeleteLive("Old".to_string(), Side::Left),
            FolderSyncHunk::DeleteCached("Old".to_string(), Side::Left),
            FolderSyncHunk::DeleteCached("Old".to_string(), Side::Right),
        ]
    );
}

#[test]
fn synchronized_folder_needs_nothing() {
    assert!(plan_folder(&"INBOX".to_string(), true, true, true, true).is_empty());
}

#[test]
fn folder_patch_covers_every_name() {
    let p = build_folder_patch(
        &names(&["INBOX", "Old"]),
        &names(&["INBOX", "Old", "Archive"]),
        &names(&["INBOX", "Old"]),
        &names(&["INBOX", "Drafts"]),
    );
    let mut seen: Vec<&str> = p.iter().map(|g| g.name.as_str()).collect();
    seen.sort();
    assert_eq!(seen, vec!["Archive", "Drafts", "INBOX", "Old"]);
    for g in &p {
        match g.name.as_str() {
            "INBOX" => assert!(g.hunks.is_empty()),
            "Old" => assert_eq!(g.hunks[0], FolderSyncHunk::DeleteLive("Old".to_string(), Side::Left)),
            "Archive" => assert_eq!(g.hunks[0], FolderSyncHunk::CreateLive("Archive".to_string(), Side::Right)),
            "Drafts" => assert_eq!(g.hunks[0], FolderSyncHunk::CreateLive("Drafts".to_string(), Side::Left)),
            other => panic!("unexpected folder {other}"),
        }
    }
}

#[test]
fn time_zone_offsets() {
    assert_eq!(tz_offset(2, 30, false), 9000);
    assert_eq!(tz_offset(5, 0, true), -18000);
    assert_eq!(tz_offset(0, 0, true), 0);
    assert_eq!(tz_offset(24, 0, false), 0);
    assert_eq!(tz_offset(23, 59, true), -86340);
}

#[test]
fn message_id_falls_back_to_date() {
    assert_eq!(message_id(Some("abc@host"), "2024-01-01T00:00:00+00:00"), "<abc@host>");
    assert_eq!(message_id(None, "2024-01-01T00:00:00+00:00"), "2024-01-01T00:00:00+00:00");
}

#[test]
fn sync_cache_message() {
    let e = Envelope {
        id: "1".to_string(),
        message_id: "<abc@host>".to_string(),
        flags: Flags::new(),
        from: Address { name: None, addr: String::new() },
        to: Address { name: None, addr: String::new() },
        subject: String::new(),
        date: 0,
    };
    assert_eq!(
        e.to_sync_cache_msg("Thu, 01 Jan 1970 00:00:00 +0000"),
        "Message-ID: <abc@host>\nDate: Thu, 01 Jan 1970 00:00:00 +0000\n\n"
    );
}
