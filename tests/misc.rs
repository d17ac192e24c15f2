use email::backend::{BackendFeatureBuilder, FeatureConfiguration};
use email::envelope::{Address, Envelope, Id, MultipleIds, SingleId};
use email::flag::{Flag, Flags};
use email::folder::FolderSyncStrategy;
use email::hunk::{EmailSyncHunk, Side};
use email::maildir::MaildirConfig;
use email::sync::{view_size, EmailSyncBuilder, EmailSyncEvent, Error, ViewCollector, ViewKind};
use email::text::decimal_string;
use email::wkd::{next_redirect_step, EmailAddress, RedirectStep, Url, Variant, REDIRECT_LIMIT};
use std::collections::HashSet;

fn env(id: &str, message_id: &str) -> Envelope {
    Envelope {
        id: id.to_string(),
        message_id: message_id.to_string(),
        flags: Flags::new(),
        from: Address { name: None, addr: String::new() },
        to: Address { name: None, addr: String::new() },
        subject: String::new(),
        date: 0,
    }
}

#[test]
fn flags_union_and_equality() {
    let mut a = Flags::new();
    a.insert(Flag::Seen);
    let mut b = Flags::new();
    b.insert(Flag::Flagged);
    let u = a.union(&b);
    assert!(u.contains(Flag::Seen) && u.contains(Flag::Flagged));
    assert!(!u.contains(Flag::Draft));
    assert_eq!(u.len(), 2);
    assert!(!u.same_as(&a));
    let mut c = u;
    c.remove(Flag::Flagged);
    assert!(c.same_as(&a));
}

#[test]
fn id_join() {
    let ids = Id::Multiple(MultipleIds(vec!["1".to_string(), "2".to_string(), "3".to_string()]));
    assert_eq!(ids.join(","), "1,2,3");
    let one = Id::Single(SingleId("42".to_string()));
    assert_eq!(one.join(","), "42");
    assert_eq!(Id::Multiple(MultipleIds(vec![])).join(","), "");
}

#[test]
fn event_descriptions() {
    let e = EmailSyncEvent::ListedLeftEnvelopes("INBOX".to_string(), 42);
    assert_eq!(e.to_string(), "Listed 42 left envelopes in INBOX");
    let e = EmailSyncEvent::ListedRightCachedEnvelopes("Sent".to_string(), 0);
    assert_eq!(e.to_string(), "Listed 0 right cached envelopes in Sent");
    let e = EmailSyncEvent::ListedAllEnvelopes("INBOX".to_string());
    assert_eq!(e.to_string(), "Listed all envelopes in INBOX");
    let h = EmailSyncHunk::DeleteCached { folder: "INBOX".to_string(), id: "7".to_string(), side: Side::Right };
    let e = EmailSyncEvent::ProcessedEmailHunk(h);
    assert_eq!(e.to_string(), "Deleting right cached message 7 of folder INBOX");
}

#[test]
fn decimal_rendering() {
    assert_eq!(decimal_string(0), "0");
    assert_eq!(decimal_string(7), "7");
    assert_eq!(decimal_string(1234), "1234");
    assert_eq!(decimal_string(usize::MAX), usize::MAX.to_string());
}

#[test]
fn sync_builder_id_and_cache_dir() {
    let b = EmailSyncBuilder::new("left", "right");
    assert_eq!(b.id(), "520360f990d092e8a3f520e3cbdc2ee2");
    let other = EmailSyncBuilder::new("a", "b");
    assert_eq!(other.id().len(), 32);
    assert!(other.id().chars().all(|c| c.is_ascii_digit() || ('a'..='f').contains(&c)));
    assert_eq!(other.id(), EmailSyncBuilder::new("ab", "").id());
    let b = b.with_cache_dir("/tmp/cache".to_string());
    assert_eq!(b.get_cache_dir(), Ok("/tmp/cache".to_string()));
    assert_eq!(b.cache_root(&"/tmp/cache".to_string(), Side::Left), "/tmp/cache/left");
    assert_eq!(b.cache_root(&"/tmp/cache".to_string(), Side::Right), "/tmp/cache/right");
    assert_eq!(
        b.default_cache_dir_in(&"/home/a/.cache".to_string()),
        "/home/a/.cache/pimalaya/email/sync/520360f990d092e8a3f520e3cbdc2ee2"
    );
    let b = b.with_some_cache_dir(None);
    match b.get_cache_dir() {
        Ok(dir) => assert!(dir.ends_with("/pimalaya/email/sync/520360f990d092e8a3f520e3cbdc2ee2")),
        Err(e) => assert_eq!(e, Error::GetCacheDirectoryError),
    }
}

#[test]
fn collector_fails_fast_and_builds() {
    let mut c = ViewCollector::new("INBOX".to_string());
    let ev = c.on_listed(ViewKind::Left, Ok(vec![env("1", "<a>"), env("2", "<a>"), env("3", "<b>")]));
    match ev {
        Ok(EmailSyncEvent::ListedLeftEnvelopes(f, n)) => {
            assert_eq!(f, "INBOX");
            assert_eq!(n, 2);
        }
        other => panic!("unexpected {other:?}"),
    }
    assert!(!c.is_complete());
    let err = c.on_listed(ViewKind::Right, Err("connection lost".to_string()));
    assert_eq!(err.unwrap_err(), Error::ListEnvelopesError(ViewKind::Right, "connection lost".to_string()));
    assert!(c.on_listed(ViewKind::Right, Ok(vec![])).is_ok());
    assert!(c.on_listed(ViewKind::LeftCached, Ok(vec![])).is_ok());
    assert!(c.on_listed(ViewKind::RightCached, Ok(vec![])).is_ok());
    assert!(c.is_complete());
    let (patch, ev) = c.build();
    assert_eq!(patch.len(), 2);
    assert!(matches!(ev, EmailSyncEvent::ListedAllEnvelopes(f) if f == "INBOX"));
}

#[test]
fn view_size_counts_distinct_ids() {
    assert_eq!(view_size(&vec![]), 0);
    assert_eq!(view_size(&vec![env("1", "<a>"), env("2", "<b>"), env("3", "<a>")]), 2);
}

#[test]
fn wkd_url_of_address() {
    let url = Url::from("Joe.Doe@Example.ORG").unwrap();
    assert_eq!(url.domain, "example.org");
    assert_eq!(url.local_part, "Joe.Doe");
    assert_eq!(url.local_encoded, "iy9q119eutrkn8s1mk4r39qejnbu3n5q");
    assert_eq!(
        url.build(Some(Variant::Direct)),
        "https://example.org/.well-known/openpgpkey/hu/iy9q119eutrkn8s1mk4r39qejnbu3n5q?l=Joe.Doe"
    );
    assert_eq!(
        url.build(None),
        "https://openpgpkey.example.org/.well-known/openpgpkey/example.org/hu/iy9q119eutrkn8s1mk4r39qejnbu3n5q?l=Joe.Doe"
    );
    assert_eq!(url.build(Some(Variant::Advanced)), url.build(None));
}

#[test]
fn wkd_address_parsing() {
    let a = EmailAddress::from("Alice@Example.COM").unwrap();
    assert_eq!(a.local_part, "Alice");
    assert_eq!(a.domain, "example.com");
    assert!(EmailAddress::from("no-at-sign").is_err());
    assert!(EmailAddress::from("a@b@c").is_err());
    assert!(Url::from("a@b@c").is_err());
    let a = EmailAddress::from("@").unwrap();
    assert_eq!(a.local_part, "");
    assert_eq!(a.domain, "");
}

#[test]
fn folder_strategy_default() {
    assert!(FolderSyncStrategy::default().is_default());
    assert!(FolderSyncStrategy::All.is_default());
    let mut names = HashSet::new();
    names.insert("INBOX".to_string());
    assert!(!FolderSyncStrategy::Include(names.clone()).is_default());
    assert!(!FolderSyncStrategy::Exclude(names).is_default());
}

#[test]
fn backend_feature_builder() {
    let b = BackendFeatureBuilder::new(|c: &u32| Some(*c + 1));
    assert_eq!(b.build_into_feature(&41), Some(42));
    let none: BackendFeatureBuilder<fn(&u32) -> Option<u32>> = BackendFeatureBuilder::none();
    assert!(none.into_option().is_none());
    let none: BackendFeatureBuilder<fn(&u32) -> Option<u32>> = BackendFeatureBuilder::default();
    assert_eq!(none.build_into_feature(&1), None);
}

#[test]
fn maildir_config() {
    let c = MaildirConfig { root_dir: "/tmp/mail".to_string() };
    assert_eq!(c, MaildirConfig { root_dir: "/tmp/mail".to_string() });
    assert_eq!(MaildirConfig::default().root_dir, "");
}

fn times_ten(c: &u32) -> Option<u32> {
    Some(*c * 10)
}

fn times_ten_plus_one(c: &u32) -> Option<u32> {
    Some(*c * 10 + 1)
}

type Builder = fn(&u32) -> Option<u32>;

#[test]
fn feature_configuration_picks_a_builder() {
    let ctx = || BackendFeatureBuilder::new(times_ten as Builder);
    let own = BackendFeatureBuilder::new(times_ten_plus_one as Builder);
    let disabled: FeatureConfiguration<Builder> = FeatureConfiguration::with_feature_disabled();
    assert!(disabled.build_into_builder(ctx()).into_option().is_none());
    let d: FeatureConfiguration<Builder> = FeatureConfiguration::default();
    assert_eq!(d.build_into_builder(ctx()).build_into_feature(&4), Some(40));
    let o = FeatureConfiguration::override_with(own).build_into_builder(ctx());
    assert_eq!(o.build_into_feature(&4), Some(41));
    let empty = FeatureConfiguration::override_with(BackendFeatureBuilder::none()).build_into_builder(ctx());
    assert_eq!(empty.build_into_feature(&4), Some(40));
}

#[test]
fn id_text() {
    let ids = Id::Multiple(MultipleIds(vec!["4".to_string(), "5".to_string()]));
    assert_eq!(ids.to_string(), "4, 5");
    assert_eq!(Id::Single(SingleId("9".to_string())).to_string(), "9");
}

#[test]
fn redirect_steps() {
    assert_eq!(
        next_redirect_step(REDIRECT_LIMIT, true, true, Some("https://b/".to_string())),
        RedirectStep::Follow("https://b/".to_string(), 9)
    );
    assert_eq!(next_redirect_step(0, true, true, Some("x".to_string())), RedirectStep::Follow("x".to_string(), -1));
    assert_eq!(next_redirect_step(-1, true, true, Some("x".to_string())), RedirectStep::TooManyRedirects);
    assert_eq!(next_redirect_step(3, true, false, None), RedirectStep::Finish);
    assert_eq!(next_redirect_step(3, true, true, None), RedirectStep::Finish);
    assert_eq!(next_redirect_step(3, false, true, Some("x".to_string())), RedirectStep::Finish);
}
