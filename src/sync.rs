//! The sync orchestrator: names the cache of an account pair, collects the
//! four listings of a folder failing fast, builds the patch, and reports
//! progress through events.

use vstd::prelude::*;
use crate::envelope::Envelope;
use crate::hunk::{EmailSyncHunk, Side};
use crate::patch::{build_patch, patch_effects, HunkGroup, World};
use crate::text::{decimal, decimal_string};
use crate::view::{add_keys, keys_of, lemma_view_dom, view_of};

verus! {

/// The lower-case hexadecimal MD5 digest of the UTF-8 encoding of `s`.
pub uninterp spec fn md5_hex_of(s: Seq<char>) -> Seq<char>;

/// A lower-case hexadecimal digit.
pub open spec fn is_lower_hex_digit(c: char) -> bool {
    ('0' <= c && c <= '9') || ('a' <= c && c <= 'f')
}

/// `s` is made of lower-case hexadecimal digits only.
pub open spec fn is_lower_hex(s: Seq<char>) -> bool {
    forall|i: int| 0 <= i < s.len() ==> is_lower_hex_digit(#[trigger] s[i])
}

/// Relies on `md5::compute` and the lower-hex rendering of its 16-byte
/// digest, two lower-case hexadecimal digits per byte.
#[verifier::external_body]
fn md5_hex(s: &str) -> (r: String)
    ensures
        r@ == md5_hex_of(s@),
        r@.len() == 32,
        is_lower_hex(r@),
{
    format!("{:x}", md5::compute(s))
}

/// Relies on `dirs::cache_dir`: the user's cache directory, if the
/// platform has one and its path is valid UTF-8. It depends on the
/// environment, so nothing is promised of it.
#[verifier::external_body]
fn user_cache_dir() -> (r: Option<String>) {
    let dir = dirs::cache_dir()?;
    dir.into_os_string().into_string().ok()
}

/// `base` and `name` joined by a path separator.
pub open spec fn join_path(base: Seq<char>, name: Seq<char>) -> Seq<char> {
    base + "/"@ + name
}

fn join(base: &String, name: &str) -> (r: String)
    ensures
        r@ == join_path(base@, name@),
{
    let mut r = base.clone();
    r.append("/");
    r.append(name);
    r
}

/// The default cache directory of the account pair `id` under the user's
/// cache directory `base`.
pub open spec fn default_cache_path(base: Seq<char>, id: Seq<char>) -> Seq<char> {
    join_path(join_path(join_path(join_path(base, "pimalaya"@), "email"@), "sync"@), id)
}

/// Errors of a sync.
#[derive(Clone, Debug, PartialEq, Eq)]
pub enum Error {
    /// No cache directory is configured and the platform has no default.
    GetCacheDirectoryError,
    /// Listing one of the four views failed.
    ListEnvelopesError(ViewKind, String),
}

/// One of the four views of a folder.
#[derive(Clone, Copy, Debug, PartialEq, Eq, Structural, Hash)]
pub enum ViewKind {
    LeftCached,
    Left,
    RightCached,
    Right,
}

/// A progress event of an email sync.
#[derive(Clone, Debug)]
pub enum EmailSyncEvent {
    ListedLeftEnvelopes(String, usize),
    ListedLeftCachedEnvelopes(String, usize),
    ListedRightEnvelopes(String, usize),
    ListedRightCachedEnvelopes(String, usize),
    ListedAllEnvelopes(String),
    ProcessedEmailHunk(EmailSyncHunk),
}

pub open spec fn side_name(side: Side) -> Seq<char> {
    match side {
        Side::Left => "left"@,
        Side::Right => "right"@,
    }
}

fn side_str(side: Side) -> (r: &'static str)
    ensures
        r@ == side_name(side),
{
    match side {
        Side::Left => "left",
        Side::Right => "right",
    }
}

/// The description of a hunk.
pub open spec fn hunk_text(h: EmailSyncHunk) -> Seq<char> {
    match h {
        EmailSyncHunk::FetchThenCache { folder, id, source, cache, .. } => "Caching "@ + side_name(
            source,
        ) + " message "@ + id@ + " of folder "@ + folder@ + " in "@ + side_name(cache)
            + " cache"@,
        EmailSyncHunk::CopyToOtherSide { src_folder, dst_folder, id, source, .. } => "Copying "@
            + side_name(source) + " message "@ + id@ + " of folder "@ + src_folder@
            + " to "@ + side_name(source.spec_other()) + " folder "@ + dst_folder@,
        EmailSyncHunk::UpdateLiveFlags { folder, id, side, .. } => "Updating flags of "@
            + side_name(side) + " message "@ + id@ + " of folder "@ + folder@,
        EmailSyncHunk::UpdateCachedFlags { folder, id, side, .. } => "Updating flags of "@
            + side_name(side) + " cached message "@ + id@ + " of folder "@ + folder@,
        EmailSyncHunk::DeleteLive { folder, id, side } => "Deleting "@ + side_name(side)
            + " message "@ + id@ + " of folder "@ + folder@,
        EmailSyncHunk::DeleteCached { folder, id, side } => "Deleting "@ + side_name(side)
            + " cached message "@ + id@ + " of folder "@ + folder@,
    }
}

/// The description of an event.
pub open spec fn event_text(e: EmailSyncEvent) -> Seq<char> {
    match e {
        EmailSyncEvent::ListedLeftEnvelopes(folder, n) => "Listed "@ + decimal(n as nat)
            + " left envelopes in "@ + folder@,
        EmailSyncEvent::ListedLeftCachedEnvelopes(folder, n) => "Listed "@ + decimal(n as nat)
            + " left cached envelopes in "@ + folder@,
        EmailSyncEvent::ListedRightEnvelopes(folder, n) => "Listed "@ + decimal(n as nat)
            + " right envelopes in "@ + folder@,
        EmailSyncEvent::ListedRightCachedEnvelopes(folder, n) => "Listed "@ + decimal(n as nat)
            + " right cached envelopes in "@ + folder@,
        EmailSyncEvent::ListedAllEnvelopes(folder) => "Listed all envelopes in "@ + folder@,
        EmailSyncEvent::ProcessedEmailHunk(h) => hunk_text(h),
    }
}

impl EmailSyncHunk {
    /// A description of the hunk.
    pub fn to_string(&self) -> (r: String)
        ensures
            r@ == hunk_text(*self),
    {
        let mut s: String;
        match self {
            EmailSyncHunk::FetchThenCache { folder, id, source, cache, .. } => {
                s = String::from_str("Caching ");
                s.append(side_str(*source));
                s.append(" message ");
                s.append(id.as_str());
                s.append(" of folder ");
                s.append(folder.as_str());
                s.append(" in ");
                s.append(side_str(*cache));
                s.append(" cache");
            },
            EmailSyncHunk::CopyToOtherSide { src_folder, dst_folder, id, source, .. } => {
                s = String::from_str("Copying ");
                s.append(side_str(*source));
                s.append(" message ");
                s.append(id.as_str());
                s.append(" of folder ");
                s.append(src_folder.as_str());
                s.append(" to ");
                s.append(side_str(source.other()));
                s.append(" folder ");
                s.append(dst_folder.as_str());
            },
            EmailSyncHunk::UpdateLiveFlags { folder, id, side, .. } => {
                s = String::from_str("Updating flags of ");
                s.append(side_str(*side));
                s.append(" message ");
                s.append(id.as_str());
                s.append(" of folder ");
                s.append(folder.as_str());
            },
            EmailSyncHunk::UpdateCachedFlags { folder, id, side, .. } => {
                s = String::from_str("Updating flags of ");
                s.append(side_str(*side));
                s.append(" cached message ");
                s.append(id.as_str());
                s.append(" of folder ");
                s.append(folder.as_str());
            },
            EmailSyncHunk::DeleteLive { folder, id, side } => {
                s = String::from_str("Deleting ");
                s.append(side_str(*side));
                s.append(" message ");
                s.append(id.as_str());
                s.append(" of folder ");
                s.append(folder.as_str());
            },
            EmailSyncHunk::DeleteCached { folder, id, side } => {
                s = String::from_str("Deleting ");
                s.append(side_str(*side));
                s.append(" cached message ");
                s.append(id.as_str());
                s.append(" of folder ");
                s.append(folder.as_str());
            },
        }
        s
    }
}

fn listed_text(n: usize, what: &str, folder: &String) -> (r: String)
    ensures
        r@ == "Listed "@ + decimal(n as nat) + what@ + folder@,
{
    let mut s = String::from_str("Listed ");
    let d = decimal_string(n);
    s.append(d.as_str());
    s.append(what);
    s.append(folder.as_str());
    s
}

impl EmailSyncEvent {
    /// A description of the event.
    pub fn to_string(&self) -> (r: String)
        ensures
            r@ == event_text(*self),
    {
        match self {
            EmailSyncEvent::ListedLeftEnvelopes(folder, n) => listed_text(
                *n,
                " left envelopes in ",
                folder,
            ),
            EmailSyncEvent::ListedLeftCachedEnvelopes(folder, n) => listed_text(
                *n,
                " left cached envelopes in ",
                folder,
            ),
            EmailSyncEvent::ListedRightEnvelopes(folder, n) => listed_text(
                *n,
                " right envelopes in ",
                folder,
            ),
            EmailSyncEvent::ListedRightCachedEnvelopes(folder, n) => listed_text(
                *n,
                " right cached envelopes in ",
                folder,
            ),
            EmailSyncEvent::ListedAllEnvelopes(folder) => {
                let mut s = String::from_str("Listed all envelopes in ");
                s.append(folder.as_str());
                s
            },
            EmailSyncEvent::ProcessedEmailHunk(h) => h.to_string(),
        }
    }
}

/// Configures the sync of two accounts.
pub struct EmailSyncBuilder {
    id: String,
    left_account: String,
    right_account: String,
    cache_dir: Option<String>,
}

impl EmailSyncBuilder {
    /// The identifier of the account pair, which names its cache.
    pub closed spec fn spec_id(&self) -> Seq<char> {
        self.id@
    }

    pub closed spec fn spec_left_account(&self) -> Seq<char> {
        self.left_account@
    }

    pub closed spec fn spec_right_account(&self) -> Seq<char> {
        self.right_account@
    }

    /// The cache directory set by the caller, if any.
    pub closed spec fn spec_cache_dir(&self) -> Option<String> {
        self.cache_dir
    }

    /// A builder for the sync of the accounts named `left_account` and
    /// `right_account`; the pair is identified by the MD5 digest of the
    /// two names joined.
    pub fn new(left_account: &str, right_account: &str) -> (r: EmailSyncBuilder)
        ensures
            r.spec_id() == md5_hex_of(left_account@ + right_account@),
            r.spec_id().len() == 32,
            is_lower_hex(r.spec_id()),
            r.spec_left_account() == left_account@,
            r.spec_right_account() == right_account@,
            r.spec_cache_dir() is None,
    {
        let mut names = String::from_str(left_account);
        names.append(right_account);
        let id = md5_hex(names.as_str());
        EmailSyncBuilder {
            id,
            left_account: String::from_str(left_account),
            right_account: String::from_str(right_account),
            cache_dir: None,
        }
    }

    /// The identifier of the account pair.
    pub fn id(&self) -> (r: &String)
        ensures
            r@ == self.spec_id(),
    {
        &self.id
    }

    /// Sets or unsets the cache directory.
    pub fn set_some_cache_dir(&mut self, dir: Option<String>)
        ensures
            final(self).spec_cache_dir() == dir,
            final(self).spec_id() == old(self).spec_id(),
            final(self).spec_left_account() == old(self).spec_left_account(),
            final(self).spec_right_account() == old(self).spec_right_account(),
    {
        self.cache_dir = dir;
    }

    /// Sets the cache directory.
    pub fn set_cache_dir(&mut self, dir: String)
        ensures
            final(self).spec_cache_dir() == Some(dir),
            final(self).spec_id() == old(self).spec_id(),
            final(self).spec_left_account() == old(self).spec_left_account(),
            final(self).spec_right_account() == old(self).spec_right_account(),
    {
        self.set_some_cache_dir(Some(dir));
    }

    /// The builder with the cache directory set or unset.
    pub fn with_some_cache_dir(self, dir: Option<String>) -> (r: EmailSyncBuilder)
        ensures
            r.spec_cache_dir() == dir,
            r.spec_id() == self.spec_id(),
            r.spec_left_account() == self.spec_left_account(),
            r.spec_right_account() == self.spec_right_account(),
    {
        let mut b = self;
        b.set_some_cache_dir(dir);
        b
    }

    /// The builder with the cache directory set.
    pub fn with_cache_dir(self, dir: String) -> (r: EmailSyncBuilder)
        ensures
            r.spec_cache_dir() == Some(dir),
            r.spec_id() == self.spec_id(),
            r.spec_left_account() == self.spec_left_account(),
            r.spec_right_account() == self.spec_right_account(),
    {
        let mut b = self;
        b.set_cache_dir(dir);
        b
    }

    /// The default cache directory of the pair under the user cache
    /// directory `base`.
    pub fn default_cache_dir_in(&self, base: &String) -> (r: String)
        ensures
            r@ == default_cache_path(base@, self.spec_id()),
    {
        let a = join(base, "pimalaya");
        let b = join(&a, "email");
        let c = join(&b, "sync");
        join(&c, self.id.as_str())
    }

    /// The default cache directory of the pair, under the user's cache
    /// directory if the platform has one.
    pub fn find_default_cache_dir(&self) -> (r: Option<String>)
        ensures
            r matches Some(d) ==> exists|base: Seq<char>| d@ == default_cache_path(base, self.spec_id()),
    {
        match user_cache_dir() {
            Some(base) => Some(self.default_cache_dir_in(&base)),
            None => None,
        }
    }

    /// The cache directory: the one set, else the default one.
    pub fn find_cache_dir(&self) -> (r: Option<String>)
        ensures
            self.spec_cache_dir() is Some ==> r == self.spec_cache_dir(),
            self.spec_cache_dir() is None ==> (r matches Some(d) ==> exists|base: Seq<char>|
                d@ == default_cache_path(base, self.spec_id())),
    {
        match &self.cache_dir {
            Some(dir) => Some(dir.clone()),
            None => self.find_default_cache_dir(),
        }
    }

    /// The cache directory, or an error if there is none.
    pub fn get_cache_dir(&self) -> (r: Result<String, Error>)
        ensures
            self.spec_cache_dir() matches Some(d) ==> r == Ok::<String, Error>(d),
            self.spec_cache_dir() is None ==> match r {
                Ok(d) => exists|base: Seq<char>| d@ == default_cache_path(base, self.spec_id()),
                Err(e) => e == Error::GetCacheDirectoryError,
            },
    {
        match self.find_cache_dir() {
            Some(dir) => Ok(dir),
            None => Err(Error::GetCacheDirectoryError),
        }
    }

    /// The root of the cache of `side`, under the cache directory `dir`:
    /// one directory per account.
    pub fn cache_root(&self, dir: &String, side: Side) -> (r: String)
        ensures
            r@ == join_path(
                dir@,
                match side {
                    Side::Left => self.spec_left_account(),
                    Side::Right => self.spec_right_account(),
                },
            ),
    {
        match side {
            Side::Left => join(dir, self.left_account.as_str()),
            Side::Right => join(dir, self.right_account.as_str()),
        }
    }
}

/// The number of distinct message ids in a listing: the size of its view.
pub fn view_size(envs: &Vec<Envelope>) -> (r: usize)
    ensures
        r == view_of(envs@).dom().len(),
{
    let mut keys: Vec<String> = Vec::new();
    proof {
        assert(keys@.map_values(|s: String| s@) =~= Seq::<Seq<char>>::empty());
        assert(Seq::<Seq<char>>::empty().to_set() =~= Set::<Seq<char>>::empty());
    }
    add_keys(&mut keys, envs);
    proof {
        let ks = keys@.map_values(|s: String| s@);
        ks.unique_seq_to_set();
        lemma_view_dom(envs@);
        assert(ks.to_set() =~= keys_of(envs@));
    }
    keys.len()
}

/// The event that reports the listing of a view of `folder` with `n`
/// messages.
pub open spec fn listed_event(kind: ViewKind, folder: String, n: usize) -> EmailSyncEvent {
    match kind {
        ViewKind::LeftCached => EmailSyncEvent::ListedLeftCachedEnvelopes(folder, n),
        ViewKind::Left => EmailSyncEvent::ListedLeftEnvelopes(folder, n),
        ViewKind::RightCached => EmailSyncEvent::ListedRightCachedEnvelopes(folder, n),
        ViewKind::Right => EmailSyncEvent::ListedRightEnvelopes(folder, n),
    }
}

/// Collects the four listings of a folder. The first failed listing
/// ends the collection: the sync fails and no patch is built.
pub struct ViewCollector {
    folder: String,
    left_cached: Option<Vec<Envelope>>,
    left: Option<Vec<Envelope>>,
    right_cached: Option<Vec<Envelope>>,
    right: Option<Vec<Envelope>>,
}

impl ViewCollector {
    pub closed spec fn folder(&self) -> String {
        self.folder
    }

    /// The listing of the view `kind`, once received.
    pub closed spec fn listing(&self, kind: ViewKind) -> Option<Seq<Envelope>> {
        let v = match kind {
            ViewKind::LeftCached => self.left_cached,
            ViewKind::Left => self.left,
            ViewKind::RightCached => self.right_cached,
            ViewKind::Right => self.right,
        };
        match v {
            Some(v) => Some(v@),
            None => None,
        }
    }

    pub open spec fn complete(&self) -> bool {
        &&& self.listing(ViewKind::LeftCached) is Some
        &&& self.listing(ViewKind::Left) is Some
        &&& self.listing(ViewKind::RightCached) is Some
        &&& self.listing(ViewKind::Right) is Some
    }

    /// A collector for the views of `folder`.
    pub fn new(folder: String) -> (r: ViewCollector)
        ensures
            r.folder() == folder,
            forall|k: ViewKind| (#[trigger] r.listing(k)) is None,
    {
        ViewCollector { folder, left_cached: None, left: None, right_cached: None, right: None }
    }

    /// Takes the result of listing the view `kind`. A listing is kept and
    /// reported by an event carrying the size of its view; a failure is
    /// returned as the error of the whole sync.
    pub fn on_listed(&mut self, kind: ViewKind, listing: Result<Vec<Envelope>, String>) -> (r:
        Result<EmailSyncEvent, Error>)
        ensures
            final(self).folder() == old(self).folder(),
            forall|k: ViewKind| k != kind ==> (#[trigger] final(self).listing(k)) == old(self).listing(k),
            match listing {
                Ok(v) => {
                    &&& final(self).listing(kind) == Some(v@)
                    &&& r == Ok::<EmailSyncEvent, Error>(
                        listed_event(kind, old(self).folder(), view_of(v@).dom().len() as usize),
                    )
                },
                Err(e) => {
                    &&& final(self).listing(kind) == old(self).listing(kind)
                    &&& r == Err::<EmailSyncEvent, Error>(Error::ListEnvelopesError(kind, e))
                },
            },
    {
        match listing {
            Ok(v) => {
                let n = view_size(&v);
                let folder = self.folder.clone();
                let event = match kind {
                    ViewKind::LeftCached => EmailSyncEvent::ListedLeftCachedEnvelopes(folder, n),
                    ViewKind::Left => EmailSyncEvent::ListedLeftEnvelopes(folder, n),
                    ViewKind::RightCached => EmailSyncEvent::ListedRightCachedEnvelopes(folder, n),
                    ViewKind::Right => EmailSyncEvent::ListedRightEnvelopes(folder, n),
                };
                match kind {
                    ViewKind::LeftCached => self.left_cached = Some(v),
                    ViewKind::Left => self.left = Some(v),
                    ViewKind::RightCached => self.right_cached = Some(v),
                    ViewKind::Right => self.right = Some(v),
                }
                Ok(event)
            },
            Err(e) => Err(Error::ListEnvelopesError(kind, e)),
        }
    }

    /// Whether all four listings are in.
    pub fn is_complete(&self) -> (r: bool)
        ensures
            r == self.complete(),
    {
        self.left_cached.is_some() && self.left.is_some() && self.right_cached.is_some()
            && self.right.is_some()
    }

    /// The patch of the folder, once all four listings are in, with the
    /// event that reports it.
    pub fn build(&self) -> (r: (Vec<HunkGroup>, EmailSyncEvent))
        requires
            self.complete(),
        ensures
            patch_effects(r.0@) == World::of_listings(
                self.listing(ViewKind::LeftCached)->0,
                self.listing(ViewKind::Left)->0,
                self.listing(ViewKind::RightCached)->0,
                self.listing(ViewKind::Right)->0,
            ).plan_map(),
            forall|i: int, j: int|
                0 <= i < j < r.0.len() ==> (#[trigger] r.0@[i]).message_id@ != (
                #[trigger] r.0@[j]).message_id@,
            r.1 == EmailSyncEvent::ListedAllEnvelopes(self.folder()),
    {
        let lc = self.left_cached.as_ref().unwrap();
        let l = self.left.as_ref().unwrap();
        let rc = self.right_cached.as_ref().unwrap();
        let r = self.right.as_ref().unwrap();
        let patch = build_patch(&self.folder, lc, l, rc, r);
        (patch, EmailSyncEvent::ListedAllEnvelopes(self.folder.clone()))
    }
}

} // verus!
