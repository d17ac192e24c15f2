//! OpenPGP Web Key Directory addresses.
//!
//! The URL of the key of a mail address is made of its domain, lower-cased,
//! and of its local part: kept as is, and hashed with SHA-1 then encoded in
//! z-base-32 after lower-casing.

use vstd::prelude::*;
use sha1::{Digest, Sha1};

verus! {

/// The lower-cased form of a string.
pub uninterp spec fn lower_of(s: Seq<char>) -> Seq<char>;

/// The SHA-1 digest of a byte string.
pub uninterp spec fn sha1_of(b: Seq<u8>) -> Seq<u8>;

/// The z-base-32 encoding of a byte string.
pub uninterp spec fn zbase32_of(b: Seq<u8>) -> Seq<char>;

/// Relies on `str::to_lowercase`: the result depends on the characters
/// alone.
#[verifier::external_body]
fn lowercase(s: &str) -> (r: String)
    ensures
        r@ == lower_of(s@),
{
    s.to_lowercase()
}

/// Relies on `sha1::Sha1::digest`: a 20-byte digest of the input.
#[verifier::external_body]
fn sha1_digest(b: &[u8]) -> (r: Vec<u8>)
    ensures
        r@ == sha1_of(b@),
        r@.len() == 20,
{
    Sha1::digest(b).to_vec()
}

/// The z-base-32 alphabet.
pub open spec fn zbase32_alphabet() -> Seq<char> {
    seq![
        'y', 'b', 'n', 'd', 'r', 'f', 'g', '8', 'e', 'j', 'k', 'm', 'c', 'p', 'q', 'x',
        'o', 't', '1', 'u', 'w', 'i', 's', 'z', 'a', '3', '4', '5', 'h', '7', '6', '9',
    ]
}

/// Relies on `zbase32::encode_full_bytes`: one character of the alphabet
/// for each five bits of the input, the last group padded.
#[verifier::external_body]
fn zbase32_encode(b: &[u8]) -> (r: String)
    requires
        b@.len() * 8 <= u64::MAX,
    ensures
        r@ == zbase32_of(b@),
        r@.len() == (b@.len() * 8 + 4) / 5,
        forall|i: int| 0 <= i < r@.len() ==> zbase32_alphabet().contains(#[trigger] r@[i]),
{
    zbase32::encode_full_bytes(b)
}

/// Errors of Web Key Directory lookups.
#[derive(Clone, Debug, PartialEq, Eq)]
pub enum Error {
    /// The address does not hold exactly one `@`.
    ParseEmailAddressError(String),
}

/// The number of `@` in `s`.
pub open spec fn at_count(s: Seq<char>) -> nat
    decreases s.len(),
{
    if s.len() == 0 {
        0
    } else {
        at_count(s.drop_last()) + if s.last() == '@' {
            1nat
        } else {
            0
        }
    }
}

/// The position of the first `@` in `s`, if any.
pub open spec fn at_index(s: Seq<char>) -> int {
    choose|i: int| 0 <= i < s.len() && s[i] == '@' && forall|j: int| 0 <= j < i ==> s[j] != '@'
}

/// A mail address split into its local part and its domain.
#[derive(Clone, Debug, PartialEq, Eq)]
pub struct EmailAddress {
    pub local_part: String,
    pub domain: String,
}

proof fn lemma_at_count_prefix(s: Seq<char>, i: int)
    requires
        0 <= i < s.len(),
    ensures
        at_count(s.take(i + 1)) == at_count(s.take(i)) + if s[i] == '@' { 1nat } else { 0 },
{
    assert(s.take(i + 1).drop_last() =~= s.take(i));
}

impl EmailAddress {
    /// Splits `email_address` at its `@`: the local part is kept as is,
    /// the domain is lower-cased. An address without exactly one `@` is
    /// refused.
    pub fn from(email_address: &str) -> (r: Result<EmailAddress, Error>)
        ensures
            at_count(email_address@) == 1 <==> r is Ok,
            match r {
                Ok(a) => {
                    let s = email_address@;
                    let p = at_index(s);
                    &&& a.local_part@ == s.take(p)
                    &&& a.domain@ == lower_of(s.subrange(p + 1, s.len() as int))
                },
                Err(Error::ParseEmailAddressError(m)) => m@ == email_address@,
            },
    {
        let n = email_address.unicode_len();
        let ghost s = email_address@;
        let mut count: usize = 0;
        let mut first: usize = n;
        let mut i: usize = 0;
        while i < n
            invariant
                n == s.len(),
                s == email_address@,
                i <= n,
                count == at_count(s.take(i as int)),
                count <= i,
                count == 0 ==> first == n,
                count > 0 ==> first < i && s[first as int] == '@' && forall|j: int| 0 <= j < first ==> s[j] != '@',
                count == 0 ==> forall|j: int| 0 <= j < i ==> s[j] != '@',
            decreases n - i,
        {
            proof {
                lemma_at_count_prefix(s, i as int);
            }
            if email_address.get_char(i) == '@' {
                if count == 0 {
                    first = i;
                }
                count = count + 1;
            }
            i = i + 1;
        }
        proof {
            assert(s.take(n as int) =~= s);
        }
        if count != 1 {
            return Err(Error::ParseEmailAddressError(String::from_str(email_address)));
        }
        proof {
            let p = first as int;
            assert(s[p] == '@' && forall|j: int| 0 <= j < p ==> s[j] != '@');
            let q = at_index(s);
            assert(0 <= q < s.len() && s[q] == '@' && forall|j: int| 0 <= j < q ==> s[j] != '@');
            assert(q == p);
        }
        let local = email_address.substring_char(0, first);
        let domain = email_address.substring_char(first + 1, n);
        Ok(EmailAddress { local_part: String::from_str(local), domain: lowercase(domain) })
    }
}

/// The two forms of a Web Key Directory URL. `Advanced` is preferred.
#[derive(Clone, Copy, Debug, PartialEq, Eq, Structural)]
pub enum Variant {
    /// Served from the `openpgpkey` subdomain.
    Advanced,
    /// Served from the domain itself; deprecated.
    Direct,
}

impl Default for Variant {
    fn default() -> (r: Variant)
        ensures
            r == Variant::Advanced,
    {
        Variant::Advanced
    }
}

/// The hashed local part: its UTF-8 bytes hashed with SHA-1, the digest
/// encoded in z-base-32.
pub open spec fn encoded_local_part(local: Seq<char>) -> Seq<char> {
    zbase32_of(sha1_of(vstd::utf8::encode_utf8(local)))
}

/// Hashes and encodes a local part: 32 characters of the z-base-32
/// alphabet.
fn encode_local_part(local_part: &str) -> (r: String)
    ensures
        r@ == encoded_local_part(local_part@),
        r@.len() == 32,
        forall|i: int| 0 <= i < r@.len() ==> zbase32_alphabet().contains(#[trigger] r@[i]),
{
    let bytes = local_part.as_bytes();
    let digest = sha1_digest(bytes);
    zbase32_encode(digest.as_slice())
}

/// The parts of the Web Key Directory URLs of a mail address.
#[derive(Clone, Debug)]
pub struct Url {
    pub domain: String,
    pub local_encoded: String,
    pub local_part: String,
}

/// The URL of the key of a mail address, in the given form.
pub open spec fn url_text(u: Url, variant: Variant) -> Seq<char> {
    match variant {
        Variant::Direct => "https://"@ + u.domain@ + "/.well-known/openpgpkey/hu/"@ + u.local_encoded@
            + "?l="@ + u.local_part@,
        Variant::Advanced => "https://openpgpkey."@ + u.domain@ + "/.well-known/openpgpkey/"@
            + u.domain@ + "/hu/"@ + u.local_encoded@ + "?l="@ + u.local_part@,
    }
}

impl Url {
    /// The URL parts of `email_address`: the domain lower-cased, the
    /// local part as is and hashed after lower-casing.
    pub fn from(email_address: &str) -> (r: Result<Url, Error>)
        ensures
            at_count(email_address@) == 1 <==> r is Ok,
            match r {
                Ok(u) => {
                    let s = email_address@;
                    let p = at_index(s);
                    &&& u.local_part@ == s.take(p)
                    &&& u.domain@ == lower_of(s.subrange(p + 1, s.len() as int))
                    &&& u.local_encoded@ == encoded_local_part(lower_of(s.take(p)))
                    &&& u.local_encoded@.len() == 32
                    &&& forall|i: int|
                        0 <= i < u.local_encoded@.len() ==> zbase32_alphabet().contains(
                            #[trigger] u.local_encoded@[i],
                        )
                },
                Err(Error::ParseEmailAddressError(m)) => m@ == email_address@,
            },
    {
        let email = EmailAddress::from(email_address)?;
        let lower = lowercase(email.local_part.as_str());
        let local_encoded = encode_local_part(lower.as_str());
        Ok(Url { domain: email.domain, local_encoded, local_part: email.local_part })
    }

    /// The URL of the key, in the form `variant`, `Advanced` by default.
    pub fn build(&self, variant: Option<Variant>) -> (r: String)
        ensures
            r@ == url_text(
                *self,
                match variant {
                    Some(v) => v,
                    None => Variant::Advanced,
                },
            ),
    {
        let variant = match variant {
            Some(v) => v,
            None => Variant::default(),
        };
        match variant {
            Variant::Direct => {
                let mut s = String::from_str("https://");
                s.append(self.domain.as_str());
                s.append("/.well-known/openpgpkey/hu/");
                s.append(self.local_encoded.as_str());
                s.append("?l=");
                s.append(self.local_part.as_str());
                s
            },
            Variant::Advanced => {
                let mut s = String::from_str("https://openpgpkey.");
                s.append(self.domain.as_str());
                s.append("/.well-known/openpgpkey/");
                s.append(self.domain.as_str());
                s.append("/hu/");
                s.append(self.local_encoded.as_str());
                s.append("?l=");
                s.append(self.local_part.as_str());
                s
            },
        }
    }
}

/// How many redirects a key lookup follows.
pub const REDIRECT_LIMIT: i32 = 10;

/// What a key lookup does with the response to a request.
#[derive(Clone, Debug, PartialEq, Eq)]
pub enum RedirectStep {
    /// Requests `location`, with `depth` redirects left.
    Follow(String, i32),
    /// The response is the result of the lookup.
    Finish,
    /// The lookup followed too many redirects.
    TooManyRedirects,
}

/// The step after a response received with `depth` redirects left. A
/// response that succeeded with a redirection status and a valid
/// `location` is followed; any other is the result.
pub fn next_redirect_step(depth: i32, succeeded: bool, is_redirection: bool, location: Option<String>) -> (r:
    RedirectStep)
    ensures
        depth < 0 ==> r == RedirectStep::TooManyRedirects,
        depth >= 0 && succeeded && is_redirection && location is Some ==> r == RedirectStep::Follow(
            location->0,
            (depth - 1) as i32,
        ),
        depth >= 0 && !(succeeded && is_redirection && location is Some) ==> r == RedirectStep::Finish,
{
    if depth < 0 {
        return RedirectStep::TooManyRedirects;
    }
    if succeeded && is_redirection {
        if let Some(l) = location {
            return RedirectStep::Follow(l, depth - 1);
        }
    }
    RedirectStep::Finish
}

} // verus!
