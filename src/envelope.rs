//! Envelopes: the metadata snapshot of a message that the sync diffs.

use vstd::prelude::*;
use crate::flag::Flags;

verus! {

/// A mailbox address.
#[derive(Clone, Debug)]
pub struct Address {
    pub name: Option<String>,
    pub addr: String,
}

/// The envelope of a message, taken when a store is listed.
///
/// `id` is the identifier the store assigned to the message; `message_id`
/// is derived from the message itself and is the same in every store, so
/// the sync uses it as the message's key.
#[derive(Clone, Debug)]
pub struct Envelope {
    pub id: String,
    pub message_id: String,
    pub flags: Flags,
    pub from: Address,
    pub to: Address,
    pub subject: String,
    /// Seconds since the Unix epoch.
    pub date: i64,
}

/// One identifier assigned by a store.
#[derive(Clone, Debug, PartialEq, Eq)]
pub struct SingleId(pub String);

/// Several identifiers assigned by a store.
#[derive(Clone, Debug, Default, PartialEq, Eq)]
pub struct MultipleIds(pub Vec<String>);

/// One or several store identifiers.
#[derive(Clone, Debug, PartialEq, Eq)]
pub enum Id {
    Single(SingleId),
    Multiple(MultipleIds),
}

/// The identifiers joined with `sep` between each two of them.
pub open spec fn joined(ids: Seq<Seq<char>>, sep: Seq<char>) -> Seq<char>
    decreases ids.len(),
{
    if ids.len() == 0 {
        Seq::empty()
    } else if ids.len() == 1 {
        ids[0]
    } else {
        joined(ids.drop_last(), sep) + sep + ids.last()
    }
}

impl Id {
    /// The identifiers as a sequence of strings.
    pub open spec fn ids(&self) -> Seq<Seq<char>> {
        match self {
            Id::Single(id) => seq![id.0@],
            Id::Multiple(ids) => ids.0@.map_values(|s: String| s@),
        }
    }

    /// The identifiers separated by a comma and a space.
    pub fn to_string(&self) -> (r: String)
        ensures
            r@ == joined(self.ids(), ", "@),
    {
        self.join(", ")
    }

    /// The identifiers joined by `sep`; a single identifier is returned as is.
    pub fn join(&self, sep: &str) -> (r: String)
        ensures
            r@ == joined(self.ids(), sep@),
    {
        match self {
            Id::Single(id) => id.0.clone(),
            Id::Multiple(ids) => {
                let v = &ids.0;
                let mut out = String::new();
                let mut i: usize = 0;
                while i < v.len()
                    invariant
                        i <= v.len(),
                        out@ == joined(v@.map_values(|s: String| s@).take(i as int), sep@),
                    decreases v.len() - i,
                {
                    let ghost all = v@.map_values(|s: String| s@);
                    if i > 0 {
                        out.append(sep);
                    }
                    out.append(v[i].as_str());
                    proof {
                        let t = all.take(i as int + 1);
                        assert(t.drop_last() =~= all.take(i as int));
                        if i == 0 {
                            assert(all.take(0) =~= Seq::<Seq<char>>::empty());
                        }
                    }
                    i = i + 1;
                }
                proof {
                    assert(v@.map_values(|s: String| s@).take(v.len() as int) =~= v@.map_values(
                        |s: String| s@,
                    ));
                }
                out
            },
        }
    }
}

/// The offset from UTC, in seconds, of the time zone of a date header:
/// `tz_hour:tz_minute`, west of Greenwich if `before_gmt`. An offset of a
/// day or more is out of range and stands as zero.
pub open spec fn tz_offset_of(tz_hour: u8, tz_minute: u8, before_gmt: bool) -> int {
    let secs = tz_hour as int * 3600 + tz_minute as int * 60;
    let signed = if before_gmt {
        -secs
    } else {
        secs
    };
    if -86400 < signed < 86400 {
        signed
    } else {
        0
    }
}

/// The time zone offset of a date header, in seconds east of UTC.
pub fn tz_offset(tz_hour: u8, tz_minute: u8, before_gmt: bool) -> (r: i32)
    ensures
        r == tz_offset_of(tz_hour, tz_minute, before_gmt),
{
    let secs: i32 = (tz_hour as i32) * 3600 + (tz_minute as i32) * 60;
    let signed: i32 = if before_gmt {
        -secs
    } else {
        secs
    };
    if -86400 < signed && signed < 86400 {
        signed
    } else {
        0
    }
}

/// The sync key of a message: its Message-ID header in angle brackets, or,
/// for a message without one, its date in RFC 3339 form.
pub open spec fn message_id_of(header: Option<Seq<char>>, date_rfc3339: Seq<char>) -> Seq<char> {
    match header {
        Some(h) => "<"@ + h + ">"@,
        None => date_rfc3339,
    }
}

/// The sync key of a message, from its Message-ID header if it has one.
pub fn message_id(header: Option<&str>, date_rfc3339: &str) -> (r: String)
    ensures
        r@ == message_id_of(
            match header {
                Some(h) => Some(h@),
                None => None,
            },
            date_rfc3339@,
        ),
{
    match header {
        Some(h) => {
            let mut s = String::from_str("<");
            s.append(h);
            s.append(">");
            s
        },
        None => String::from_str(date_rfc3339),
    }
}

impl Envelope {
    /// The message that stands for this envelope in a sync cache: its
    /// Message-ID and Date headers and no body. `date` is the envelope's
    /// date in RFC 2822 form.
    pub fn to_sync_cache_msg(&self, date: &str) -> (r: String)
        ensures
            r@ == "Message-ID: "@ + self.message_id@ + "\nDate: "@ + date@ + "\n\n"@,
    {
        let mut s = String::from_str("Message-ID: ");
        s.append(self.message_id.as_str());
        s.append("\nDate: ");
        s.append(date);
        s.append("\n\n");
        s
    }
}

} // verus!
