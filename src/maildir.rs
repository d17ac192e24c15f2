//! Maildir store settings.

use vstd::prelude::*;

verus! {

/// The configuration of a Maildir store, such as a sync cache.
#[derive(Clone, Debug, Default, PartialEq, Eq)]
pub struct MaildirConfig {
    /// The root directory of the Maildir: the one holding `cur`, `new`
    /// and `tmp`.
    pub root_dir: String,
}

} // verus!
