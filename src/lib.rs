//! Bidirectional email synchronization engine.
//!
//! Two mail stores are reconciled through a locally persisted baseline
//! (the cache): the four observed views of a folder are diffed per
//! message into a patch of hunks, which an executor applies with bounded
//! concurrency while isolating failures to the message they concern.

pub mod backend;
pub mod envelope;
pub mod flag;
pub mod folder;
pub mod hunk;
pub mod laws;
pub mod maildir;
pub mod patch;
pub mod report;
pub mod sync;
pub mod text;
pub mod view;
pub mod wkd;
pub mod worker;
