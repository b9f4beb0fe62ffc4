//! Renames an entry of a repository's stash log in place: the entry keeps its
//! position, its commit keeps tree, parents and authorship, and only the
//! message changes.
//!
//! [`stash_ref`] reads the stash reference given on a command line and
//! [`message`] trims and checks the new message. [`log`] is the stash log as
//! a value, [`plan`] the steps of a rename and what they do to a log, and
//! [`rename`] the rename of an entry of a log in memory. [`stash`] renames a
//! stash of a repository on disk, through the calls that [`git`] declares.

pub mod error;
pub mod git;
pub mod log;
pub mod message;
pub mod plan;
pub mod rename;
pub mod stash;
pub mod stash_ref;
pub mod text;

pub use error::RenameError;
pub use log::{StashEntry, StashLog};
pub use plan::Step;
pub use stash::rename_stash;
pub use stash_ref::parse_stash_ref;
