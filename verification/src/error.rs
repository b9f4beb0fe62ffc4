//! The ways in which renaming a stash can fail.

use vstd::prelude::*;

verus! {

/// Why a rename was refused or could not be completed.
#[derive(Clone, Copy, Debug, PartialEq, Eq, Structural)]
pub enum RenameError {
    /// The stash log is absent or holds no entry.
    NoStashes,
    /// `given` is not a position of the log, whose last position is `max`.
    InvalidIndex { given: usize, max: usize },
    /// The commit that the chosen entry points to is missing from the object store.
    ObjectNotFound,
    /// The new message is empty once surrounding whitespace is trimmed.
    EmptyMessage,
    /// The repository could not be read or written.
    IoError,
}

/// Whether `r` is the failure `e`.
pub open spec fn fails_with<T>(r: Result<T, RenameError>, e: RenameError) -> bool {
    r matches Err(found) && found == e
}

} // verus!
