//! The stash log: the ordered record of stashes, newest first.
//!
//! An entry's position is its index in the log, so it is stable only until
//! the log is changed. The head reference is not stored: it is, by definition,
//! the commit of the entry at position 0.

use crate::error::RenameError;
use vstd::prelude::*;

verus! {

/// One record of the stash log.
#[derive(Debug, PartialEq, Eq)]
pub struct StashEntry {
    /// Content hash of the commit that the entry points to.
    pub commit_id: Vec<u8>,
    /// The annotation shown for the stash.
    pub message: String,
}

/// What a [`StashEntry`] stands for.
pub struct EntryView {
    pub commit_id: Seq<u8>,
    pub message: Seq<char>,
}

impl View for StashEntry {
    type V = EntryView;

    open spec fn view(&self) -> EntryView {
        EntryView { commit_id: self.commit_id@, message: self.message@ }
    }
}

impl Clone for StashEntry {
    fn clone(&self) -> (copy: Self)
        ensures
            copy@ == self@,
    {
        StashEntry { commit_id: self.commit_id.clone(), message: self.message.clone() }
    }
}

/// The views of a run of entries, in the same order.
pub open spec fn entry_views(entries: Seq<StashEntry>) -> Seq<EntryView> {
    entries.map_values(|e: StashEntry| e@)
}

/// The commit that the head reference points to: that of the newest entry,
/// and nothing where the log is empty.
pub open spec fn head_of(log: Seq<EntryView>) -> Option<Seq<u8>> {
    if log.len() > 0 {
        Some(log[0].commit_id)
    } else {
        None
    }
}

/// Why `position` cannot be looked up in a log of `len` entries, if it cannot.
pub open spec fn position_fault(len: nat, position: usize) -> Option<RenameError> {
    if len == 0 {
        Some(RenameError::NoStashes)
    } else if position >= len {
        Some(RenameError::InvalidIndex { given: position, max: (len - 1) as usize })
    } else {
        None
    }
}

/// The stash log, newest entry first.
#[derive(Debug, PartialEq, Eq)]
pub struct StashLog {
    entries: Vec<StashEntry>,
}

impl View for StashLog {
    type V = Seq<EntryView>;

    closed spec fn view(&self) -> Seq<EntryView> {
        entry_views(self.entries@)
    }
}

impl StashLog {
    /// The log of a repository that never had a stash.
    pub fn new() -> (log: Self)
        ensures
            log@ == Seq::<EntryView>::empty(),
    {
        StashLog { entries: Vec::new() }
    }

    /// The log that holds `entries`, the first of them newest.
    pub fn from_entries(entries: Vec<StashEntry>) -> (log: Self)
        ensures
            log@ == entry_views(entries@),
    {
        StashLog { entries }
    }

    /// The entries, newest first.
    pub fn entries(&self) -> (entries: &Vec<StashEntry>)
        ensures
            entry_views(entries@) == self@,
    {
        &self.entries
    }

    /// The number of entries.
    pub fn len(&self) -> (n: usize)
        ensures
            n == self@.len(),
    {
        self.entries.len()
    }

    /// Whether the log holds no entry.
    pub fn is_empty(&self) -> (b: bool)
        ensures
            b == (self@.len() == 0),
    {
        self.entries.len() == 0
    }

    /// The entry at `position`. An empty log gives `NoStashes`, a position
    /// past the last entry gives `InvalidIndex` with that last position.
    pub fn get(&self, position: usize) -> (r: Result<&StashEntry, RenameError>)
        ensures
            match r {
                Ok(entry) => position_fault(self@.len(), position) is None && entry@
                    == self@[position as int],
                Err(e) => position_fault(self@.len(), position) == Some(e),
            },
    {
        let n = self.entries.len();
        if n == 0 {
            Err(RenameError::NoStashes)
        } else if position >= n {
            Err(RenameError::InvalidIndex { given: position, max: n - 1 })
        } else {
            Ok(&self.entries[position])
        }
    }

    /// The commit that the head reference points to.
    pub fn head(&self) -> (id: Option<&Vec<u8>>)
        ensures
            match id {
                Some(id) => head_of(self@) == Some(id@),
                None => head_of(self@) is None,
            },
    {
        if self.entries.len() > 0 {
            Some(&self.entries[0].commit_id)
        } else {
            None
        }
    }

    /// Deletes the entry at `position` and hands it back; later entries move
    /// one position toward 0. On an error the log is left as it was.
    pub fn remove(&mut self, position: usize) -> (r: Result<StashEntry, RenameError>)
        ensures
            match r {
                Ok(entry) => position_fault(old(self)@.len(), position) is None && entry@ == old(
                    self,
                )@[position as int] && final(self)@ == old(self)@.remove(position as int),
                Err(e) => position_fault(old(self)@.len(), position) == Some(e) && final(self)@
                    == old(self)@,
            },
    {
        let n = self.entries.len();
        if n == 0 {
            Err(RenameError::NoStashes)
        } else if position >= n {
            Err(RenameError::InvalidIndex { given: position, max: n - 1 })
        } else {
            let entry = self.entries.remove(position);
            Ok(entry)
        }
    }

    /// Moves the head reference to `commit_id` and records the move under
    /// `message`: the log gains that entry at position 0.
    pub fn update_head(&mut self, commit_id: Vec<u8>, message: String)
        ensures
            final(self)@ == seq![EntryView { commit_id: commit_id@, message: message@ }] + old(
                self,
            )@,
            head_of(final(self)@) == Some(commit_id@),
    {
        let entry = StashEntry { commit_id, message };
        self.entries.insert(0, entry);
    }
}

} // verus!
