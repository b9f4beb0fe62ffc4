//! Renaming a stash of a repository on disk.
//!
//! The stash log of a repository is the log of the reference `refs/stash`.
//! It is read into memory, the rename is planned there, and the steps of the
//! plan are then taken on the repository, one call each.
//!
//! What the calls do to the repository is not proved here. Each rewrites
//! the log and the reference on disk by itself, so a failure part of the way
//! leaves the stash as the steps taken so far have made it. The log holds one
//! line for an entry: a line break inside a message is kept in the commit and
//! shown as a space in the log.

use crate::error::{fails_with, RenameError};
use crate::git::{
    amend_message, find_commit, is_not_found, is_raw_id, reflog_entries, reflog_entry,
    set_reference,
};
use crate::log::{entry_views, position_fault, EntryView, StashEntry, StashLog};
use crate::message::{checked_message, is_blank};
use crate::plan::{plan_rename, Step, StepView};
use vstd::prelude::*;

verus! {

/// The reference whose log is the stash log.
pub const STASH_REF: &'static str = "refs/stash";

/// The stash log that the entries of a reflog make up: each entry with its
/// id and its message, an absent or unreadable message taken as empty.
pub open spec fn log_of(entries: Seq<(Seq<u8>, Option<Seq<char>>)>) -> Seq<EntryView> {
    entries.map_values(
        |e: (Seq<u8>, Option<Seq<char>>)|
            EntryView {
                commit_id: e.0,
                message: match e.1 {
                    Some(m) => m,
                    None => Seq::empty(),
                },
            },
    )
}

/// The stash log held by `reflog`.
pub fn collect_entries(reflog: &git2::Reflog) -> (log: StashLog)
    ensures
        log@ == log_of(reflog_entries(*reflog)),
{
    let n = reflog.len();
    let mut entries: Vec<StashEntry> = Vec::new();
    let mut i: usize = 0;
    while i < n
        invariant
            n == reflog_entries(*reflog).len(),
            i <= n,
            entry_views(entries@) =~= log_of(reflog_entries(*reflog)).take(i as int),
        decreases n - i,
    {
        if let Some((commit_id, message)) = reflog_entry(reflog, i) {
            let message = match message {
                Some(m) => m,
                None => String::new(),
            };
            entries.push(StashEntry { commit_id, message });
        }
        proof {
            let all = log_of(reflog_entries(*reflog));
            assert(all.take(i + 1) =~= all.take(i as int).push(all[i as int]));
        }
        i += 1;
    }
    StashLog::from_entries(entries)
}

/// The stash log held by `reflog`, which must hold an entry: a reflog
/// without entries gives `NoStashes`.
pub fn open_log(reflog: &git2::Reflog) -> (r: Result<StashLog, RenameError>)
    ensures
        match r {
            Ok(log) => log@.len() > 0 && log@ == log_of(reflog_entries(*reflog)),
            Err(e) => e == RenameError::NoStashes && reflog_entries(*reflog).len() == 0,
        },
{
    let log = collect_entries(reflog);
    if log.is_empty() {
        Err(RenameError::NoStashes)
    } else {
        Ok(log)
    }
}

/// Reads the stash log of `repo`, which is never empty when it is handed
/// back. A repository without stashes gives `NoStashes`, a log that cannot
/// be read `IoError`.
pub fn read_stash_log(repo: &git2::Repository) -> (r: Result<StashLog, RenameError>)
    ensures
        match r {
            Ok(log) => log@.len() > 0,
            Err(e) => e == RenameError::NoStashes || e == RenameError::IoError,
        },
{
    match repo.reflog(STASH_REF) {
        Ok(reflog) => open_log(&reflog),
        Err(e) => if is_not_found(&e) {
            Err(RenameError::NoStashes)
        } else {
            Err(RenameError::IoError)
        },
    }
}

/// Stores a commit like the one that `commit_id` names, but with `message`,
/// and hands back its id, which is a raw object id. Bytes that are no raw
/// id name no commit and are refused. A commit that cannot be found gives
/// `ObjectNotFound`, any other failure `IoError`.
pub fn replace_message(repo: &git2::Repository, commit_id: &Vec<u8>, message: &str) -> (r: Result<
    Vec<u8>,
    RenameError,
>)
    ensures
        !is_raw_id(commit_id@) ==> r is Err,
        r matches Ok(new_id) ==> is_raw_id(new_id@),
        r matches Err(e) ==> e == RenameError::ObjectNotFound || e == RenameError::IoError,
{
    match find_commit(repo, commit_id) {
        Ok(commit) => match amend_message(&commit, message) {
            Ok(new_id) => Ok(new_id),
            Err(_) => Err(RenameError::IoError),
        },
        Err(e) => if is_not_found(&e) {
            Err(RenameError::ObjectNotFound)
        } else {
            Err(RenameError::IoError)
        },
    }
}

/// Takes `steps` on the stash of `repo`, in order, and stops at the first
/// that fails. With no step to take the repository is not touched. A step
/// that moves the head to bytes that are no raw object id fails, so the
/// steps are all taken only if each of them can be handed on; where the
/// first of them cannot, the repository is not touched either.
pub fn run_steps(repo: &mut git2::Repository, steps: &Vec<Step>) -> (r: Result<(), RenameError>)
    ensures
        r matches Err(e) ==> e == RenameError::IoError,
        steps@.len() == 0 ==> r is Ok && *final(repo) == *old(repo),
        r is Ok ==> forall|k: int| 0 <= k < steps@.len() ==> names_raw_id(steps@[k]@),
        steps@.len() > 0 && !names_raw_id(steps@[0]@) ==> r is Err && *final(repo) == *old(repo),
{
    let n = steps.len();
    let mut i: usize = 0;
    while i < n
        invariant
            n == steps@.len(),
            i <= n,
            i == 0 ==> *repo == *old(repo),
            forall|k: int| 0 <= k < i ==> names_raw_id(steps@[k]@),
        decreases n - i,
    {
        let done = match &steps[i] {
            Step::Remove { position } => repo.stash_drop(*position),
            Step::UpdateHead { commit_id, message } => set_reference(
                repo,
                STASH_REF,
                commit_id,
                true,
                message.as_str(),
            ),
        };
        if done.is_err() {
            return Err(RenameError::IoError);
        }
        i += 1;
    }
    Ok(())
}

/// Whether `step` can be handed on to the repository: one that moves the
/// head must name a raw object id.
pub open spec fn names_raw_id(step: StepView) -> bool {
    step matches StepView::UpdateHead { commit_id, .. } ==> is_raw_id(commit_id)
}

/// Renames the entry at `position` of the stash of `repo` to `message`,
/// where `log` is the stash log as it was read from `repo`.
///
/// A position that `log` does not have is refused before the repository is
/// touched: an empty log gives `NoStashes`, a position past the last entry
/// `InvalidIndex`. So is a commit that cannot be found. Otherwise the
/// commit with the new message is stored first and the steps of the rename
/// are taken after it; a failure there gives `IoError`.
pub fn rename_entry(
    repo: &mut git2::Repository,
    log: &StashLog,
    position: usize,
    message: String,
) -> (r: Result<(), RenameError>)
    ensures
        match position_fault(log@.len(), position) {
            Some(e) => fails_with(r, e),
            None => r is Ok || fails_with(r, RenameError::ObjectNotFound) || fails_with(
                r,
                RenameError::IoError,
            ),
        },
        r matches Err(e) && e != RenameError::IoError ==> *final(repo) == *old(repo),
{
    let commit_id = match log.get(position) {
        Ok(entry) => entry.commit_id.clone(),
        Err(e) => {
            return Err(e);
        },
    };
    let new_id = match replace_message(repo, &commit_id, message.as_str()) {
        Ok(new_id) => new_id,
        Err(e) => {
            return Err(e);
        },
    };
    match plan_rename(log, position, new_id, message) {
        Ok(steps) => run_steps(repo, &steps),
        Err(e) => Err(e),
    }
}

/// Renames the stash at `stash_index` of `repo` to `new_message`, trimmed.
///
/// The message is looked at first: one that is blank gives `EmptyMessage`,
/// and no other input does. Then the log is read and the position checked
/// against it. Unless the outcome is `Ok` or `IoError`, the repository has
/// not been touched.
pub fn rename_stash(repo: &mut git2::Repository, stash_index: usize, new_message: &str) -> (r:
    Result<(), RenameError>)
    ensures
        is_blank(new_message@) <==> fails_with(r, RenameError::EmptyMessage),
        r matches Err(RenameError::InvalidIndex { given, max }) ==> given == stash_index && max
            < given,
        r matches Err(e) && e != RenameError::IoError ==> *final(repo) == *old(repo),
{
    let message = match checked_message(new_message) {
        Ok(message) => message,
        Err(e) => {
            return Err(e);
        },
    };
    let log = match read_stash_log(repo) {
        Ok(log) => log,
        Err(e) => {
            return Err(e);
        },
    };
    rename_entry(repo, &log, stash_index, message)
}

} // verus!
