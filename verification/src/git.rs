//! The calls into `git2`. Nothing in this module is proved: each item states
//! what is taken on trust from the library.

use vstd::prelude::*;

verus! {

/// `git2::Repository`, an open repository. Opaque to the verifier.
#[verifier::external_type_specification]
#[verifier::external_body]
pub struct ExRepository(git2::Repository);

/// `git2::Reflog`, the log of one reference read into memory. Opaque to the
/// verifier; what it holds is named by [`reflog_entries`].
#[verifier::external_type_specification]
#[verifier::external_body]
pub struct ExReflog(git2::Reflog);

/// `git2::Commit`, a commit object looked up in a repository. Opaque to the
/// verifier.
#[verifier::external_type_specification]
#[verifier::external_body]
pub struct ExCommit<'repo>(git2::Commit<'repo>);

/// `git2::Error`. Opaque to the verifier.
#[verifier::external_type_specification]
#[verifier::external_body]
pub struct ExGitError(git2::Error);

/// The entries of a reflog held in memory, newest first: for each the id that
/// the reference was moved to, as raw bytes, and the message, where it is
/// present and valid UTF-8.
pub uninterp spec fn reflog_entries(log: git2::Reflog) -> Seq<(Seq<u8>, Option<Seq<char>>)>;

/// `git2::Repository::reflog`: reads the log of the reference `name`. Nothing
/// is claimed of the outcome.
pub assume_specification[ git2::Repository::reflog ](
    repo: &git2::Repository,
    name: &str,
) -> (r: Result<git2::Reflog, git2::Error>)
;

/// `git2::Reflog::len`: the number of entries held.
pub assume_specification[ git2::Reflog::len ](log: &git2::Reflog) -> (n: usize)
    ensures
        n == reflog_entries(*log).len(),
;

/// The text of an optional message.
pub open spec fn message_text(message: Option<String>) -> Option<Seq<char>> {
    match message {
        Some(m) => Some(m@),
        None => None,
    }
}

/// `git2::Reflog::get`, with `ReflogEntry::id_new` and `ReflogEntry::message`
/// on the entry found: the entry at index `i`, counted from the newest, or
/// `None` where `i` is not below the length.
#[verifier::external_body]
pub(crate) fn reflog_entry(log: &git2::Reflog, i: usize) -> (r: Option<(Vec<u8>, Option<String>)>)
    ensures
        match r {
            Some((id, message)) => i < reflog_entries(*log).len() && (id@, message_text(message))
                == reflog_entries(*log)[i as int],
            None => i >= reflog_entries(*log).len(),
        },
{
    match log.get(i) {
        Some(entry) => Some((entry.id_new().as_bytes().to_vec(), entry.message().map(String::from))),
        None => None,
    }
}

/// Whether `bytes` has the length of a raw object id, the only length that
/// `git2::Oid::from_bytes` accepts and that `git2::Oid::as_bytes` hands out.
pub open spec fn is_raw_id(bytes: Seq<u8>) -> bool {
    bytes.len() == 20
}

/// `git2::Repository::find_commit`, on the id made of `id` by
/// `git2::Oid::from_bytes`, which refuses bytes of any other length than
/// that of a raw id. Nothing else is claimed of the outcome.
#[verifier::external_body]
pub(crate) fn find_commit<'repo>(repo: &'repo git2::Repository, id: &Vec<u8>) -> (r: Result<
    git2::Commit<'repo>,
    git2::Error,
>)
    ensures
        !is_raw_id(id@) ==> r is Err,
{
    repo.find_commit(git2::Oid::from_bytes(id)?)
}

/// `git2::Commit::amend` with a new message and every other field left as it
/// is; hands back the new commit's id in the bytes that `git2::Oid::as_bytes`
/// gives, which have the length of a raw id. Nothing else is claimed of the
/// outcome.
#[verifier::external_body]
pub(crate) fn amend_message(commit: &git2::Commit<'_>, message: &str) -> (r: Result<
    Vec<u8>,
    git2::Error,
>)
    ensures
        r matches Ok(id) ==> is_raw_id(id@),
{
    match commit.amend(None, None, None, None, Some(message), None) {
        Ok(id) => Ok(id.as_bytes().to_vec()),
        Err(e) => Err(e),
    }
}

/// `git2::Repository::stash_drop`: removes the stash at `index`. Nothing is
/// claimed of the outcome.
pub assume_specification[ git2::Repository::stash_drop ](
    repo: &mut git2::Repository,
    index: usize,
) -> (r: Result<(), git2::Error>)
;

/// `git2::Repository::reference`, on the id made of `id` by
/// `git2::Oid::from_bytes`: points the reference `name` at that id and records
/// `log_message` in its log. `from_bytes` refuses bytes of any other length
/// than that of a raw id, and the repository is then not reached. Nothing
/// else is claimed of the outcome.
#[verifier::external_body]
pub(crate) fn set_reference(
    repo: &mut git2::Repository,
    name: &str,
    id: &Vec<u8>,
    force: bool,
    log_message: &str,
) -> (r: Result<(), git2::Error>)
    ensures
        !is_raw_id(id@) ==> r is Err && *final(repo) == *old(repo),
{
    match repo.reference(name, git2::Oid::from_bytes(id)?, force, log_message) {
        Ok(_) => Ok(()),
        Err(e) => Err(e),
    }
}

/// `git2::Error::code`, compared with `git2::ErrorCode::NotFound`.
#[verifier::external_body]
pub(crate) fn is_not_found(e: &git2::Error) -> (b: bool) {
    e.code() == git2::ErrorCode::NotFound
}

} // verus!
