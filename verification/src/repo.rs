//! The queries that are put to a repository on disk. Each function here
//! hands one question to the `git2` crate and brings the answer back as it
//! came. What a repository answers depends on what is on disk at that
//! moment, so nothing is claimed of any answer.

use crate::git::RepoState;
use vstd::prelude::*;

verus! {

#[verifier::external_type_specification]
#[verifier::external_body]
pub struct ExRepository(git2::Repository);

#[verifier::external_type_specification]
#[verifier::external_body]
pub struct ExReference<'repo>(git2::Reference<'repo>);

#[verifier::external_type_specification]
#[verifier::external_body]
pub struct ExOid(git2::Oid);

#[verifier::external_type_specification]
#[verifier::external_body]
pub struct ExBuf(git2::Buf);

#[verifier::external_type_specification]
#[verifier::external_body]
pub struct ExGitError(git2::Error);

/// `git2::Repository::discover`: opens the repository that `path` lies in,
/// looking upward from it. Nothing is claimed of the outcome.
#[verifier::external_body]
pub(crate) fn discover(path: &str) -> (r: Result<git2::Repository, git2::Error>) {
    git2::Repository::discover(path)
}

/// `git2::Repository::state`: the operation that is in progress in the
/// repository, variant for variant. Nothing is claimed of which it is.
#[verifier::external_body]
pub(crate) fn repo_state(repo: &git2::Repository) -> (state: RepoState) {
    match repo.state() {
        git2::RepositoryState::Clean => RepoState::Clean,
        git2::RepositoryState::Merge => RepoState::Merge,
        git2::RepositoryState::Revert => RepoState::Revert,
        git2::RepositoryState::RevertSequence => RepoState::RevertSequence,
        git2::RepositoryState::CherryPick => RepoState::CherryPick,
        git2::RepositoryState::CherryPickSequence => RepoState::CherryPickSequence,
        git2::RepositoryState::Bisect => RepoState::Bisect,
        git2::RepositoryState::Rebase => RepoState::Rebase,
        git2::RepositoryState::RebaseInteractive => RepoState::RebaseInteractive,
        git2::RepositoryState::RebaseMerge => RepoState::RebaseMerge,
        git2::RepositoryState::ApplyMailbox => RepoState::ApplyMailbox,
        git2::RepositoryState::ApplyMailboxOrRebase => RepoState::ApplyMailboxOrRebase,
    }
}

/// `git2::Repository::statuses`: the status bits of each entry that the
/// working tree's status lists, ignored files among them only if
/// `include_ignored`. Nothing is claimed of the outcome.
#[verifier::external_body]
pub(crate) fn status_entries(repo: &git2::Repository, include_ignored: bool) -> (r: Result<
    Vec<u32>,
    git2::Error,
>) {
    let mut options = git2::StatusOptions::new();
    options.include_ignored(include_ignored);
    let statuses = repo.statuses(Some(&mut options))?;
    Ok(statuses.iter().map(|entry| entry.status().bits()).collect())
}

/// `git2::Repository::head`: the reference that HEAD points at. Nothing is
/// claimed of the outcome.
#[verifier::external_body]
pub(crate) fn head<'repo>(repo: &'repo git2::Repository) -> (r: Result<
    git2::Reference<'repo>,
    git2::Error,
>) {
    repo.head()
}

/// `git2::Reference::resolve`: the direct reference that `reference` leads
/// to. Nothing is claimed of the outcome.
#[verifier::external_body]
pub(crate) fn resolve<'repo>(reference: &git2::Reference<'repo>) -> (r: Result<
    git2::Reference<'repo>,
    git2::Error,
>) {
    reference.resolve()
}

/// `git2::Reference::is_branch`: whether the reference is a local branch.
/// Nothing is claimed of the answer.
#[verifier::external_body]
pub(crate) fn is_branch(reference: &git2::Reference<'_>) -> (b: bool) {
    reference.is_branch()
}

/// `git2::Reference::target`: the commit that a direct reference names.
/// Nothing is claimed of the answer.
#[verifier::external_body]
pub(crate) fn target(reference: &git2::Reference<'_>) -> (oid: Option<git2::Oid>) {
    reference.target()
}

/// `git2::Reference::name`: the full name of the reference, where it is
/// valid UTF-8. Nothing is claimed of the outcome.
#[verifier::external_body]
pub(crate) fn reference_name(reference: &git2::Reference<'_>) -> (r: Result<String, git2::Error>) {
    reference.name().map(|name| name.to_owned())
}

/// `git2::Repository::branch_upstream_name`: the name of the reference that
/// the local branch `refname` tracks. Nothing is claimed of the outcome.
#[verifier::external_body]
pub(crate) fn branch_upstream_name(repo: &git2::Repository, refname: &str) -> (r: Result<
    git2::Buf,
    git2::Error,
>) {
    repo.branch_upstream_name(refname)
}

/// `git2::Buf::as_str`: what the buffer holds, where it is valid UTF-8.
/// Nothing is claimed of the outcome.
#[verifier::external_body]
pub(crate) fn buf_text(buf: &git2::Buf) -> (r: Result<String, git2::Error>) {
    buf.as_str().map(|text| text.to_owned())
}

/// `git2::Repository::refname_to_id`: the commit that the reference called
/// `name` resolves to. Nothing is claimed of the outcome.
#[verifier::external_body]
pub(crate) fn refname_to_id(repo: &git2::Repository, name: &str) -> (r: Result<
    git2::Oid,
    git2::Error,
>) {
    repo.refname_to_id(name)
}

/// `git2::Repository::graph_ahead_behind`: how many commits `local` has
/// that `upstream` lacks, and how many it lacks that `upstream` has.
/// Nothing is claimed of the outcome.
#[verifier::external_body]
pub(crate) fn graph_ahead_behind(repo: &git2::Repository, local: git2::Oid, upstream: git2::Oid) -> (r:
    Result<(usize, usize), git2::Error>) {
    repo.graph_ahead_behind(local, upstream)
}

/// `git2::Error`'s `Display`: the text of the error. Nothing is claimed of it.
#[verifier::external_body]
pub(crate) fn error_text(error: &git2::Error) -> (text: String) {
    error.to_string()
}

/// `git2::Repository::path`: the repository's metadata directory, as text.
/// Nothing is claimed of it.
#[verifier::external_body]
pub(crate) fn metadata_dir(repo: &git2::Repository) -> (path: String) {
    repo.path().display().to_string()
}

/// `git2::Repository::workdir`: the repository's working directory, as
/// text; none for a bare repository. Nothing is claimed of it.
#[verifier::external_body]
pub(crate) fn workdir(repo: &git2::Repository) -> (path: Option<String>) {
    repo.workdir().map(|dir| dir.display().to_string())
}

} // verus!
