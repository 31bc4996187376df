//! What can go wrong, and how it is told to the user.

use vstd::prelude::*;

verus! {

/// A failure of one of the library's operations.
#[derive(Clone, Debug, PartialEq, Eq)]
pub enum Failure {
    /// The path string `dir` could not be expanded.
    Expansion { dir: String, detail: String },
    /// No repository was found at `dir`.
    Discovery { dir: String, detail: String },
    /// The directory `dir` could not be read.
    Unreadable { dir: String, detail: String },
    /// A query on an opened repository failed.
    Query { detail: String },
    /// The reference that HEAD resolves to names no commit.
    UnresolvedHead,
    /// The name of the branch that HEAD points to could not be read.
    UnnamedBranch,
    /// The name of the upstream branch is not valid UTF-8.
    UndecodableUpstream,
    /// The path to add is not a directory.
    NotADirectory { dir: String },
    /// The path to delete is not in the configuration.
    NotInConfig { dir: String },
    /// The user did not confirm the action.
    NotConfirmed,
    /// The user could not be asked.
    Interaction { detail: String },
    /// A command could not be started.
    Subprocess { detail: String },
    /// The configuration could not be read or written.
    Persistence { detail: String },
}

/// An [`Failure`] with each string taken by its characters.
pub enum FailureView {
    Expansion { dir: Seq<char>, detail: Seq<char> },
    Discovery { dir: Seq<char>, detail: Seq<char> },
    Unreadable { dir: Seq<char>, detail: Seq<char> },
    Query { detail: Seq<char> },
    UnresolvedHead,
    UnnamedBranch,
    UndecodableUpstream,
    NotADirectory { dir: Seq<char> },
    NotInConfig { dir: Seq<char> },
    NotConfirmed,
    Interaction { detail: Seq<char> },
    Subprocess { detail: Seq<char> },
    Persistence { detail: Seq<char> },
}

impl View for Failure {
    type V = FailureView;

    open spec fn view(&self) -> FailureView {
        match *self {
            Failure::Expansion { dir, detail } => FailureView::Expansion { dir: dir@, detail: detail@ },
            Failure::Discovery { dir, detail } => FailureView::Discovery { dir: dir@, detail: detail@ },
            Failure::Unreadable { dir, detail } => FailureView::Unreadable { dir: dir@, detail: detail@ },
            Failure::Query { detail } => FailureView::Query { detail: detail@ },
            Failure::UnresolvedHead => FailureView::UnresolvedHead,
            Failure::UnnamedBranch => FailureView::UnnamedBranch,
            Failure::UndecodableUpstream => FailureView::UndecodableUpstream,
            Failure::NotADirectory { dir } => FailureView::NotADirectory { dir: dir@ },
            Failure::NotInConfig { dir } => FailureView::NotInConfig { dir: dir@ },
            Failure::NotConfirmed => FailureView::NotConfirmed,
            Failure::Interaction { detail } => FailureView::Interaction { detail: detail@ },
            Failure::Subprocess { detail } => FailureView::Subprocess { detail: detail@ },
            Failure::Persistence { detail } => FailureView::Persistence { detail: detail@ },
        }
    }
}

impl FailureView {
    /// The text that tells the user of the failure.
    pub open spec fn message(self) -> Seq<char> {
        match self {
            FailureView::Expansion { dir, detail } => dir + ": Could not expand dir: "@ + detail,
            FailureView::Discovery { dir, detail } => dir + ": Could not open repo: "@ + detail,
            FailureView::Unreadable { dir, detail } => dir + ": Could not read directory: "@
                + detail,
            FailureView::Query { detail } => detail,
            FailureView::UnresolvedHead => "Failed to resolve HEAD ref"@,
            FailureView::UnnamedBranch => "Failed to get HEAD branch name"@,
            FailureView::UndecodableUpstream => "Failed to decode remote branch name to UTF-8"@,
            FailureView::NotADirectory { dir } => dir + " is not a directory"@,
            FailureView::NotInConfig { dir } => dir + " not in config"@,
            FailureView::NotConfirmed => "Deletion not confirmed, bailing out."@,
            FailureView::Interaction { detail } => detail,
            FailureView::Subprocess { detail } => detail,
            FailureView::Persistence { detail } => detail,
        }
    }

    /// Whether a batch in best-effort mode passes over the failure and goes
    /// on with the next entry. The user's refusal and a configuration that
    /// cannot be kept are never passed over.
    pub open spec fn skippable(self) -> bool {
        match self {
            FailureView::Expansion { .. } => true,
            FailureView::Discovery { .. } => true,
            FailureView::Unreadable { .. } => true,
            FailureView::Query { .. } => true,
            FailureView::UnresolvedHead => true,
            FailureView::UnnamedBranch => true,
            FailureView::UndecodableUpstream => true,
            _ => false,
        }
    }
}

/// A result with its error taken by its view.
pub open spec fn outcome<T>(r: Result<T, Failure>) -> Result<T, FailureView> {
    match r {
        Ok(value) => Ok(value),
        Err(error) => Err(error@),
    }
}

/// A text, or a failure, with each string taken by its characters.
pub open spec fn told(r: Result<String, Failure>) -> Result<Seq<char>, FailureView> {
    match r {
        Ok(text) => Ok(text@),
        Err(failure) => Err(failure@),
    }
}

fn text_of(head: &str, sep: &str, tail: &str) -> (s: String)
    ensures
        s@ == head@ + sep@ + tail@,
{
    let mut s = String::from_str(head);
    s.append(sep);
    s.append(tail);
    s
}

impl Failure {
    /// The text that tells the user of the failure.
    pub fn message(&self) -> (text: String)
        ensures
            text@ == self@.message(),
    {
        match self {
            Failure::Expansion { dir, detail } => text_of(
                dir.as_str(),
                ": Could not expand dir: ",
                detail.as_str(),
            ),
            Failure::Discovery { dir, detail } => text_of(
                dir.as_str(),
                ": Could not open repo: ",
                detail.as_str(),
            ),
            Failure::Unreadable { dir, detail } => text_of(
                dir.as_str(),
                ": Could not read directory: ",
                detail.as_str(),
            ),
            Failure::Query { detail } => detail.clone(),
            Failure::UnresolvedHead => String::from_str("Failed to resolve HEAD ref"),
            Failure::UnnamedBranch => String::from_str("Failed to get HEAD branch name"),
            Failure::UndecodableUpstream => String::from_str(
                "Failed to decode remote branch name to UTF-8",
            ),
            Failure::NotADirectory { dir } => {
                let mut s = dir.clone();
                s.append(" is not a directory");
                s
            },
            Failure::NotInConfig { dir } => {
                let mut s = dir.clone();
                s.append(" not in config");
                s
            },
            Failure::NotConfirmed => String::from_str("Deletion not confirmed, bailing out."),
            Failure::Interaction { detail } => detail.clone(),
            Failure::Subprocess { detail } => detail.clone(),
            Failure::Persistence { detail } => detail.clone(),
        }
    }

    /// Whether a batch in best-effort mode passes over the failure.
    pub fn is_skippable(&self) -> (b: bool)
        ensures
            b == self@.skippable(),
    {
        match self {
            Failure::Expansion { .. } => true,
            Failure::Discovery { .. } => true,
            Failure::Unreadable { .. } => true,
            Failure::Query { .. } => true,
            Failure::UnresolvedHead => true,
            Failure::UnnamedBranch => true,
            Failure::UndecodableUpstream => true,
            _ => false,
        }
    }
}

} // verus!
