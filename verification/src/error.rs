//! The failures that the tracking operations report.

use vstd::prelude::*;
use vstd::string::StringExecFns;

verus! {

/// What went wrong in an operation of this library.
#[derive(Debug, PartialEq, Eq)]
pub enum Error {
    /// The text given for a repository holds no `/` between owner and name.
    InvalidRepositoryFormat,
    /// A repository was to be removed, but none is tracked under the given key.
    RepoNotFound { name: String },
    /// A look at a repository was to be recorded, but none is tracked under the given key.
    ViewedRepoNotFound { name: String },
    /// Commits since a time were asked for, but no time was recorded yet.
    MissingLastViewedTime,
    /// Commits since a commit were asked for, but no commit was recorded yet.
    MissingLastViewedSha,
    /// Neither source of the provider's credential holds a value.
    MissingCredential,
    /// The provider sent a commit without the date it was committed at.
    MissingCommitDate,
}

/// The mathematical value of an [`Error`]: the same variants over sequences of characters.
pub enum ErrorView {
    InvalidRepositoryFormat,
    RepoNotFound { name: Seq<char> },
    ViewedRepoNotFound { name: Seq<char> },
    MissingLastViewedTime,
    MissingLastViewedSha,
    MissingCredential,
    MissingCommitDate,
}

impl View for Error {
    type V = ErrorView;

    open spec fn view(&self) -> ErrorView {
        match self {
            Error::InvalidRepositoryFormat => ErrorView::InvalidRepositoryFormat,
            Error::RepoNotFound { name } => ErrorView::RepoNotFound { name: name@ },
            Error::ViewedRepoNotFound { name } => ErrorView::ViewedRepoNotFound { name: name@ },
            Error::MissingLastViewedTime => ErrorView::MissingLastViewedTime,
            Error::MissingLastViewedSha => ErrorView::MissingLastViewedSha,
            Error::MissingCredential => ErrorView::MissingCredential,
            Error::MissingCommitDate => ErrorView::MissingCommitDate,
        }
    }
}

/// The text that describes an error to the user.
pub open spec fn message_of(e: ErrorView) -> Seq<char> {
    match e {
        ErrorView::InvalidRepositoryFormat => "Invalid repository format"@,
        ErrorView::RepoNotFound { name } => "Repo "@ + name + " not found"@,
        ErrorView::ViewedRepoNotFound { name } => "Repository "@ + name + " not found"@,
        ErrorView::MissingLastViewedTime => "Tried to get new commits without last_viewed_time"@,
        ErrorView::MissingLastViewedSha => "Tried to get new commits without last_viewed_sha"@,
        ErrorView::MissingCredential =>
            "Neither GH_TOKEN nor GITHUB_TOKEN environment variables found"@,
        ErrorView::MissingCommitDate => "Commit without a committer date"@,
    }
}

impl Error {
    /// The text that describes this error to the user.
    pub fn message(&self) -> (text: String)
        ensures
            text@ == message_of(self@),
    {
        match self {
            Error::InvalidRepositoryFormat => String::from_str("Invalid repository format"),
            Error::RepoNotFound { name } => {
                let mut text = String::from_str("Repo ");
                text.append(name.as_str());
                text.append(" not found");
                text
            },
            Error::ViewedRepoNotFound { name } => {
                let mut text = String::from_str("Repository ");
                text.append(name.as_str());
                text.append(" not found");
                text
            },
            Error::MissingLastViewedTime => String::from_str(
                "Tried to get new commits without last_viewed_time",
            ),
            Error::MissingLastViewedSha => String::from_str(
                "Tried to get new commits without last_viewed_sha",
            ),
            Error::MissingCredential => String::from_str(
                "Neither GH_TOKEN nor GITHUB_TOKEN environment variables found",
            ),
            Error::MissingCommitDate => String::from_str("Commit without a committer date"),
        }
    }
}

} // verus!
