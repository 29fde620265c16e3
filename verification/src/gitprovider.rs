//! What is asked of the hosting service, and how its answers are read.

use vstd::prelude::*;

use crate::error::{Error, ErrorView};
use crate::repos::{CommitInfo, CommitInfoView, Timestamp};

verus! {

/// How many commits one request asks for. A request is never followed by a second one for
/// the commits beyond these.
pub const COMMITS_PER_PAGE: u8 = 30;

/// One request for the commits of a repository, newest first.
#[derive(Debug, PartialEq, Eq)]
pub enum FetchRequest {
    /// The most recent commits.
    Recent { owner: String, name: String, per_page: u8 },
    /// The most recent commits among those made after `since`.
    Since { owner: String, name: String, since: Timestamp, per_page: u8 },
}

/// The mathematical value of a [`FetchRequest`].
pub enum FetchRequestView {
    Recent { owner: Seq<char>, name: Seq<char>, per_page: u8 },
    Since { owner: Seq<char>, name: Seq<char>, since: Timestamp, per_page: u8 },
}

impl View for FetchRequest {
    type V = FetchRequestView;

    open spec fn view(&self) -> FetchRequestView {
        match self {
            FetchRequest::Recent { owner, name, per_page } => FetchRequestView::Recent {
                owner: owner@,
                name: name@,
                per_page: *per_page,
            },
            FetchRequest::Since { owner, name, since, per_page } => FetchRequestView::Since {
                owner: owner@,
                name: name@,
                since: *since,
                per_page: *per_page,
            },
        }
    }
}

/// Who wrote or committed a commit, as the provider reports it.
#[derive(Debug, PartialEq, Eq)]
pub struct RawSignature {
    pub name: String,
    /// When they did so; the provider may leave it out.
    pub date: Option<Timestamp>,
}

/// The mathematical value of a [`RawSignature`].
pub struct RawSignatureView {
    pub name: Seq<char>,
    pub date: Option<Timestamp>,
}

impl View for RawSignature {
    type V = RawSignatureView;

    open spec fn view(&self) -> RawSignatureView {
        RawSignatureView { name: self.name@, date: self.date }
    }
}

/// One commit of a page, as the provider reports it.
#[derive(Debug, PartialEq, Eq)]
pub struct RawCommit {
    pub author: Option<RawSignature>,
    pub committer: Option<RawSignature>,
    pub message: String,
    pub sha: String,
    pub url: String,
}

/// The mathematical value of a [`RawCommit`].
pub struct RawCommitView {
    pub author: Option<RawSignatureView>,
    pub committer: Option<RawSignatureView>,
    pub message: Seq<char>,
    pub sha: Seq<char>,
    pub url: Seq<char>,
}

/// The mathematical value of a signature that may be absent.
pub open spec fn signature_view(who: Option<RawSignature>) -> Option<RawSignatureView> {
    match who {
        Some(signature) => Some(signature@),
        None => None,
    }
}

impl View for RawCommit {
    type V = RawCommitView;

    open spec fn view(&self) -> RawCommitView {
        RawCommitView {
            author: signature_view(self.author),
            committer: signature_view(self.committer),
            message: self.message@,
            sha: self.sha@,
            url: self.url@,
        }
    }
}

/// The name in a signature; the empty text where the signature is absent.
pub open spec fn name_of(who: Option<RawSignatureView>) -> Seq<char> {
    match who {
        Some(signature) => signature.name,
        None => Seq::empty(),
    }
}

/// When a commit was committed, where the provider says so.
pub open spec fn committed_at(raw: RawCommitView) -> Option<Timestamp> {
    match raw.committer {
        Some(committer) => committer.date,
        None => None,
    }
}

/// The commit that `raw` reports, committed at `at`.
pub open spec fn commit_of(raw: RawCommitView, at: Timestamp) -> CommitInfoView {
    CommitInfoView {
        author: name_of(raw.author),
        committer: name_of(raw.committer),
        commit_time: at,
        message: raw.message,
        sha: raw.sha,
        url: raw.url,
    }
}

/// Every commit of `page` says when it was committed.
pub open spec fn all_dated(page: Seq<RawCommit>) -> bool {
    forall|i: int| 0 <= i < page.len() ==> committed_at((#[trigger] page[i])@) is Some
}

/// The name in a signature; the empty text where the signature is absent.
fn signature_name(who: Option<RawSignature>) -> (name: String)
    ensures
        name@ == name_of(signature_view(who)),
{
    match who {
        Some(signature) => signature.name,
        None => String::new(),
    }
}

/// Reads one commit of a page. A commit that does not say when it was committed is not
/// given a time of the library's choosing: it is an error.
pub fn read_commit(raw: RawCommit) -> (result: Result<CommitInfo, Error>)
    ensures
        match committed_at(raw@) {
            Some(at) => result matches Ok(commit) && commit@ == commit_of(raw@, at),
            None => result matches Err(e) && e@ == ErrorView::MissingCommitDate,
        },
{
    let RawCommit { author, committer, message, sha, url } = raw;
    let commit_time = match &committer {
        Some(signature) => signature.date,
        None => None,
    };
    match commit_time {
        Some(at) => Ok(
            CommitInfo {
                author: signature_name(author),
                committer: signature_name(committer),
                commit_time: at,
                message,
                sha,
                url,
            },
        ),
        None => Err(Error::MissingCommitDate),
    }
}

/// Reads a page of commits, in its order. One commit that does not say when it was
/// committed fails the whole page.
pub fn read_page(page: Vec<RawCommit>) -> (result: Result<Vec<CommitInfo>, Error>)
    ensures
        result is Ok <==> all_dated(page@),
        result matches Ok(commits) ==> {
            &&& commits@.len() == page@.len()
            &&& forall|i: int|
                0 <= i < commits@.len() ==> (#[trigger] commits@[i])@ == commit_of(
                    page@[i]@,
                    committed_at(page@[i]@)->0,
                )
        },
        result matches Err(e) ==> e@ == ErrorView::MissingCommitDate,
{
    let ghost all = page@;
    let mut commits: Vec<CommitInfo> = Vec::new();
    for raw in it: page
        invariant
            it.seq() == all,
            commits@.len() == it.index(),
            forall|i: int| 0 <= i < it.index() ==> committed_at((#[trigger] all[i])@) is Some,
            forall|i: int|
                0 <= i < commits@.len() ==> (#[trigger] commits@[i])@ == commit_of(
                    all[i]@,
                    committed_at(all[i]@)->0,
                ),
    {
        match read_commit(raw) {
            Ok(commit) => {
                commits.push(commit);
            },
            Err(e) => {
                return Err(e);
            },
        }
    }
    Ok(commits)
}

/// The credential to show the provider: the first of the two values that is there.
pub fn credential(first: Option<String>, second: Option<String>) -> (result: Result<
    String,
    Error,
>)
    ensures
        match (first, second) {
            (Some(token), _) => result == Ok::<String, Error>(token),
            (None, Some(token)) => result == Ok::<String, Error>(token),
            (None, None) => result matches Err(e) && e@ == ErrorView::MissingCredential,
        },
{
    match first {
        Some(token) => Ok(token),
        None => match second {
            Some(token) => Ok(token),
            None => Err(Error::MissingCredential),
        },
    }
}

} // verus!
