//! Repositories, the marks that record how far each one was viewed, and commits.

use vstd::prelude::*;
use vstd::string::StrSliceExecFns;
use vstd::string::StringExecFns;

use crate::error::{Error, ErrorView};
use crate::gitprovider::{FetchRequest, FetchRequestView, COMMITS_PER_PAGE};

verus! {

/// The hosting service that a repository lives on.
#[derive(Debug, Clone, Copy, PartialEq, Eq, Structural)]
pub enum GitProvider {
    GitHub,
    GitLab,
    Codeberg,
}

/// The identity of a repository: who owns it, its name, and where it is hosted.
#[derive(Debug, PartialEq, Eq)]
pub struct Repo {
    pub owner: String,
    pub name: String,
    pub provider: Option<GitProvider>,
}

/// The mathematical value of a [`Repo`].
pub struct RepoView {
    pub owner: Seq<char>,
    pub name: Seq<char>,
    pub provider: Option<GitProvider>,
}

impl View for Repo {
    type V = RepoView;

    open spec fn view(&self) -> RepoView {
        RepoView { owner: self.owner@, name: self.name@, provider: self.provider }
    }
}

impl Clone for Repo {
    fn clone(&self) -> (copy: Self)
        ensures
            copy == *self,
    {
        Repo { owner: self.owner.clone(), name: self.name.clone(), provider: self.provider }
    }
}

/// The character that parts the owner from the name.
pub open spec fn separator() -> char {
    '/'
}

/// `text` is `owner`, one separator and `name`, and that separator is the first in `text`.
pub open spec fn splits_into(text: Seq<char>, owner: Seq<char>, name: Seq<char>) -> bool {
    &&& text == owner + seq![separator()] + name
    &&& !owner.contains(separator())
}

/// Where the first separator of `text` stands; the length of `text` where it holds none.
pub open spec fn first_separator(text: Seq<char>) -> int {
    match text.index_of_first(separator()) {
        Some(at) => at,
        None => text.len() as int,
    }
}

/// The identity that `text` names: the text before its first separator is the owner, all
/// that follows it the name. Meaningful where `text` holds a separator.
pub open spec fn parsed_repo(text: Seq<char>) -> RepoView {
    let at = first_separator(text);
    RepoView {
        owner: text.subrange(0, at),
        name: text.subrange(at + 1, text.len() as int),
        provider: Some(GitProvider::GitHub),
    }
}

/// Whatever splits `text` at its first separator is what [`parsed_repo`] names.
pub proof fn lemma_split_is_unique(text: Seq<char>, owner: Seq<char>, name: Seq<char>)
    requires
        splits_into(text, owner, name),
    ensures
        text.contains(separator()),
        parsed_repo(text).owner == owner,
        parsed_repo(text).name == name,
{
    let n = owner.len() as int;
    assert(text[n] == separator());
    text.index_of_first_ensures(separator());
    let at = first_separator(text);
    if at < n {
        assert(owner[at] == text[at]);
        assert(owner.contains(separator()));
    }
    assert(at == n);
    assert(text.subrange(0, at) =~= owner);
    assert(text.subrange(at + 1, text.len() as int) =~= name);
}

/// A text with a separator splits into the owner and the name that [`parsed_repo`] names.
pub proof fn lemma_parsed_repo_splits(text: Seq<char>)
    requires
        text.contains(separator()),
    ensures
        splits_into(text, parsed_repo(text).owner, parsed_repo(text).name),
{
    text.index_of_first_ensures(separator());
    let at = first_separator(text);
    let owner = parsed_repo(text).owner;
    let name = parsed_repo(text).name;
    assert(text =~= owner + seq![separator()] + name);
    if owner.contains(separator()) {
        let j = choose|j: int| 0 <= j < owner.len() && owner[j] == separator();
        assert(text[j] == separator());
    }
}

impl Repo {
    /// Reads a repository's identity from `owner/name`. The text is split at its first
    /// separator, so the name may hold further ones. The provider is always GitHub.
    pub fn new(repostring: &str) -> (result: Result<Repo, Error>)
        ensures
            result is Ok <==> repostring@.contains(separator()),
            result matches Ok(repo) ==> repo@ == parsed_repo(repostring@) && splits_into(
                repostring@,
                repo.owner@,
                repo.name@,
            ),
            result matches Err(e) ==> e@ == ErrorView::InvalidRepositoryFormat,
    {
        let total = repostring.unicode_len();
        let mut found: Option<usize> = None;
        let mut seen: usize = 0;
        for c in it: repostring.chars()
            invariant
                total == repostring@.len(),
                it.seq() == repostring@,
                seen == it.index(),
                match found {
                    None => forall|j: int| 0 <= j < seen ==> repostring@[j] != separator(),
                    Some(at) => {
                        &&& at < seen
                        &&& repostring@[at as int] == separator()
                        &&& forall|j: int| 0 <= j < at ==> repostring@[j] != separator()
                    },
                },
        {
            if found.is_none() && c == '/' {
                found = Some(seen);
            }
            seen = seen + 1;
        }
        match found {
            None => Err(Error::InvalidRepositoryFormat),
            Some(at) => {
                let owner = repostring.substring_char(0, at);
                let name = repostring.substring_char(at + 1, total);
                let repo = Repo {
                    owner: String::from_str(owner),
                    name: String::from_str(name),
                    provider: Some(GitProvider::GitHub),
                };
                proof {
                    assert(repostring@ =~= owner@ + seq![separator()] + name@);
                    assert(!owner@.contains(separator()));
                    lemma_split_is_unique(repostring@, owner@, name@);
                }
                Ok(repo)
            },
        }
    }
}

/// A moment in time: the nanoseconds that it lies after the start of 1970 (UTC), negative
/// where it lies before.
#[derive(Debug, Clone, Copy, PartialEq, Eq, Structural)]
pub struct Timestamp {
    pub nanosecond: i128,
}

/// A tracked repository: its identity and how far it was viewed, by the newest commit that
/// was seen and by the time of the last look. Both are unset until a first look.
#[derive(Debug, PartialEq, Eq)]
pub struct CommitsRepo {
    pub repo: Repo,
    pub last_viewed_sha: Option<String>,
    pub last_viewed_time: Option<Timestamp>,
}

/// The mathematical value of a [`CommitsRepo`].
pub struct CommitsRepoView {
    pub repo: RepoView,
    pub last_viewed_sha: Option<Seq<char>>,
    pub last_viewed_time: Option<Timestamp>,
}

impl View for CommitsRepo {
    type V = CommitsRepoView;

    open spec fn view(&self) -> CommitsRepoView {
        CommitsRepoView {
            repo: self.repo@,
            last_viewed_sha: match self.last_viewed_sha {
                Some(sha) => Some(sha@),
                None => None,
            },
            last_viewed_time: self.last_viewed_time,
        }
    }
}

impl Clone for CommitsRepo {
    fn clone(&self) -> (copy: Self)
        ensures
            copy == *self,
    {
        let last_viewed_sha = match &self.last_viewed_sha {
            Some(sha) => Some(sha.clone()),
            None => None,
        };
        CommitsRepo {
            repo: self.repo.clone(),
            last_viewed_sha,
            last_viewed_time: self.last_viewed_time,
        }
    }
}

/// The request for the most recent commits of `repo`.
pub open spec fn recent_request(repo: RepoView) -> FetchRequestView {
    FetchRequestView::Recent { owner: repo.owner, name: repo.name, per_page: COMMITS_PER_PAGE }
}

/// The request for the most recent commits of `repo` among those made after `since`.
pub open spec fn since_request(repo: RepoView, since: Timestamp) -> FetchRequestView {
    FetchRequestView::Since {
        owner: repo.owner,
        name: repo.name,
        since,
        per_page: COMMITS_PER_PAGE,
    }
}

/// The request that brings what is new in a repository: the commits since the last look
/// where one was recorded, whatever commit was recorded with it; the most recent commits
/// of a repository that was never looked at, all of which are new to the user.
pub open spec fn refresh_request(entry: CommitsRepoView) -> FetchRequestView {
    match entry.last_viewed_time {
        Some(since) => since_request(entry.repo, since),
        None => recent_request(entry.repo),
    }
}

/// `entry` after a look at `now` that found `newest` as the name of the newest new commit,
/// or found no new commit: the time is recorded in any case, the name only if there is one.
pub open spec fn after_look(
    entry: CommitsRepoView,
    newest: Option<Seq<char>>,
    now: Timestamp,
) -> CommitsRepoView {
    CommitsRepoView {
        repo: entry.repo,
        last_viewed_sha: match newest {
            Some(sha) => Some(sha),
            None => entry.last_viewed_sha,
        },
        last_viewed_time: Some(now),
    }
}

/// A repository that was never looked at.
pub open spec fn never_viewed(repo: RepoView) -> CommitsRepoView {
    CommitsRepoView { repo, last_viewed_sha: None, last_viewed_time: None }
}

/// One commit as the provider reported it.
#[derive(Debug, PartialEq, Eq)]
pub struct CommitInfo {
    pub author: String,
    pub committer: String,
    pub commit_time: Timestamp,
    pub message: String,
    pub sha: String,
    pub url: String,
}

/// The mathematical value of a [`CommitInfo`].
pub struct CommitInfoView {
    pub author: Seq<char>,
    pub committer: Seq<char>,
    pub commit_time: Timestamp,
    pub message: Seq<char>,
    pub sha: Seq<char>,
    pub url: Seq<char>,
}

impl View for CommitInfo {
    type V = CommitInfoView;

    open spec fn view(&self) -> CommitInfoView {
        CommitInfoView {
            author: self.author@,
            committer: self.committer@,
            commit_time: self.commit_time,
            message: self.message@,
            sha: self.sha@,
            url: self.url@,
        }
    }
}

impl Clone for CommitInfo {
    fn clone(&self) -> (copy: Self)
        ensures
            copy == *self,
    {
        CommitInfo {
            author: self.author.clone(),
            committer: self.committer.clone(),
            commit_time: self.commit_time,
            message: self.message.clone(),
            sha: self.sha.clone(),
            url: self.url.clone(),
        }
    }
}

/// The commit at `at` is the first of `page` that is named `sha`.
pub open spec fn is_first_with_sha(page: Seq<CommitInfo>, sha: Seq<char>, at: int) -> bool {
    &&& 0 <= at < page.len()
    &&& page[at].sha@ == sha
    &&& forall|j: int| 0 <= j < at ==> page[j].sha@ != sha
}

/// The commits of `page` that are newer than the one named `sha`. A page lists the newest
/// commit first, so these are the ones before the first commit of that name. Where the
/// page holds no commit of that name there are none: nothing tells how far back it lies.
pub open spec fn newer_than_sha(page: Seq<CommitInfo>, sha: Seq<char>) -> Seq<CommitInfo> {
    if exists|at: int| is_first_with_sha(page, sha, at) {
        page.subrange(0, choose|at: int| is_first_with_sha(page, sha, at))
    } else {
        Seq::empty()
    }
}

/// Where the commit named `sha` is the first of that name at `at`, the newer commits are
/// the `at` commits before it.
pub proof fn lemma_newer_than_sha_found(page: Seq<CommitInfo>, sha: Seq<char>, at: int)
    requires
        is_first_with_sha(page, sha, at),
    ensures
        newer_than_sha(page, sha) == page.subrange(0, at),
{
    let chosen = choose|i: int| is_first_with_sha(page, sha, i);
    assert(is_first_with_sha(page, sha, chosen));
    assert(chosen == at) by {
        if chosen < at {
            assert(page[chosen].sha@ != sha);
        }
        if at < chosen {
            assert(page[at].sha@ != sha);
        }
    }
}

/// Where no commit of the page is named `sha`, no commit counts as newer.
pub proof fn lemma_newer_than_sha_absent(page: Seq<CommitInfo>, sha: Seq<char>)
    requires
        forall|i: int| 0 <= i < page.len() ==> page[i].sha@ != sha,
    ensures
        newer_than_sha(page, sha) == Seq::<CommitInfo>::empty(),
{
}

/// The name of the newest commit of `commits`, which stands first; none for no commits.
pub open spec fn newest_sha_of(commits: Seq<CommitInfo>) -> Option<Seq<char>> {
    if commits.len() == 0 {
        None
    } else {
        Some(commits[0].sha@)
    }
}

/// The name of the newest commit of `commits`, which stands first; none for no commits.
pub fn newest_sha(commits: &Vec<CommitInfo>) -> (sha: Option<String>)
    ensures
        sha is Some <==> commits@.len() > 0,
        newest_sha_of(commits@) == match sha {
            Some(s) => Some(s@),
            None => None,
        },
{
    if commits.len() == 0 {
        None
    } else {
        Some(commits[0].sha.clone())
    }
}

/// The commits of `page` before the first one that is named `sha`; none where no commit
/// of the page has that name.
pub fn commits_newer_than_sha(page: &Vec<CommitInfo>, sha: &str) -> (newer: Vec<CommitInfo>)
    ensures
        newer@ == newer_than_sha(page@, sha@),
{
    let wanted = String::from_str(sha);
    let mut newer: Vec<CommitInfo> = Vec::new();
    let mut i: usize = 0;
    while i < page.len()
        invariant
            i <= page.len(),
            newer@ == page@.subrange(0, i as int),
            forall|j: int| 0 <= j < i ==> page@[j].sha@ != sha@,
            wanted@ == sha@,
        decreases page.len() - i,
    {
        if page[i].sha == wanted {
            proof {
                lemma_newer_than_sha_found(page@, sha@, i as int);
            }
            return newer;
        }
        newer.push(page[i].clone());
        assert(newer@ =~= page@.subrange(0, i + 1));
        i = i + 1;
    }
    proof {
        lemma_newer_than_sha_absent(page@, sha@);
    }
    Vec::new()
}

impl CommitsRepo {
    /// Starts to track the repository that `owner/name` names. It was never viewed.
    pub fn new(repostring: &str) -> (result: Result<CommitsRepo, Error>)
        ensures
            result is Ok <==> repostring@.contains(separator()),
            result matches Ok(entry) ==> entry@ == never_viewed(parsed_repo(repostring@)),
            result matches Err(e) ==> e@ == ErrorView::InvalidRepositoryFormat,
    {
        match Repo::new(repostring) {
            Ok(repo) => Ok(CommitsRepo { repo, last_viewed_sha: None, last_viewed_time: None }),
            Err(e) => Err(e),
        }
    }

    /// The request for the most recent commits of this repository. With no look recorded
    /// at all, every commit that it brings is new.
    pub fn get_repo_commits(&self) -> (request: FetchRequest)
        ensures
            request@ == recent_request(self@.repo),
    {
        FetchRequest::Recent {
            owner: self.repo.owner.clone(),
            name: self.repo.name.clone(),
            per_page: COMMITS_PER_PAGE,
        }
    }

    /// The request for the commits made since the last look. The provider's answer to it is
    /// the list of new commits as it stands. Fails where no look was recorded yet.
    pub fn get_repo_commits_since(&self) -> (result: Result<FetchRequest, Error>)
        ensures
            match self@.last_viewed_time {
                Some(since) => result matches Ok(request) && request@ == since_request(
                    self@.repo,
                    since,
                ),
                None => result matches Err(e) && e@ == ErrorView::MissingLastViewedTime,
            },
    {
        match self.last_viewed_time {
            Some(since) => Ok(
                FetchRequest::Since {
                    owner: self.repo.owner.clone(),
                    name: self.repo.name.clone(),
                    since,
                    per_page: COMMITS_PER_PAGE,
                },
            ),
            None => Err(Error::MissingLastViewedTime),
        }
    }

    /// The request that brings what is new in this repository: the commits since the last
    /// look where one was recorded, else the most recent commits.
    pub fn get_new_commits_request(&self) -> (request: FetchRequest)
        ensures
            request@ == refresh_request(self@),
    {
        match self.last_viewed_time {
            Some(since) => FetchRequest::Since {
                owner: self.repo.owner.clone(),
                name: self.repo.name.clone(),
                since,
                per_page: COMMITS_PER_PAGE,
            },
            None => self.get_repo_commits(),
        }
    }

    /// The request whose answer [`CommitsRepo::get_repo_commits_since_sha`] picks the new
    /// commits from: the most recent commits. Fails where no commit was recorded yet.
    pub fn get_repo_commits_for_sha(&self) -> (result: Result<FetchRequest, Error>)
        ensures
            match self@.last_viewed_sha {
                Some(sha) => result matches Ok(request) && request@ == recent_request(self@.repo),
                None => result matches Err(e) && e@ == ErrorView::MissingLastViewedSha,
            },
    {
        match &self.last_viewed_sha {
            Some(_) => Ok(self.get_repo_commits()),
            None => Err(Error::MissingLastViewedSha),
        }
    }

    /// The commits of `page` that are newer than the commit recorded at the last look:
    /// those before it in the page. Where the page does not hold that commit, because more
    /// than a page of commits came after it or history was rewritten, no commit is
    /// reported, and nothing tells this apart from a repository without new commits.
    /// Fails where no commit was recorded yet.
    pub fn get_repo_commits_since_sha(&self, page: &Vec<CommitInfo>) -> (result: Result<
        Vec<CommitInfo>,
        Error,
    >)
        ensures
            match self@.last_viewed_sha {
                Some(sha) => result matches Ok(newer) && newer@ == newer_than_sha(page@, sha),
                None => result matches Err(e) && e@ == ErrorView::MissingLastViewedSha,
            },
    {
        match &self.last_viewed_sha {
            Some(sha) => Ok(commits_newer_than_sha(page, sha.as_str())),
            None => Err(Error::MissingLastViewedSha),
        }
    }

    /// Records `sha` as the newest commit that was seen. Nothing else changes.
    pub fn set_last_viewed_sha(&mut self, sha: &str)
        ensures
            final(self)@ == (CommitsRepoView { last_viewed_sha: Some(sha@), ..old(self)@ }),
    {
        self.last_viewed_sha = Some(String::from_str(sha));
    }

    /// Records `time` as the moment of the last look. Nothing else changes.
    pub fn set_last_viewed_time(&mut self, time: Timestamp)
        ensures
            final(self)@ == (CommitsRepoView { last_viewed_time: Some(time), ..old(self)@ }),
    {
        self.last_viewed_time = Some(time);
    }
}

} // verus!
