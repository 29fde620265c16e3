//! The set of tracked repositories, in the order in which they were added.

use indexmap::IndexMap;
use vstd::prelude::*;
use vstd::string::StringExecFns;

use crate::entries::{
    distinct_keys, inserted, is_position_of, keys_of, lemma_inserted_distinct,
    lemma_loaded_distinct_is_same, lemma_loaded_is_distinct, lemma_position_of,
    lemma_position_of_absent,
    lemma_removed_distinct, loaded, removed, value_of, view_of_ref, Entries,
};
use crate::error::{Error, ErrorView};
use crate::gitprovider::{FetchRequest, FetchRequestView};
use crate::repos::{
    after_look, never_viewed, newest_sha, newest_sha_of, parsed_repo, recent_request,
    refresh_request, separator, CommitInfo, CommitsRepo, CommitsRepoView, Timestamp,
};
use crate::text::texts_of;
use crate::tracked_map::{
    entries, map_clear, map_contains_key, map_get, map_get_index, map_get_mut, map_insert,
    map_len, map_shift_remove, map_with_capacity,
};

verus! {

/// The mathematical value of a list of keys with what is recorded under each.
pub open spec fn pairs_view(pairs: Seq<(String, CommitsRepo)>) -> Entries {
    Seq::new(pairs.len(), |i: int| (pairs[i].0@, pairs[i].1@))
}

/// The mathematical value of a list of keys with the request made for each.
pub open spec fn requests_view(requests: Seq<(String, FetchRequest)>) -> Seq<
    (Seq<char>, FetchRequestView),
> {
    Seq::new(requests.len(), |i: int| (requests[i].0@, requests[i].1@))
}

/// The requests of one refresh: one for each tracked repository, in the order of `pairs`.
pub open spec fn plan_of(pairs: Entries) -> Seq<(Seq<char>, FetchRequestView)> {
    Seq::new(pairs.len(), |i: int| (pairs[i].0, refresh_request(pairs[i].1)))
}

/// Every outcome of `outcomes` is a success.
pub open spec fn all_succeeded<E>(outcomes: Seq<(String, Result<Vec<CommitInfo>, E>)>) -> bool {
    forall|i: int| 0 <= i < outcomes.len() ==> (#[trigger] outcomes[i]).1 is Ok
}

/// `at` is the place of the first failure in `outcomes`.
pub open spec fn is_first_failure<E>(
    outcomes: Seq<(String, Result<Vec<CommitInfo>, E>)>,
    at: int,
) -> bool {
    &&& 0 <= at < outcomes.len()
    &&& outcomes[at].1 is Err
    &&& forall|j: int| 0 <= j < at ==> (#[trigger] outcomes[j]).1 is Ok
}

/// The repositories that a user tracks, each under the text that it was added with, in the
/// order in which they were added.
pub struct UserData {
    commits: IndexMap<String, CommitsRepo>,
}

impl View for UserData {
    type V = Entries;

    closed spec fn view(&self) -> Entries {
        entries(self.commits)
    }
}

/// A repository added to a set that tracks nothing is then the only one tracked, under the
/// text that it was added with, and counts as never viewed.
pub proof fn lemma_add_to_empty(key: Seq<char>)
    requires
        key.contains(separator()),
    ensures
        ({
            let after = inserted(Entries::empty(), key, never_viewed(parsed_repo(key)));
            &&& keys_of(after) == seq![key]
            &&& value_of(after, key) == Some(never_viewed(parsed_repo(key)))
            &&& value_of(after, key)->0.last_viewed_sha is None
            &&& value_of(after, key)->0.last_viewed_time is None
        }),
{
    let value = never_viewed(parsed_repo(key));
    lemma_position_of_absent(Entries::empty(), key);
    let after = inserted(Entries::empty(), key, value);
    assert(after == Entries::empty().push((key, value)));
    assert(is_position_of(after, key, 0));
    lemma_position_of(after, key, 0);
    assert(keys_of(after) =~= seq![key]);
}

/// What [`UserData::entries`] reads out of a set, [`UserData::from_entries`] builds into the
/// same set again: the same keys in the same order, and under each key the same repository
/// with the same record of what was viewed.
pub proof fn lemma_entries_round_trip(userdata: &UserData, pairs: Seq<(String, CommitsRepo)>)
    requires
        userdata.wf(),
        pairs_view(pairs) == userdata@,
    ensures
        loaded(pairs_view(pairs)) == userdata@,
{
    lemma_loaded_distinct_is_same(userdata@);
}

/// The first check of a repository that was just added to a set that tracked nothing sends
/// one request, and it asks for the most recent commits, not for those since some time.
pub proof fn lemma_first_check_is_unfiltered(key: Seq<char>)
    requires
        key.contains(separator()),
    ensures
        plan_of(inserted(Entries::empty(), key, never_viewed(parsed_repo(key)))) == seq![
            (key, recent_request(parsed_repo(key))),
        ],
{
    lemma_position_of_absent(Entries::empty(), key);
    let after = inserted(Entries::empty(), key, never_viewed(parsed_repo(key)));
    assert(plan_of(after) =~= seq![(key, recent_request(parsed_repo(key)))]);
}

/// A set that tracks nothing asks the provider for nothing.
pub proof fn lemma_plan_of_empty()
    ensures
        plan_of(Entries::empty()) == Seq::<(Seq<char>, FetchRequestView)>::empty(),
{
    assert(plan_of(Entries::empty()) =~= Seq::<(Seq<char>, FetchRequestView)>::empty());
}

impl Default for UserData {
    /// A set that tracks nothing.
    fn default() -> (userdata: Self)
        ensures
            userdata@ == Entries::empty(),
            userdata.wf(),
    {
        UserData::new()
    }
}

impl UserData {
    /// No key is tracked twice. Every set that this library makes is such a set, and
    /// every operation keeps it one.
    pub open spec fn wf(&self) -> bool {
        distinct_keys(self@)
    }

    /// A set that tracks nothing.
    pub fn new() -> (userdata: Self)
        ensures
            userdata@ == Entries::empty(),
            userdata.wf(),
    {
        UserData { commits: map_with_capacity(64) }
    }

    /// Starts to track the repository that `repostring` names, under that text as its key.
    /// A key that is tracked already keeps its place and starts anew as never viewed.
    /// A text that names no repository changes nothing.
    pub fn add_repo(&mut self, repostring: &str) -> (result: Result<(), Error>)
        ensures
            result is Ok <==> repostring@.contains(separator()),
            result is Ok ==> final(self)@ == inserted(
                old(self)@,
                repostring@,
                never_viewed(parsed_repo(repostring@)),
            ),
            result matches Err(e) ==> e@ == ErrorView::InvalidRepositoryFormat && final(self)@
                == old(self)@,
            old(self).wf() ==> final(self).wf(),
    {
        match CommitsRepo::new(repostring) {
            Ok(repo) => {
                proof {
                    if self.wf() {
                        lemma_inserted_distinct(self@, repostring@, repo@);
                    }
                }
                map_insert(&mut self.commits, String::from_str(repostring), repo);
                Ok(())
            },
            Err(e) => Err(e),
        }
    }

    /// Stops tracking the repository under `name` and hands back what was recorded of it.
    /// The others keep their order. An unknown key changes nothing.
    pub fn remove_repo(&mut self, name: &str) -> (result: Result<CommitsRepo, Error>)
        ensures
            final(self)@ == removed(old(self)@, name@),
            match result {
                Ok(repo) => value_of(old(self)@, name@) == Some(repo@),
                Err(e) => {
                    &&& value_of(old(self)@, name@) is None
                    &&& e@ == (ErrorView::RepoNotFound { name: name@ })
                    &&& final(self)@ == old(self)@
                },
            },
            old(self).wf() ==> final(self).wf(),
    {
        proof {
            if self.wf() {
                lemma_removed_distinct(self@, name@);
            }
        }
        match map_shift_remove(&mut self.commits, name) {
            Some(repo) => Ok(repo),
            None => Err(Error::RepoNotFound { name: String::from_str(name) }),
        }
    }

    /// Stops tracking every repository.
    pub fn remove_all_repos(&mut self)
        ensures
            final(self)@ == Entries::empty(),
            final(self).wf(),
    {
        map_clear(&mut self.commits);
    }

    /// Whether a repository is tracked under `name`.
    pub fn contains_repo(&self, name: &str) -> (found: bool)
        ensures
            found == (value_of(self@, name@) is Some),
    {
        map_contains_key(&self.commits, name)
    }

    /// What is recorded of the repository under `name`, if one is tracked under it.
    pub fn get_repo(&self, name: &str) -> (repo: Option<&CommitsRepo>)
        ensures
            view_of_ref(repo) == value_of(self@, name@),
    {
        map_get(&self.commits, name)
    }

    /// What is recorded of the repository under `name`, to be changed in place. Whatever
    /// the caller leaves there is what is recorded under `name` afterwards; the keys, their
    /// order and the other repositories stay as they are.
    pub fn get_repo_mut(&mut self, name: &str) -> (repo: Option<&mut CommitsRepo>)
        ensures
            match repo {
                Some(r) => {
                    &&& Some((*r)@) == value_of(old(self)@, name@)
                    &&& final(self)@ == inserted(old(self)@, name@, (*final(r))@)
                },
                None => value_of(old(self)@, name@) is None && final(self)@ == old(self)@,
            },
    {
        map_get_mut(&mut self.commits, name)
    }

    /// How many repositories are tracked.
    pub fn len(&self) -> (n: usize)
        ensures
            n == self@.len(),
    {
        map_len(&self.commits)
    }

    /// Whether no repository is tracked.
    pub fn is_empty(&self) -> (empty: bool)
        ensures
            empty == (self@.len() == 0),
    {
        map_len(&self.commits) == 0
    }

    /// The keys of the tracked repositories, in the order in which they were added.
    pub fn keys(&self) -> (keys: Vec<String>)
        ensures
            texts_of(keys@) == keys_of(self@),
    {
        let n = map_len(&self.commits);
        let mut keys: Vec<String> = Vec::new();
        let mut i: usize = 0;
        while i < n
            invariant
                i <= n,
                n == self@.len(),
                keys@.len() == i,
                forall|j: int| 0 <= j < i ==> keys@[j]@ == self@[j].0,
            decreases n - i,
        {
            if let Some((key, _)) = map_get_index(&self.commits, i) {
                keys.push(key.clone());
            }
            i = i + 1;
        }
        assert(texts_of(keys@) =~= keys_of(self@));
        keys
    }

    /// A copy of every key with what is recorded under it, in the order in which they
    /// were added.
    pub fn entries(&self) -> (pairs: Vec<(String, CommitsRepo)>)
        ensures
            pairs_view(pairs@) == self@,
    {
        let n = map_len(&self.commits);
        let mut pairs: Vec<(String, CommitsRepo)> = Vec::new();
        let mut i: usize = 0;
        while i < n
            invariant
                i <= n,
                n == self@.len(),
                pairs@.len() == i,
                forall|j: int| 0 <= j < i ==> (pairs@[j].0@, pairs@[j].1@) == self@[j],
            decreases n - i,
        {
            if let Some((key, repo)) = map_get_index(&self.commits, i) {
                pairs.push((key.clone(), repo.clone()));
            }
            i = i + 1;
        }
        assert(pairs_view(pairs@) =~= self@);
        pairs
    }

    /// The set that tracks `pairs`, put in one after the other.
    pub fn from_entries(pairs: Vec<(String, CommitsRepo)>) -> (userdata: Self)
        ensures
            userdata@ == loaded(pairs_view(pairs@)),
            userdata.wf(),
    {
        let ghost all = pairs@;
        let mut userdata = UserData::new();
        for pair in it: pairs
            invariant
                it.seq() == all,
                userdata@ == loaded(pairs_view(all.subrange(0, it.index() as int))),
        {
            proof {
                let before = pairs_view(all.subrange(0, it.index() as int));
                let now = pairs_view(all.subrange(0, it.index() + 1));
                assert(now.drop_last() =~= before);
                assert(now.last() == (pair.0@, pair.1@));
            }
            let (key, repo) = pair;
            map_insert(&mut userdata.commits, key, repo);
        }
        proof {
            assert(all.subrange(0, all.len() as int) =~= all);
            lemma_loaded_is_distinct(pairs_view(all));
        }
        userdata
    }

    /// The requests of one refresh: for each tracked repository, in the order in which they
    /// were added, its key and the request that brings what is new in it. Nothing that is
    /// tracked changes.
    pub fn get_all_new_commits(&self) -> (requests: Vec<(String, FetchRequest)>)
        ensures
            requests_view(requests@) == plan_of(self@),
    {
        let n = map_len(&self.commits);
        let mut requests: Vec<(String, FetchRequest)> = Vec::new();
        let mut i: usize = 0;
        while i < n
            invariant
                i <= n,
                n == self@.len(),
                requests@.len() == i,
                forall|j: int|
                    0 <= j < i ==> (requests@[j].0@, requests@[j].1@) == (
                        self@[j].0,
                        refresh_request(self@[j].1),
                    ),
            decreases n - i,
        {
            if let Some((key, repo)) = map_get_index(&self.commits, i) {
                requests.push((key.clone(), repo.get_new_commits_request()));
            }
            i = i + 1;
        }
        assert(requests_view(requests@) =~= plan_of(self@));
        requests
    }

    /// Records a look at the repository under `reponame` that found `commits` as its new
    /// commits, newest first: the time of the look becomes `now`, and the newest of the
    /// commits, if there is any, becomes the last one seen. With `skip_update` nothing is
    /// recorded and nothing is looked up. An unknown key changes nothing.
    pub fn mark_viewed(
        &mut self,
        reponame: &str,
        commits: &Vec<CommitInfo>,
        now: Timestamp,
        skip_update: bool,
    ) -> (result: Result<(), Error>)
        ensures
            skip_update ==> result is Ok && final(self)@ == old(self)@,
            !skip_update ==> match value_of(old(self)@, reponame@) {
                Some(before) => result is Ok && final(self)@ == inserted(
                    old(self)@,
                    reponame@,
                    after_look(before, newest_sha_of(commits@), now),
                ),
                None => {
                    &&& result matches Err(e) && e@ == (ErrorView::ViewedRepoNotFound {
                        name: reponame@,
                    })
                    &&& final(self)@ == old(self)@
                },
            },
            old(self).wf() ==> final(self).wf(),
    {
        if skip_update {
            return Ok(());
        }
        proof {
            if self.wf() && value_of(self@, reponame@) is Some {
                lemma_inserted_distinct(
                    self@,
                    reponame@,
                    after_look(value_of(self@, reponame@)->0, newest_sha_of(commits@), now),
                );
            }
        }
        let newest = newest_sha(commits);
        match map_get_mut(&mut self.commits, reponame) {
            Some(repo) => {
                repo.set_last_viewed_time(now);
                if let Some(sha) = newest {
                    repo.set_last_viewed_sha(sha.as_str());
                }
                Ok(())
            },
            None => Err(Error::ViewedRepoNotFound { name: String::from_str(reponame) }),
        }
    }
}

/// The result of one refresh from the outcomes of its requests, each with the key of its
/// repository: every key with its new commits, in the order of `outcomes`, where every
/// request succeeded; else the first failure in that order, and no commits at all.
pub fn collect_new_commits<E>(outcomes: Vec<(String, Result<Vec<CommitInfo>, E>)>) -> (result:
    Result<Vec<(String, Vec<CommitInfo>)>, E>)
    ensures
        result is Ok <==> all_succeeded(outcomes@),
        result matches Ok(found) ==> {
            &&& found@.len() == outcomes@.len()
            &&& forall|i: int|
                0 <= i < found@.len() ==> (#[trigger] found@[i]).0 == outcomes@[i].0
                    && outcomes@[i].1 == Ok::<Vec<CommitInfo>, E>(found@[i].1)
        },
        result matches Err(e) ==> exists|at: int|
            is_first_failure(outcomes@, at) && outcomes@[at].1 == Err::<Vec<CommitInfo>, E>(e),
{
    let ghost all = outcomes@;
    let mut found: Vec<(String, Vec<CommitInfo>)> = Vec::new();
    for outcome in it: outcomes
        invariant
            it.seq() == all,
            found@.len() == it.index(),
            forall|i: int|
                0 <= i < found@.len() ==> (#[trigger] found@[i]).0 == all[i].0 && all[i].1 == Ok::<
                    Vec<CommitInfo>,
                    E,
                >(found@[i].1),
            forall|j: int| 0 <= j < it.index() ==> (#[trigger] all[j]).1 is Ok,
    {
        let (key, fetched) = outcome;
        match fetched {
            Ok(commits) => {
                found.push((key, commits));
            },
            Err(e) => {
                proof {
                    assert(is_first_failure(all, it.index() as int));
                }
                return Err(e);
            },
        }
    }
    Ok(found)
}

} // verus!
