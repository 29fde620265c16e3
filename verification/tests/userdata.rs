use whatsnew::error::Error;
use whatsnew::gitprovider::FetchRequest;
use whatsnew::repos::{CommitInfo, CommitsRepo, Timestamp};
use whatsnew::userdata::{collect_new_commits, UserData};

fn commit(sha: &str) -> CommitInfo {
    CommitInfo {
        author: "someone".to_string(),
        committer: "someone else".to_string(),
        commit_time: Timestamp { nanosecond: 1_700_000_000_000_000_000 },
        message: "a change".to_string(),
        sha: sha.to_string(),
        url: format!("https://example.org/{sha}"),
    }
}

fn three() -> UserData {
    let mut userdata = UserData::new();
    userdata.add_repo("zed/last").unwrap();
    userdata.add_repo("alpha/first").unwrap();
    userdata.add_repo("mid/dle").unwrap();
    userdata
}

fn viewed(repostring: &str, sha: Option<&str>, time: Option<i128>) -> CommitsRepo {
    let mut repo = CommitsRepo::new(repostring).unwrap();
    if let Some(sha) = sha {
        repo.set_last_viewed_sha(sha);
    }
    if let Some(nanosecond) = time {
        repo.set_last_viewed_time(Timestamp { nanosecond });
    }
    repo
}

#[test]
fn new_set_tracks_nothing() {
    let userdata = UserData::new();
    assert!(userdata.is_empty());
    assert_eq!(userdata.len(), 0);
    assert_eq!(userdata.keys(), Vec::<String>::new());
    assert!(!userdata.contains_repo("a/b"));
    assert_eq!(userdata.get_repo("a/b"), None);
}

#[test]
fn added_to_empty_set_is_the_only_one() {
    let mut userdata = UserData::new();
    assert_eq!(userdata.add_repo("owner/name"), Ok(()));
    assert_eq!(userdata.keys(), vec!["owner/name".to_string()]);
    assert_eq!(userdata.len(), 1);
    assert!(!userdata.is_empty());
    assert!(userdata.contains_repo("owner/name"));
    let repo = userdata.get_repo("owner/name").unwrap();
    assert_eq!(repo.repo.owner, "owner");
    assert_eq!(repo.repo.name, "name");
    assert_eq!(repo.last_viewed_sha, None);
    assert_eq!(repo.last_viewed_time, None);
}

#[test]
fn add_rejects_text_without_separator() {
    let mut userdata = three();
    assert_eq!(userdata.add_repo("nothing"), Err(Error::InvalidRepositoryFormat));
    assert_eq!(userdata.add_repo(""), Err(Error::InvalidRepositoryFormat));
    assert_eq!(userdata.keys(), vec!["zed/last", "alpha/first", "mid/dle"]);
}

#[test]
fn keys_keep_the_order_of_adding() {
    let userdata = three();
    assert_eq!(userdata.keys(), vec!["zed/last", "alpha/first", "mid/dle"]);
    assert_eq!(userdata.len(), 3);
}

#[test]
fn key_is_the_text_as_given() {
    let mut userdata = UserData::new();
    userdata.add_repo("a/b/c").unwrap();
    assert!(userdata.contains_repo("a/b/c"));
    assert!(!userdata.contains_repo("a/b"));
    assert_eq!(userdata.get_repo("a/b/c").unwrap().repo.name, "b/c");
}

#[test]
fn adding_again_keeps_the_place_and_forgets_the_marks() {
    let mut userdata = three();
    userdata.get_repo_mut("zed/last").unwrap().set_last_viewed_sha("abc");
    userdata.get_repo_mut("zed/last").unwrap().set_last_viewed_time(Timestamp { nanosecond: 1 });
    assert_eq!(userdata.add_repo("zed/last"), Ok(()));
    assert_eq!(userdata.keys(), vec!["zed/last", "alpha/first", "mid/dle"]);
    assert_eq!(userdata.get_repo("zed/last"), Some(&CommitsRepo::new("zed/last").unwrap()));
}

#[test]
fn remove_hands_back_the_entry_and_keeps_the_order() {
    let mut userdata = three();
    userdata.get_repo_mut("alpha/first").unwrap().set_last_viewed_sha("abc");
    let removed = userdata.remove_repo("alpha/first").unwrap();
    assert_eq!(removed, viewed("alpha/first", Some("abc"), None));
    assert_eq!(userdata.keys(), vec!["zed/last", "mid/dle"]);
    assert!(!userdata.contains_repo("alpha/first"));
    let removed = userdata.remove_repo("zed/last").unwrap();
    assert_eq!(removed, viewed("zed/last", None, None));
    assert_eq!(userdata.keys(), vec!["mid/dle"]);
}

#[test]
fn remove_of_unknown_key_changes_nothing() {
    let mut userdata = three();
    userdata.get_repo_mut("mid/dle").unwrap().set_last_viewed_sha("abc");
    let before = userdata.entries();
    assert_eq!(
        userdata.remove_repo("no/such"),
        Err(Error::RepoNotFound { name: "no/such".to_string() })
    );
    assert_eq!(userdata.len(), 3);
    assert_eq!(userdata.entries(), before);
    let mut empty = UserData::new();
    assert_eq!(empty.remove_repo("a/b"), Err(Error::RepoNotFound { name: "a/b".to_string() }));
    assert!(empty.is_empty());
}

#[test]
fn remove_all_leaves_nothing() {
    let mut userdata = three();
    userdata.remove_all_repos();
    assert!(userdata.is_empty());
    assert_eq!(userdata.keys(), Vec::<String>::new());
    userdata.add_repo("a/b").unwrap();
    assert_eq!(userdata.keys(), vec!["a/b"]);
}

#[test]
fn get_mut_changes_the_entry_in_place() {
    let mut userdata = three();
    assert!(userdata.get_repo_mut("no/such").is_none());
    let repo = userdata.get_repo_mut("alpha/first").unwrap();
    repo.set_last_viewed_sha("abc");
    repo.set_last_viewed_time(Timestamp { nanosecond: 99 });
    assert_eq!(userdata.get_repo("alpha/first"), Some(&viewed("alpha/first", Some("abc"), Some(99))));
    assert_eq!(userdata.get_repo("zed/last"), Some(&viewed("zed/last", None, None)));
    assert_eq!(userdata.keys(), vec!["zed/last", "alpha/first", "mid/dle"]);
}

#[test]
fn entries_build_the_same_set_again() {
    let mut userdata = three();
    userdata.mark_viewed("alpha/first", &vec![commit("c2"), commit("c1")], Timestamp { nanosecond: 5 }, false).unwrap();
    userdata.get_repo_mut("mid/dle").unwrap().set_last_viewed_sha("only-sha");
    let pairs = userdata.entries();
    assert_eq!(
        pairs,
        vec![
            ("zed/last".to_string(), viewed("zed/last", None, None)),
            ("alpha/first".to_string(), viewed("alpha/first", Some("c2"), Some(5))),
            ("mid/dle".to_string(), viewed("mid/dle", Some("only-sha"), None)),
        ]
    );
    let again = UserData::from_entries(pairs.clone());
    assert_eq!(again.keys(), userdata.keys());
    assert_eq!(again.entries(), pairs);
}

#[test]
fn from_entries_lets_a_later_pair_win_in_the_first_place() {
    let userdata = UserData::from_entries(vec![
        ("a/b".to_string(), viewed("a/b", Some("old"), None)),
        ("c/d".to_string(), viewed("c/d", None, None)),
        ("a/b".to_string(), viewed("a/b", Some("new"), Some(3))),
    ]);
    assert_eq!(userdata.keys(), vec!["a/b", "c/d"]);
    assert_eq!(userdata.get_repo("a/b"), Some(&viewed("a/b", Some("new"), Some(3))));
    assert!(UserData::from_entries(Vec::new()).is_empty());
}

#[test]
fn empty_set_asks_for_nothing() {
    assert_eq!(UserData::new().get_all_new_commits(), Vec::new());
}

#[test]
fn never_viewed_repository_is_asked_for_its_recent_commits() {
    let mut userdata = UserData::new();
    userdata.add_repo("owner/name").unwrap();
    assert_eq!(
        userdata.get_all_new_commits(),
        vec![(
            "owner/name".to_string(),
            FetchRequest::Recent {
                owner: "owner".to_string(),
                name: "name".to_string(),
                per_page: 30,
            }
        )]
    );
}

#[test]
fn requests_follow_the_marks_in_the_order_of_adding() {
    let mut userdata = three();
    userdata.get_repo_mut("alpha/first").unwrap().set_last_viewed_time(Timestamp { nanosecond: 11 });
    userdata.get_repo_mut("mid/dle").unwrap().set_last_viewed_sha("sha-only");
    let before = userdata.entries();
    assert_eq!(
        userdata.get_all_new_commits(),
        vec![
            (
                "zed/last".to_string(),
                FetchRequest::Recent { owner: "zed".to_string(), name: "last".to_string(), per_page: 30 }
            ),
            (
                "alpha/first".to_string(),
                FetchRequest::Since {
                    owner: "alpha".to_string(),
                    name: "first".to_string(),
                    since: Timestamp { nanosecond: 11 },
                    per_page: 30,
                }
            ),
            (
                "mid/dle".to_string(),
                FetchRequest::Recent { owner: "mid".to_string(), name: "dle".to_string(), per_page: 30 }
            ),
        ]
    );
    assert_eq!(userdata.entries(), before);
}

#[test]
fn all_successes_are_collected_in_order() {
    let outcomes: Vec<(String, Result<Vec<CommitInfo>, String>)> = vec![
        ("zed/last".to_string(), Ok(vec![commit("z1")])),
        ("alpha/first".to_string(), Ok(vec![])),
        ("mid/dle".to_string(), Ok(vec![commit("m2"), commit("m1")])),
    ];
    assert_eq!(
        collect_new_commits(outcomes),
        Ok(vec![
            ("zed/last".to_string(), vec![commit("z1")]),
            ("alpha/first".to_string(), vec![]),
            ("mid/dle".to_string(), vec![commit("m2"), commit("m1")]),
        ])
    );
    let none: Vec<(String, Result<Vec<CommitInfo>, String>)> = Vec::new();
    assert_eq!(collect_new_commits(none), Ok(Vec::new()));
}

#[test]
fn one_failure_fails_the_whole_refresh() {
    let mut userdata = three();
    userdata.get_repo_mut("zed/last").unwrap().set_last_viewed_sha("z0");
    let before = userdata.entries();
    let requests = userdata.get_all_new_commits();
    assert_eq!(requests.len(), 3);
    let outcomes: Vec<(String, Result<Vec<CommitInfo>, String>)> = vec![
        ("zed/last".to_string(), Ok(vec![commit("z1")])),
        ("alpha/first".to_string(), Err("connection reset".to_string())),
        ("mid/dle".to_string(), Ok(vec![commit("m1")])),
    ];
    assert_eq!(collect_new_commits(outcomes), Err("connection reset".to_string()));
    assert_eq!(userdata.entries(), before);
}

#[test]
fn first_failure_in_order_is_reported() {
    let outcomes: Vec<(String, Result<Vec<CommitInfo>, u32>)> = vec![
        ("a/b".to_string(), Ok(vec![])),
        ("c/d".to_string(), Err(404)),
        ("e/f".to_string(), Err(500)),
    ];
    assert_eq!(collect_new_commits(outcomes), Err(404));
}

#[test]
fn look_with_new_commits_records_time_and_newest_sha() {
    let mut userdata = three();
    assert_eq!(
        userdata.mark_viewed("alpha/first", &vec![commit("c3"), commit("c2")], Timestamp { nanosecond: 77 }, false),
        Ok(())
    );
    assert_eq!(userdata.get_repo("alpha/first"), Some(&viewed("alpha/first", Some("c3"), Some(77))));
    assert_eq!(userdata.get_repo("zed/last"), Some(&viewed("zed/last", None, None)));
    assert_eq!(userdata.keys(), vec!["zed/last", "alpha/first", "mid/dle"]);
}

#[test]
fn look_without_new_commits_records_the_time_only() {
    let mut userdata = three();
    userdata.get_repo_mut("mid/dle").unwrap().set_last_viewed_sha("seen");
    assert_eq!(userdata.mark_viewed("mid/dle", &Vec::new(), Timestamp { nanosecond: 78 }, false), Ok(()));
    assert_eq!(userdata.get_repo("mid/dle"), Some(&viewed("mid/dle", Some("seen"), Some(78))));
    assert_eq!(userdata.mark_viewed("zed/last", &Vec::new(), Timestamp { nanosecond: 79 }, false), Ok(()));
    assert_eq!(userdata.get_repo("zed/last"), Some(&viewed("zed/last", None, Some(79))));
}

#[test]
fn skipped_update_records_nothing() {
    let mut userdata = three();
    let before = userdata.entries();
    assert_eq!(userdata.mark_viewed("alpha/first", &vec![commit("c3")], Timestamp { nanosecond: 77 }, true), Ok(()));
    assert_eq!(userdata.mark_viewed("no/such", &vec![commit("c3")], Timestamp { nanosecond: 77 }, true), Ok(()));
    assert_eq!(userdata.entries(), before);
}

#[test]
fn look_at_unknown_repository_fails() {
    let mut userdata = three();
    let before = userdata.entries();
    assert_eq!(
        userdata.mark_viewed("no/such", &vec![commit("c3")], Timestamp { nanosecond: 77 }, false),
        Err(Error::ViewedRepoNotFound { name: "no/such".to_string() })
    );
    assert_eq!(userdata.entries(), before);
}

#[test]
fn recorded_time_turns_the_next_request_into_a_since_request() {
    let mut userdata = UserData::new();
    userdata.add_repo("owner/name").unwrap();
    userdata.mark_viewed("owner/name", &vec![commit("c1")], Timestamp { nanosecond: 1234 }, false).unwrap();
    assert_eq!(
        userdata.get_all_new_commits(),
        vec![(
            "owner/name".to_string(),
            FetchRequest::Since {
                owner: "owner".to_string(),
                name: "name".to_string(),
                since: Timestamp { nanosecond: 1234 },
                per_page: 30,
            }
        )]
    );
}

#[test]
fn default_set_tracks_nothing() {
    let userdata = UserData::default();
    assert!(userdata.is_empty());
    assert_eq!(userdata.get_all_new_commits(), Vec::new());
}
