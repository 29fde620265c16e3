use whatsnew::error::Error;
use whatsnew::gitprovider::{credential, read_commit, read_page, RawCommit, RawSignature, COMMITS_PER_PAGE};
use whatsnew::repos::{CommitInfo, Timestamp};

fn signature(name: &str, date: Option<i128>) -> Option<RawSignature> {
    Some(RawSignature { name: name.to_string(), date: date.map(|nanosecond| Timestamp { nanosecond }) })
}

fn raw(sha: &str, author: Option<RawSignature>, committer: Option<RawSignature>) -> RawCommit {
    RawCommit {
        author,
        committer,
        message: format!("message of {sha}\n\nbody"),
        sha: sha.to_string(),
        url: format!("https://example.org/{sha}"),
    }
}

fn read(sha: &str, author: &str, committer: &str, nanosecond: i128) -> CommitInfo {
    CommitInfo {
        author: author.to_string(),
        committer: committer.to_string(),
        commit_time: Timestamp { nanosecond },
        message: format!("message of {sha}\n\nbody"),
        sha: sha.to_string(),
        url: format!("https://example.org/{sha}"),
    }
}

#[test]
fn page_size_is_thirty() {
    assert_eq!(COMMITS_PER_PAGE, 30);
}

#[test]
fn commit_is_read_field_by_field() {
    let commit = read_commit(raw("c1", signature("ann", Some(1)), signature("bob", Some(2))));
    assert_eq!(commit, Ok(read("c1", "ann", "bob", 2)));
}

#[test]
fn absent_author_reads_as_empty_name() {
    let commit = read_commit(raw("c1", None, signature("bob", Some(2))));
    assert_eq!(commit, Ok(read("c1", "", "bob", 2)));
}

#[test]
fn commit_without_committer_is_an_error() {
    assert_eq!(read_commit(raw("c1", signature("ann", Some(1)), None)), Err(Error::MissingCommitDate));
}

#[test]
fn commit_without_committer_date_is_an_error() {
    assert_eq!(
        read_commit(raw("c1", signature("ann", Some(1)), signature("bob", None))),
        Err(Error::MissingCommitDate)
    );
}

#[test]
fn page_is_read_in_order() {
    let page = vec![
        raw("c2", signature("ann", None), signature("bob", Some(20))),
        raw("c1", None, signature("cy", Some(-10))),
    ];
    assert_eq!(read_page(page), Ok(vec![read("c2", "ann", "bob", 20), read("c1", "", "cy", -10)]));
    assert_eq!(read_page(Vec::new()), Ok(Vec::new()));
}

#[test]
fn one_undated_commit_fails_the_page() {
    let page = vec![
        raw("c2", None, signature("bob", Some(20))),
        raw("c1", None, signature("cy", None)),
        raw("c0", None, signature("di", Some(5))),
    ];
    assert_eq!(read_page(page), Err(Error::MissingCommitDate));
}

#[test]
fn first_credential_wins() {
    assert_eq!(credential(Some("one".to_string()), Some("two".to_string())), Ok("one".to_string()));
    assert_eq!(credential(Some("one".to_string()), None), Ok("one".to_string()));
    assert_eq!(credential(None, Some("two".to_string())), Ok("two".to_string()));
}

#[test]
fn no_credential_is_an_error() {
    assert_eq!(credential(None, None), Err(Error::MissingCredential));
}
