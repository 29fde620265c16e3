//! The commands on the tracked repositories.

use vstd::prelude::*;
use vstd::string::StringExecFns;

use crate::error::{Error, ErrorView};
use crate::gitprovider::{FetchRequest, FetchRequestView};
use crate::repos::{never_viewed, parsed_repo, separator};
use crate::entries::{inserted, keys_of, removed, value_of, Entries};
use crate::text::texts_of;
use crate::userdata::{plan_of, requests_view, UserData};

verus! {

/// What the user is told where nothing is tracked.
pub const NOTHING_TRACKED: &'static str =
    "No repos tracked, you can start tracking a repo with `whatsnew repos add <OWNER/REPO>`";

/// What is left to do outside once a command has been carried out on the tracked set.
#[derive(Debug, PartialEq, Eq)]
pub enum Step {
    /// Show these lines to the user.
    Say { lines: Vec<String> },
    /// Send these requests, each for the repository under the key beside it, show what
    /// they bring, and record the look at each repository.
    Fetch { requests: Vec<(String, FetchRequest)> },
}

/// The mathematical value of a [`Step`].
pub enum StepView {
    Say { lines: Seq<Seq<char>> },
    Fetch { requests: Seq<(Seq<char>, FetchRequestView)> },
}

impl View for Step {
    type V = StepView;

    open spec fn view(&self) -> StepView {
        match self {
            Step::Say { lines } => StepView::Say { lines: texts_of(lines@) },
            Step::Fetch { requests } => StepView::Fetch { requests: requests_view(requests@) },
        }
    }
}

/// What adding `input` to `before` gives: the repository is tracked under `input` as never
/// viewed and the user is told so, or `input` names no repository and nothing changes.
pub open spec fn added(
    before: Entries,
    input: Seq<char>,
    after: Entries,
    result: Result<Step, Error>,
) -> bool {
    if input.contains(separator()) {
        &&& after == inserted(before, input, never_viewed(parsed_repo(input)))
        &&& result matches Ok(step) && step@ == (StepView::Say {
            lines: seq!["Added "@ + input],
        })
    } else {
        &&& after == before
        &&& result matches Err(e) && e@ == ErrorView::InvalidRepositoryFormat
    }
}

/// What removing `input` from `before` gives: the repository under that key is no longer
/// tracked and the user is told so, or none was tracked under it and nothing changes.
pub open spec fn taken_out(
    before: Entries,
    input: Seq<char>,
    after: Entries,
    result: Result<Step, Error>,
) -> bool {
    if value_of(before, input) is Some {
        &&& after == removed(before, input)
        &&& result matches Ok(step) && step@ == (StepView::Say {
            lines: seq!["Removed "@ + input],
        })
    } else {
        &&& after == before
        &&& result matches Err(e) && e@ == (ErrorView::RepoNotFound { name: input })
    }
}

/// The lines that show what is tracked: every key in its order, or the hint where nothing
/// is tracked.
pub open spec fn listing(pairs: Entries) -> Seq<Seq<char>> {
    if pairs.len() == 0 {
        seq![NOTHING_TRACKED@]
    } else {
        keys_of(pairs)
    }
}

/// `step` shows what `pairs` tracks.
pub open spec fn listed(pairs: Entries, step: Step) -> bool {
    step@ == (StepView::Say { lines: listing(pairs) })
}

/// `step` starts a check of `pairs`: one request for each tracked repository in their
/// order, or only the hint, and no request, where nothing is tracked.
pub open spec fn checked(pairs: Entries, step: Step) -> bool {
    if pairs.len() == 0 {
        step@ == (StepView::Say { lines: seq![NOTHING_TRACKED@] })
    } else {
        step@ == (StepView::Fetch { requests: plan_of(pairs) })
    }
}

/// One line that reads `start` and then `rest`.
fn line(start: &str, rest: &str) -> (lines: Vec<String>)
    ensures
        texts_of(lines@) == seq![start@ + rest@],
{
    let mut text = String::from_str(start);
    text.append(rest);
    let lines = vec![text];
    assert(texts_of(lines@) =~= seq![start@ + rest@]);
    lines
}

/// The one line that tells the user that nothing is tracked.
fn hint() -> (lines: Vec<String>)
    ensures
        texts_of(lines@) == seq![NOTHING_TRACKED@],
{
    let lines = vec![String::from_str(NOTHING_TRACKED)];
    assert(texts_of(lines@) =~= seq![NOTHING_TRACKED@]);
    lines
}

/// Starts to track the repository that `input` names.
pub fn add(userdata: &mut UserData, input: &str) -> (result: Result<Step, Error>)
    ensures
        added(old(userdata)@, input@, final(userdata)@, result),
        old(userdata).wf() ==> final(userdata).wf(),
{
    match userdata.add_repo(input) {
        Ok(()) => Ok(Step::Say { lines: line("Added ", input) }),
        Err(e) => Err(e),
    }
}

/// Stops tracking the repository under `input`.
pub fn remove(userdata: &mut UserData, input: &str) -> (result: Result<Step, Error>)
    ensures
        taken_out(old(userdata)@, input@, final(userdata)@, result),
        old(userdata).wf() ==> final(userdata).wf(),
{
    match userdata.remove_repo(input) {
        Ok(_) => Ok(Step::Say { lines: line("Removed ", input) }),
        Err(e) => Err(e),
    }
}

/// Shows what is tracked.
pub fn list(userdata: &UserData) -> (step: Step)
    ensures
        listed(userdata@, step),
{
    if userdata.is_empty() {
        Step::Say { lines: hint() }
    } else {
        Step::Say { lines: userdata.keys() }
    }
}

/// Starts a check for new commits in everything that is tracked.
pub fn check(userdata: &UserData) -> (step: Step)
    ensures
        checked(userdata@, step),
{
    if userdata.is_empty() {
        Step::Say { lines: hint() }
    } else {
        Step::Fetch { requests: userdata.get_all_new_commits() }
    }
}

} // verus!
