//! The viewer bridge: shows a note through the markdown renderer and, should
//! that fail to start or to complete successfully, through the pager. A
//! failure to show a note is reported and never stops the tool.

use vstd::prelude::*;
use vstd::string::*;
use crate::command::{Invocation, InvocationView};

verus! {

/// The renderer reading `content` from its standard input, paginated.
pub open spec fn glow_call(content: Seq<char>) -> InvocationView {
    InvocationView { program: "glow"@, args: seq!["-p"@, "-"@], input: Some(content) }
}

/// The pager reading `content` from its standard input.
pub open spec fn less_call(content: Seq<char>) -> InvocationView {
    InvocationView { program: "less"@, args: seq!["-r"@, "-"@], input: Some(content) }
}

/// What stands for the reason when a program ran and exited with a failure
/// status.
pub open spec fn failure_status() -> Seq<char> {
    "the program exited with a failure status"@
}

/// Why the program that was run has failed, if it has: the reason given
/// where it could not be started or waited for, and `failure_status` where
/// it exited unsuccessfully.
pub open spec fn failure_of(event: ViewEvent) -> Option<Seq<char>> {
    match event {
        ViewEvent::Failed(detail) => Some(detail@),
        ViewEvent::Exited(false) => Some(failure_status()),
        _ => None,
    }
}

/// What is said when the renderer failed and the pager is tried.
pub open spec fn fallback_warning(detail: Seq<char>) -> Seq<char> {
    "failed to display doc entry using glow, try running --health-check: "@ + detail
}

/// What is said when the pager failed too.
pub open spec fn failure_report(detail: Seq<char>) -> Seq<char> {
    "failed to display doc entry: "@ + detail
}

/// How to start the markdown renderer on `content`.
pub fn glow_md(content: &str) -> (call: Invocation)
    ensures
        call@ == glow_call(content@),
{
    let mut args: Vec<String> = Vec::new();
    args.push(String::from_str("-p"));
    args.push(String::from_str("-"));
    let call = Invocation {
        program: String::from_str("glow"),
        args,
        input: Some(String::from_str(content)),
    };
    assert(call.args.deep_view() =~= seq!["-p"@, "-"@]);
    call
}

/// How to start the pager on `content`.
pub fn less_md(content: &str) -> (call: Invocation)
    ensures
        call@ == less_call(content@),
{
    let mut args: Vec<String> = Vec::new();
    args.push(String::from_str("-r"));
    args.push(String::from_str("-"));
    let call = Invocation {
        program: String::from_str("less"),
        args,
        input: Some(String::from_str(content)),
    };
    assert(call.args.deep_view() =~= seq!["-r"@, "-"@]);
    call
}

/// How far the showing of a note has come.
#[derive(Debug, Clone, Copy, PartialEq, Eq, Structural)]
pub enum ViewState {
    /// Nothing was tried yet.
    Start,
    /// The renderer is running.
    Rendering,
    /// The renderer failed and the pager is running.
    Paging,
    /// There is nothing more to do.
    Finished,
}

/// What happened since the last step.
#[derive(Debug, PartialEq, Eq)]
pub enum ViewEvent {
    /// The note is to be shown.
    Begin,
    /// The program that was run has exited, with a success status (`true`)
    /// or with another.
    Exited(bool),
    /// The program that was run could not be started, fed or waited for; the
    /// text says why.
    Failed(String),
}

/// What to do next.
#[derive(Debug, PartialEq, Eq)]
pub enum ViewAction {
    /// Run a program, after saying `warning` if there is one.
    Run { call: Invocation, warning: Option<String> },
    /// Say that the note could not be shown, and carry on.
    GiveUp { report: String },
    /// Nothing: the showing is over.
    Finish,
}

/// The steps of showing the note `entry`: the renderer first, the pager if
/// the renderer failed, a report if both did. A program has failed when it
/// could not be started, fed or waited for, and when it exited with a
/// failure status. A program that exits successfully ends the showing, and
/// so does anything that comes out of turn.
pub open spec fn view_step(
    entry: Seq<char>,
    state: ViewState,
    event: ViewEvent,
    next: ViewState,
    action: ViewAction,
) -> bool {
    match (state, event) {
        (ViewState::Start, ViewEvent::Begin) => {
            &&& next == ViewState::Rendering
            &&& action matches ViewAction::Run { call, warning }
            &&& call@ == glow_call(entry)
            &&& warning is None
        },
        (ViewState::Rendering, ViewEvent::Failed(_))
        | (ViewState::Rendering, ViewEvent::Exited(false)) => {
            &&& next == ViewState::Paging
            &&& action matches ViewAction::Run { call, warning }
            &&& call@ == less_call(entry)
            &&& warning matches Some(text)
            &&& text@ == fallback_warning(failure_of(event)->0)
        },
        (ViewState::Paging, ViewEvent::Failed(_)) | (ViewState::Paging, ViewEvent::Exited(false)) => {
            &&& next == ViewState::Finished
            &&& action matches ViewAction::GiveUp { report }
            &&& report@ == failure_report(failure_of(event)->0)
        },
        _ => next == ViewState::Finished && action is Finish,
    }
}

/// A renderer that fails, in either way, is followed by the pager on the same
/// note; a pager that fails is followed by a report, and nothing is run
/// after it.
pub proof fn lemma_failure_falls_back(
    entry: Seq<char>,
    state: ViewState,
    event: ViewEvent,
    next: ViewState,
    action: ViewAction,
)
    requires
        view_step(entry, state, event, next, action),
        failure_of(event) is Some,
    ensures
        state == ViewState::Rendering ==> next == ViewState::Paging && (action matches ViewAction::Run {
            call,
            ..
        } && call@ == less_call(entry)),
        state == ViewState::Paging ==> next == ViewState::Finished && action is GiveUp,
{
}

/// The pager is run only when the renderer has failed.
pub proof fn lemma_pager_follows_renderer(
    entry: Seq<char>,
    state: ViewState,
    event: ViewEvent,
    next: ViewState,
    action: ViewAction,
)
    requires
        view_step(entry, state, event, next, action),
        action matches ViewAction::Run { call, .. } && call@ == less_call(entry),
    ensures
        state == ViewState::Rendering,
        failure_of(event) is Some,
{
    reveal_strlit("glow");
    reveal_strlit("less");
    assert("glow"@[0] != "less"@[0]);
}

/// One step of showing the note `entry`: from where the showing stands and
/// what happened last to where it stands now and what to do next.
pub fn present_docs(entry: &str, state: ViewState, event: ViewEvent) -> (next: (
    ViewState,
    ViewAction,
))
    ensures
        view_step(entry@, state, event, next.0, next.1),
{
    match (state, event) {
        (ViewState::Start, ViewEvent::Begin) => (
            ViewState::Rendering,
            ViewAction::Run { call: glow_md(entry), warning: None },
        ),
        (ViewState::Rendering, ViewEvent::Failed(detail)) => (
            ViewState::Paging,
            ViewAction::Run { call: less_md(entry), warning: Some(warn(detail.as_str())) },
        ),
        (ViewState::Rendering, ViewEvent::Exited(false)) => (
            ViewState::Paging,
            ViewAction::Run {
                call: less_md(entry),
                warning: Some(warn("the program exited with a failure status")),
            },
        ),
        (ViewState::Paging, ViewEvent::Failed(detail)) => (
            ViewState::Finished,
            ViewAction::GiveUp { report: report(detail.as_str()) },
        ),
        (ViewState::Paging, ViewEvent::Exited(false)) => (
            ViewState::Finished,
            ViewAction::GiveUp { report: report("the program exited with a failure status") },
        ),
        _ => (ViewState::Finished, ViewAction::Finish),
    }
}

/// The warning that the renderer failed for the reason given.
fn warn(detail: &str) -> (warning: String)
    ensures
        warning@ == fallback_warning(detail@),
{
    String::from_str(
        "failed to display doc entry using glow, try running --health-check: ",
    ).concat(detail)
}

/// The report that the pager failed too, for the reason given.
fn report(detail: &str) -> (report: String)
    ensures
        report@ == failure_report(detail@),
{
    String::from_str("failed to display doc entry: ").concat(detail)
}

} // verus!
