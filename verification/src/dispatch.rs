//! The command dispatcher: what the tool does in each mode, as a sequence of
//! steps. Each step takes what just happened and says what to do next; the
//! editing, showing, asking and writing themselves are done by the caller.

use vstd::prelude::*;
use vstd::string::*;
use crate::cli::Mode;
use crate::directory::{save_entries, saves};
use crate::store::EntryCollection;

verus! {

/// How far the run has come.
#[derive(Debug, PartialEq, Eq)]
pub enum Stage {
    /// Nothing was done yet; the mode is still to be acted on.
    Start(Mode),
    /// The note of the named command is with the editor.
    Editing(String),
    /// The user is being asked whether to create a note for the named
    /// command.
    Confirming(String),
    /// The first text of a new note for the named command is with the editor.
    Creating(String),
    /// The user is choosing from the list of names.
    Selecting,
    /// There is nothing more to do.
    Finished,
}

/// What happened since the last step.
#[derive(Debug, PartialEq, Eq)]
pub enum Event {
    /// The run begins.
    Begin,
    /// The editor bridge returned this text.
    Edited(String),
    /// The user answered the question with yes (`true`) or no.
    Answered(bool),
    /// The user chose this name from the list.
    Selected(String),
    /// What was asked for was done and has nothing to report.
    Done,
}

/// What to do next.
#[derive(Debug, PartialEq, Eq)]
pub enum Action {
    /// Hand this text to the editor bridge.
    Edit { content: String },
    /// Hand this text to the viewer bridge.
    Show { content: String },
    /// Ask the user a yes-or-no question, with `default` as the answer that
    /// is offered.
    Confirm { message: String, default: bool },
    /// Let the user choose one of `options`.
    Select { message: String, options: Vec<String> },
    /// Write these files to the notes directory.
    Save { files: Vec<(String, String)> },
    /// Run the health check.
    CheckHealth,
    /// Say that there are no entries to choose from.
    ReportEmpty,
    /// Leave.
    Exit,
}

/// The text that a new note for `name` starts with: a heading with the name.
pub open spec fn seed_for(name: Seq<char>) -> Seq<char> {
    "# "@ + name
}

/// The question put to the user when `name` has no note.
pub open spec fn question_for(name: Seq<char>) -> Seq<char> {
    "No entry for '"@ + name + "'! Create one?"@
}

/// The heading of the list of names.
pub open spec fn selection_prompt() -> Seq<char> {
    "Which Command"@
}

/// The steps of a run. `before` and `after` are the collection before and
/// after the step.
///
/// - Editing a command that has a note sends the note to the editor; what
///   comes back takes its place, and the collection is saved. Editing a
///   command that has none does nothing.
/// - Naming a command that has a note shows it. For one that has none the
///   user is asked whether to create it; after a yes the seed goes to the
///   editor, what comes back becomes the note, and the collection is saved;
///   after a no nothing is done.
/// - In interactive mode the user chooses from the names in listing order
///   and the chosen note is shown; with no entries this is said instead.
/// - The health check is left to the caller, and the idle mode does nothing.
///
/// Anything that comes out of turn ends the run.
pub open spec fn dispatch_step(
    before: EntryCollection,
    stage: Stage,
    event: Event,
    after: EntryCollection,
    next: Stage,
    action: Action,
) -> bool {
    match (stage, event) {
        (Stage::Start(Mode::EditExisting(name)), Event::Begin) => {
            &&& after == before
            &&& if before@.contains_key(name@) {
                &&& next matches Stage::Editing(kept)
                &&& kept@ == name@
                &&& action matches Action::Edit { content }
                &&& content@ == before@[name@]
            } else {
                next is Finished && action is Exit
            }
        },
        (Stage::Start(Mode::ViewOrCreate(name)), Event::Begin) => {
            &&& after == before
            &&& if before@.contains_key(name@) {
                &&& next is Finished
                &&& action matches Action::Show { content }
                &&& content@ == before@[name@]
            } else {
                &&& next matches Stage::Confirming(kept)
                &&& kept@ == name@
                &&& action matches Action::Confirm { message, default }
                &&& message@ == question_for(name@)
                &&& default
            }
        },
        (Stage::Start(Mode::InteractiveSelect), Event::Begin) => {
            &&& after == before
            &&& if before.listing().len() == 0 {
                next is Finished && action is ReportEmpty
            } else {
                &&& next is Selecting
                &&& action matches Action::Select { message, options }
                &&& message@ == selection_prompt()
                &&& before.listed_as(options.deep_view())
            }
        },
        (Stage::Start(Mode::HealthCheck), Event::Begin) => {
            &&& after == before
            &&& next is Finished
            &&& action is CheckHealth
        },
        (Stage::Editing(name), Event::Edited(text)) | (Stage::Creating(name), Event::Edited(text)) => {
            &&& after@ == before@.insert(name@, text@)
            &&& next is Finished
            &&& action matches Action::Save { files }
            &&& saves(files.deep_view(), after)
        },
        (Stage::Confirming(name), Event::Answered(true)) => {
            &&& after == before
            &&& next matches Stage::Creating(kept)
            &&& kept@ == name@
            &&& action matches Action::Edit { content }
            &&& content@ == seed_for(name@)
        },
        (Stage::Selecting, Event::Selected(name)) => {
            &&& after == before
            &&& next is Finished
            &&& if before@.contains_key(name@) {
                &&& action matches Action::Show { content }
                &&& content@ == before@[name@]
            } else {
                action is Exit
            }
        },
        _ => after == before && next is Finished && action is Exit,
    }
}

/// One step of a run: from the collection, where the run stands and what
/// happened last to where it stands now and what to do next. The collection
/// changes only when an edited text comes back.
pub fn dispatch(entries: &mut EntryCollection, stage: Stage, event: Event) -> (next: (Stage, Action))
    ensures
        dispatch_step(*old(entries), stage, event, *final(entries), next.0, next.1),
{
    match (stage, event) {
        (Stage::Start(Mode::EditExisting(name)), Event::Begin) => {
            match entries.get(name.as_str()) {
                Some(content) => {
                    let content = content.clone();
                    (Stage::Editing(name), Action::Edit { content })
                },
                None => (Stage::Finished, Action::Exit),
            }
        },
        (Stage::Start(Mode::ViewOrCreate(name)), Event::Begin) => {
            match entries.get(name.as_str()) {
                Some(content) => {
                    let content = content.clone();
                    (Stage::Finished, Action::Show { content })
                },
                None => {
                    let message = String::from_str("No entry for '").concat(name.as_str()).concat(
                        "'! Create one?",
                    );
                    (Stage::Confirming(name), Action::Confirm { message, default: true })
                },
            }
        },
        (Stage::Start(Mode::InteractiveSelect), Event::Begin) => {
            if entries.is_empty() {
                (Stage::Finished, Action::ReportEmpty)
            } else {
                let options = entries.names();
                (
                    Stage::Selecting,
                    Action::Select { message: String::from_str("Which Command"), options },
                )
            }
        },
        (Stage::Start(Mode::HealthCheck), Event::Begin) => (Stage::Finished, Action::CheckHealth),
        (Stage::Editing(name), Event::Edited(text)) => {
            entries.insert(name, text);
            let files = save_entries(entries);
            (Stage::Finished, Action::Save { files })
        },
        (Stage::Creating(name), Event::Edited(text)) => {
            entries.insert(name, text);
            let files = save_entries(entries);
            (Stage::Finished, Action::Save { files })
        },
        (Stage::Confirming(name), Event::Answered(true)) => {
            let content = String::from_str("# ").concat(name.as_str());
            (Stage::Creating(name), Action::Edit { content })
        },
        (Stage::Selecting, Event::Selected(name)) => {
            match entries.get(name.as_str()) {
                Some(content) => {
                    let content = content.clone();
                    (Stage::Finished, Action::Show { content })
                },
                None => (Stage::Finished, Action::Exit),
            }
        },
        _ => (Stage::Finished, Action::Exit),
    }
}

/// Where a run begins in the given mode.
pub fn begin(mode: Mode) -> (stage: Stage)
    ensures
        stage == Stage::Start(mode),
{
    Stage::Start(mode)
}

/// Whether the step number `i` of a run is a step of the dispatcher.
pub open spec fn step_at(
    collections: Seq<EntryCollection>,
    stages: Seq<Stage>,
    events: Seq<Event>,
    actions: Seq<Action>,
    i: int,
) -> bool {
    dispatch_step(
        collections[i],
        stages[i],
        events[i],
        collections[i + 1],
        stages[i + 1],
        actions[i],
    )
}

/// A run: the collections and stages that it passes through, with the event
/// that leads from each to the next and the action that this step asks for.
pub open spec fn dispatch_run(
    collections: Seq<EntryCollection>,
    stages: Seq<Stage>,
    events: Seq<Event>,
    actions: Seq<Action>,
) -> bool {
    &&& collections.len() == events.len() + 1
    &&& stages.len() == events.len() + 1
    &&& actions.len() == events.len()
    &&& forall|i: int|
        0 <= i < events.len() ==> #[trigger] step_at(collections, stages, events, actions, i)
}

/// Whether an action leaves the directory and the notes alone: it neither
/// writes files nor sends anything to the editor.
pub open spec fn is_passive(action: Action) -> bool {
    !(action is Save) && !(action is Edit)
}

/// The collection changes only when an edited text comes back, and only
/// then is anything written.
pub proof fn lemma_only_edits_change_entries(
    before: EntryCollection,
    stage: Stage,
    event: Event,
    after: EntryCollection,
    next: Stage,
    action: Action,
)
    requires
        dispatch_step(before, stage, event, after, next, action),
    ensures
        !(event is Edited) ==> after == before && !(action is Save),
        action is Save ==> (stage is Editing || stage is Creating),
{
}

/// Once a run is finished it stays finished: every further step leaves the
/// collection as it is and asks for nothing but to leave.
pub proof fn lemma_finished_run_rests(
    collections: Seq<EntryCollection>,
    stages: Seq<Stage>,
    events: Seq<Event>,
    actions: Seq<Action>,
    from: int,
    at: int,
)
    requires
        dispatch_run(collections, stages, events, actions),
        0 <= from <= at < events.len(),
        stages[from] is Finished,
    ensures
        stages[at + 1] is Finished,
        actions[at] is Exit,
        collections[at + 1] == collections[from],
    decreases at - from,
{
    if from < at {
        lemma_finished_run_rests(collections, stages, events, actions, from, at - 1);
    }
    assert(step_at(collections, stages, events, actions, at));
}

/// Editing a command that has no note does nothing: in a run that begins in
/// edit mode on a name without an entry, no step changes the collection and
/// every step asks for nothing but to leave, so that nothing is written.
pub proof fn lemma_edit_of_missing_entry_is_idle(
    collections: Seq<EntryCollection>,
    stages: Seq<Stage>,
    events: Seq<Event>,
    actions: Seq<Action>,
    name: String,
    at: int,
)
    requires
        dispatch_run(collections, stages, events, actions),
        stages[0] == Stage::Start(Mode::EditExisting(name)),
        !collections[0]@.contains_key(name@),
        0 <= at < events.len(),
    ensures
        actions[at] is Exit,
        collections[at + 1] == collections[0],
{
    assert(step_at(collections, stages, events, actions, 0));
    if at > 0 {
        lemma_finished_run_rests(collections, stages, events, actions, 1, at);
    }
}

/// Declining to create a note does nothing: in a run that begins in view
/// mode on a name without an entry and in which the user never answers yes,
/// no step changes the collection, writes files or calls the editor.
pub proof fn lemma_declined_creation_is_idle(
    collections: Seq<EntryCollection>,
    stages: Seq<Stage>,
    events: Seq<Event>,
    actions: Seq<Action>,
    name: String,
    at: int,
)
    requires
        dispatch_run(collections, stages, events, actions),
        stages[0] == Stage::Start(Mode::ViewOrCreate(name)),
        !collections[0]@.contains_key(name@),
        forall|i: int| 0 <= i < events.len() ==> events[i] != Event::Answered(true),
        0 <= at < events.len(),
    ensures
        is_passive(actions[at]),
        collections[at + 1] == collections[0],
{
    assert(step_at(collections, stages, events, actions, 0));
    if at > 0 {
        assert(step_at(collections, stages, events, actions, 1));
        assert(events[1] != Event::Answered(true));
        assert(stages[2] is Finished);
        if at > 1 {
            lemma_finished_run_rests(collections, stages, events, actions, 2, at);
        }
    }
}

/// Accepting to create a note starts it from the seed: in a run that begins
/// in view mode on a name without an entry, the user is asked; after a yes
/// the text that goes to the editor is a heading with the command's name,
/// and what the editor returns becomes the note of that command and is
/// saved.
pub proof fn lemma_accepted_creation_is_seeded(
    collections: Seq<EntryCollection>,
    stages: Seq<Stage>,
    events: Seq<Event>,
    actions: Seq<Action>,
    name: String,
    text: String,
)
    requires
        dispatch_run(collections, stages, events, actions),
        stages[0] == Stage::Start(Mode::ViewOrCreate(name)),
        !collections[0]@.contains_key(name@),
        events.len() >= 3,
        events[0] == Event::Begin,
        events[1] == Event::Answered(true),
        events[2] == Event::Edited(text),
    ensures
        actions[0] matches Action::Confirm { message, default } && message@ == question_for(name@)
            && default,
        actions[1] matches Action::Edit { content } && content@ == seed_for(name@),
        collections[2] == collections[0],
        collections[3]@ == collections[0]@.insert(name@, text@),
        actions[2] matches Action::Save { files } && saves(files.deep_view(), collections[3]),
        stages[3] is Finished,
{
    assert(step_at(collections, stages, events, actions, 0));
    assert(step_at(collections, stages, events, actions, 1));
    assert(step_at(collections, stages, events, actions, 2));
}

} // verus!
