//! The editor bridge: a note is written to a scratch file, the user's editor
//! is run on that file, and what the file then holds is the edited note.

use vstd::prelude::*;
use vstd::string::*;
use crate::command::text_of;
use crate::error::Error;

verus! {

/// The name of the scratch file, inside the system's directory for temporary
/// files. Every edit uses this one name.
pub open spec fn scratch_name() -> Seq<char> {
    "edit_file.yml"@
}

/// The editor to run: the configured one, or `vi` where none is configured.
pub open spec fn editor_of(configured: Option<Seq<char>>) -> Seq<char> {
    match configured {
        Some(program) => program,
        None => "vi"@,
    }
}

/// The editor to run, given what the `EDITOR` variable names, if it is set.
pub fn editor_program(configured: Option<&str>) -> (program: String)
    ensures
        program@ == editor_of(text_of(configured)),
{
    match configured {
        Some(program) => String::from_str(program),
        None => String::from_str("vi"),
    }
}

/// How far an edit has come.
#[derive(Debug, PartialEq, Eq)]
pub enum EditState {
    /// Nothing was done yet.
    Start,
    /// The scratch file is being created.
    Creating,
    /// The note is being written to the scratch file.
    Writing,
    /// The editor is running.
    Launching,
    /// The scratch file is being read back.
    Reading,
    /// The scratch file is being removed; the text is what was read from it.
    Removing(String),
    /// The edit is over.
    Finished,
}

/// What happened since the last step.
#[derive(Debug, PartialEq, Eq)]
pub enum EditEvent {
    /// A note is to be edited.
    Begin,
    /// What was asked for was done.
    Succeeded,
    /// What was asked for could not be done; the text says why. For the
    /// editor this means that it could not be started or waited for.
    Failed(String),
    /// The editor ran and exited, with a success status (`true`) or with
    /// another.
    Exited(bool),
    /// The scratch file was read and held this text.
    Text(String),
}

/// What to do next.
#[derive(Debug, PartialEq, Eq)]
pub enum EditAction {
    /// Create the scratch file under this name, replacing an earlier one.
    CreateScratch { file_name: String },
    /// Write this text to the scratch file.
    WriteScratch { text: String },
    /// Run this program with the scratch file's path as its only argument and
    /// wait for it to exit.
    LaunchEditor { program: String },
    /// Read the scratch file as text.
    ReadScratch,
    /// Remove the scratch file.
    RemoveScratch,
    /// The edit is done, with this text as the edited note.
    Return(String),
    /// The edit failed in the way named.
    Fail(Error),
    /// The edit ends without a result: what went wrong is an I/O failure that
    /// has no name here and is for the caller to report as it is.
    Abandon,
}

/// The steps of editing the note `item` with the editor that `editor`
/// configures: create the scratch file, write the note to it as it is, run
/// the editor, read the file back, remove it, and hand out what was read.
/// A failure to create or to write ends the edit under its name, and so does
/// an editor that cannot be run or that exits with a failure status; anything
/// else that is not the next success ends the edit without a name.
pub open spec fn edit_step(
    item: Seq<char>,
    editor: Option<Seq<char>>,
    state: EditState,
    event: EditEvent,
    next: EditState,
    action: EditAction,
) -> bool {
    match (state, event) {
        (EditState::Start, EditEvent::Begin) => {
            &&& next is Creating
            &&& action matches EditAction::CreateScratch { file_name }
            &&& file_name@ == scratch_name()
        },
        (EditState::Creating, EditEvent::Succeeded) => {
            &&& next is Writing
            &&& action matches EditAction::WriteScratch { text }
            &&& text@ == item
        },
        (EditState::Creating, EditEvent::Failed(detail)) => {
            &&& next is Finished
            &&& action matches EditAction::Fail(Error::FailedCreatingTempFile(reason))
            &&& reason@ == detail@
        },
        (EditState::Writing, EditEvent::Succeeded) => {
            &&& next is Launching
            &&& action matches EditAction::LaunchEditor { program }
            &&& program@ == editor_of(editor)
        },
        (EditState::Writing, EditEvent::Failed(detail)) => {
            &&& next is Finished
            &&& action matches EditAction::Fail(Error::FailedWritingTempFileContent(reason))
            &&& reason@ == detail@
        },
        (EditState::Launching, EditEvent::Exited(true)) => next is Reading && action is ReadScratch,
        (EditState::Launching, EditEvent::Exited(false))
        | (EditState::Launching, EditEvent::Failed(_)) => {
            &&& next is Finished
            &&& action matches EditAction::Fail(Error::FailedEditorLaunch)
        },
        (EditState::Reading, EditEvent::Text(text)) => {
            &&& next matches EditState::Removing(kept)
            &&& kept@ == text@
            &&& action is RemoveScratch
        },
        (EditState::Removing(kept), EditEvent::Succeeded) => {
            &&& next is Finished
            &&& action matches EditAction::Return(edited)
            &&& edited@ == kept@
        },
        _ => next is Finished && action is Abandon,
    }
}

/// What is written to the scratch file is the note itself, whatever the
/// editor that is configured.
pub proof fn lemma_scratch_holds_the_note(
    item: Seq<char>,
    editor: Option<Seq<char>>,
    state: EditState,
    event: EditEvent,
    next: EditState,
    action: EditAction,
)
    requires
        edit_step(item, editor, state, event, next, action),
        action is WriteScratch,
    ensures
        state is Creating,
        event is Succeeded,
        action->WriteScratch_text@ == item,
{
}

/// An edit hands out a text only once the scratch file is removed, and the
/// text is what was read from that file.
pub proof fn lemma_result_follows_removal(
    item: Seq<char>,
    editor: Option<Seq<char>>,
    state: EditState,
    event: EditEvent,
    next: EditState,
    action: EditAction,
)
    requires
        edit_step(item, editor, state, event, next, action),
        action is Return,
    ensures
        state is Removing,
        event is Succeeded,
        action->Return_0@ == state->Removing_0@,
{
}

/// One step of editing the note `item`: from where the edit stands and what
/// happened last to where it stands now and what to do next.
pub fn edit_item(item: &str, editor: Option<&str>, state: EditState, event: EditEvent) -> (next: (
    EditState,
    EditAction,
))
    ensures
        edit_step(item@, text_of(editor), state, event, next.0, next.1),
{
    match (state, event) {
        (EditState::Start, EditEvent::Begin) => (
            EditState::Creating,
            EditAction::CreateScratch { file_name: String::from_str("edit_file.yml") },
        ),
        (EditState::Creating, EditEvent::Succeeded) => (
            EditState::Writing,
            EditAction::WriteScratch { text: String::from_str(item) },
        ),
        (EditState::Creating, EditEvent::Failed(detail)) => (
            EditState::Finished,
            EditAction::Fail(Error::FailedCreatingTempFile(detail)),
        ),
        (EditState::Writing, EditEvent::Succeeded) => (
            EditState::Launching,
            EditAction::LaunchEditor { program: editor_program(editor) },
        ),
        (EditState::Writing, EditEvent::Failed(detail)) => (
            EditState::Finished,
            EditAction::Fail(Error::FailedWritingTempFileContent(detail)),
        ),
        (EditState::Launching, EditEvent::Exited(true)) => (
            EditState::Reading,
            EditAction::ReadScratch,
        ),
        (EditState::Launching, EditEvent::Exited(false)) => (
            EditState::Finished,
            EditAction::Fail(Error::FailedEditorLaunch),
        ),
        (EditState::Launching, EditEvent::Failed(_)) => (
            EditState::Finished,
            EditAction::Fail(Error::FailedEditorLaunch),
        ),
        (EditState::Reading, EditEvent::Text(text)) => (
            EditState::Removing(text),
            EditAction::RemoveScratch,
        ),
        (EditState::Removing(kept), EditEvent::Succeeded) => (
            EditState::Finished,
            EditAction::Return(kept),
        ),
        _ => (EditState::Finished, EditAction::Abandon),
    }
}

} // verus!
