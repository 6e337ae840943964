//! The failures that the tool reports under a name of its own.

use vstd::prelude::*;
use vstd::string::*;

verus! {

/// A failure of the editor bridge or of command handling.
///
/// The two variants that stem from the scratch file carry the text of the
/// underlying I/O failure.
#[derive(Debug, PartialEq, Eq)]
pub enum Error {
    /// The editor could not be started, or it exited with a failure status.
    FailedEditorLaunch,
    /// The scratch file was created but its content could not be written.
    FailedWritingTempFileContent(String),
    /// The scratch file could not be created.
    FailedCreatingTempFile(String),
    /// No command name was given where one was needed.
    NoCommandProvided,
}

/// The text that describes a failure to the user.
pub open spec fn message_of(error: Error) -> Seq<char> {
    match error {
        Error::FailedEditorLaunch => "failed during launch of default editor"@,
        Error::FailedWritingTempFileContent(detail) => "failed to write content to temp file: "@
            + detail@,
        Error::FailedCreatingTempFile(detail) => "failed to create temp file: "@ + detail@,
        Error::NoCommandProvided => "no command was provided"@,
    }
}

impl Error {
    /// The text that describes this failure to the user.
    pub fn message(&self) -> (text: String)
        ensures
            text@ == message_of(*self),
    {
        match self {
            Error::FailedEditorLaunch => String::from_str("failed during launch of default editor"),
            Error::FailedWritingTempFileContent(detail) => String::from_str(
                "failed to write content to temp file: ",
            ).concat(detail.as_str()),
            Error::FailedCreatingTempFile(detail) => String::from_str(
                "failed to create temp file: ",
            ).concat(detail.as_str()),
            Error::NoCommandProvided => String::from_str("no command was provided"),
        }
    }
}

} // verus!
