//! What the user asked for on the command line, and the mode of operation
//! that follows from it.

use vstd::prelude::*;
use vstd::string::*;

verus! {

/// The parsed command line.
#[derive(Debug, PartialEq, Eq)]
pub struct Cli {
    /// The command whose note is meant.
    pub cmd: Option<String>,
    /// Choose the command from a list instead of naming it.
    pub interactive: bool,
    /// Edit the note rather than show it.
    pub edit: bool,
    /// Report whether the programs that the tool relies on can be found.
    pub health_check: bool,
}

/// What one run of the tool does.
#[derive(Debug, PartialEq, Eq)]
pub enum Mode {
    /// Edit the note of the named command, if it has one.
    EditExisting(String),
    /// Show the note of the named command, or offer to create one.
    ViewOrCreate(String),
    /// Let the user choose a note from the list and show it.
    InteractiveSelect,
    /// Report on the programs that the tool relies on.
    HealthCheck,
    /// Nothing.
    Idle,
}

/// Whether `mode` is what the command line asks for. A command name decides
/// first, with the edit flag choosing between editing and showing; without a
/// name the interactive flag comes before the health check.
pub open spec fn selects(cli: Cli, mode: Mode) -> bool {
    match cli.cmd {
        Some(cmd) => if cli.edit {
            mode matches Mode::EditExisting(name) && name@ == cmd@
        } else {
            mode matches Mode::ViewOrCreate(name) && name@ == cmd@
        },
        None => if cli.interactive {
            mode is InteractiveSelect
        } else if cli.health_check {
            mode is HealthCheck
        } else {
            mode is Idle
        },
    }
}

impl Cli {
    /// The mode of operation that this command line asks for.
    pub fn mode(&self) -> (mode: Mode)
        ensures
            selects(*self, mode),
    {
        match &self.cmd {
            Some(cmd) => if self.edit {
                Mode::EditExisting(cmd.clone())
            } else {
                Mode::ViewOrCreate(cmd.clone())
            },
            None => if self.interactive {
                Mode::InteractiveSelect
            } else if self.health_check {
                Mode::HealthCheck
            } else {
                Mode::Idle
            },
        }
    }
}

} // verus!
