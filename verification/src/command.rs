//! How an external program is to be started, and other plain values that
//! pass between the tool and its surroundings.

use vstd::prelude::*;
use vstd::string::*;

verus! {

/// A program to run as a child process, with its arguments and, where it is
/// fed through its standard input, the text to feed it.
#[derive(Debug, PartialEq, Eq)]
pub struct Invocation {
    /// The name or path of the program.
    pub program: String,
    /// Its arguments, in order.
    pub args: Vec<String>,
    /// What to write to its standard input, if anything.
    pub input: Option<String>,
}

/// The mathematical value of an [`Invocation`].
pub struct InvocationView {
    pub program: Seq<char>,
    pub args: Seq<Seq<char>>,
    pub input: Option<Seq<char>>,
}

impl View for Invocation {
    type V = InvocationView;

    open spec fn view(&self) -> InvocationView {
        InvocationView {
            program: self.program@,
            args: self.args.deep_view(),
            input: match self.input {
                Some(text) => Some(text@),
                None => None,
            },
        }
    }
}

/// The text of an optional string.
pub open spec fn text_of(text: Option<&str>) -> Option<Seq<char>> {
    match text {
        Some(text) => Some(text@),
        None => None,
    }
}

} // verus!
