//! The health check: whether the programs that the tool relies on can be
//! found, one line of report for each.

use vstd::prelude::*;
use vstd::string::*;
use crate::command::{text_of, Invocation, InvocationView};
use crate::editor::{editor_of, editor_program};

verus! {

/// What `String::from_utf8_lossy` of the standard library returns for a byte
/// string: the text that the bytes encode, with a replacement character in
/// place of what is no valid UTF-8.
pub uninterp spec fn lossy_text(bytes: Seq<u8>) -> Seq<char>;

/// `String::from_utf8_lossy` of the standard library, with its result as an
/// owned string. Its result is a function of the bytes alone; nothing more
/// is claimed of it than that it is `lossy_text`.
#[verifier::external_body]
fn text_from_bytes(bytes: &[u8]) -> (text: String)
    ensures
        text@ == lossy_text(bytes@),
{
    String::from_utf8_lossy(bytes).into_owned()
}

/// What `str::trim` of the standard library returns for a text: the text
/// without its leading and trailing white space.
pub uninterp spec fn trimmed(text: Seq<char>) -> Seq<char>;

/// `str::trim` of the standard library. Its result is a function of the
/// text alone; nothing more is claimed of it than that it is `trimmed`.
#[verifier::external_body]
fn trim<'a>(text: &'a str) -> (kept: &'a str)
    ensures
        kept@ == trimmed(text@),
{
    text.trim()
}

/// The programs to look for: the renderer, the pager and the editor.
pub open spec fn tools_of(editor: Option<Seq<char>>) -> Seq<Seq<char>> {
    seq!["glow"@, "less"@, editor_of(editor)]
}

/// The lookup of a program on the search path.
pub open spec fn which_call(tool: Seq<char>) -> InvocationView {
    InvocationView { program: "which"@, args: seq![tool], input: None }
}

/// What is said of a program: where it was found, or that it is missing.
pub open spec fn message_for(path: Option<Seq<char>>) -> Seq<char> {
    match path {
        Some(path) => "ok ("@ + path + ")"@,
        None => "missing"@,
    }
}

/// The line of report for one program.
pub open spec fn line_for(tool: Seq<char>, path: Option<Seq<char>>) -> Seq<char> {
    "health-check: "@ + tool + " - "@ + message_for(path) + "!"@
}

/// A program is reported as missing exactly when it was not found.
pub proof fn lemma_missing_only_when_absent(path: Option<Seq<char>>)
    ensures
        message_for(path) == "missing"@ <==> path is None,
{
    reveal_strlit("ok (");
    reveal_strlit("missing");
    if let Some(found) = path {
        assert(("ok ("@ + found + ")"@)[0] == 'o');
        assert("missing"@[0] == 'm');
    }
}

/// The programs to look for, given the editor that the `EDITOR` variable
/// names, if it is set.
pub fn health_tools(editor: Option<&str>) -> (tools: Vec<String>)
    ensures
        tools.deep_view() == tools_of(text_of(editor)),
{
    let mut tools: Vec<String> = Vec::new();
    tools.push(String::from_str("glow"));
    tools.push(String::from_str("less"));
    tools.push(editor_program(editor));
    assert(tools.deep_view() =~= tools_of(text_of(editor)));
    tools
}

/// How to look a program up on the search path.
pub fn which(tool: &str) -> (call: Invocation)
    ensures
        call@ == which_call(tool@),
{
    let mut args: Vec<String> = Vec::new();
    args.push(String::from_str(tool));
    let call = Invocation { program: String::from_str("which"), args, input: None };
    assert(call.args.deep_view() =~= seq![tool@]);
    call
}

/// What is said of a program that was found at `path`, or was not found.
pub fn health_message(path: Option<&str>) -> (message: String)
    ensures
        message@ == message_for(text_of(path)),
        message@ == "missing"@ <==> path is None,
{
    proof {
        lemma_missing_only_when_absent(text_of(path));
    }
    match path {
        Some(path) => String::from_str("ok (").concat(path).concat(")"),
        None => String::from_str("missing"),
    }
}

/// The line of report for a program that was found at `path`, or was not
/// found.
pub fn health_line(tool: &str, path: Option<&str>) -> (line: String)
    ensures
        line@ == line_for(tool@, text_of(path)),
{
    let message = health_message(path);
    String::from_str("health-check: ").concat(tool).concat(" - ").concat(message.as_str()).concat(
        "!",
    )
}

/// The line of report for one program, from the outcome of its lookup:
/// whether the lookup succeeded and what it printed. The path reported is
/// what was printed, read as text and trimmed.
pub fn health_check(tool: &str, found: bool, output: &[u8]) -> (line: String)
    ensures
        found ==> line@ == line_for(tool@, Some(trimmed(lossy_text(output@)))),
        !found ==> line@ == line_for(tool@, None),
{
    if found {
        let printed = text_from_bytes(output);
        health_line(tool, Some(trim(printed.as_str())))
    } else {
        health_line(tool, None)
    }
}

} // verus!
