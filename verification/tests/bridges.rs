use hmm::command::Invocation;
use hmm::editor::{edit_item, editor_program, EditAction, EditEvent, EditState};
use hmm::error::Error;
use hmm::health::{health_check, health_line, health_message, health_tools, which};
use hmm::viewer::{glow_md, less_md, present_docs, ViewAction, ViewEvent, ViewState};

fn text(s: &str) -> String {
    s.to_string()
}

fn glow(content: &str) -> Invocation {
    Invocation { program: text("glow"), args: vec![text("-p"), text("-")], input: Some(text(content)) }
}

fn less(content: &str) -> Invocation {
    Invocation { program: text("less"), args: vec![text("-r"), text("-")], input: Some(text(content)) }
}

#[test]
fn renderer_and_pager_read_from_standard_input() {
    assert_eq!(glow_md("# ls"), glow("# ls"));
    assert_eq!(less_md("# ls"), less("# ls"));
}

#[test]
fn showing_starts_with_the_renderer() {
    assert_eq!(
        present_docs("# ls", ViewState::Start, ViewEvent::Begin),
        (ViewState::Rendering, ViewAction::Run { call: glow("# ls"), warning: None })
    );
}

#[test]
fn showing_ends_when_the_renderer_succeeds() {
    assert_eq!(
        present_docs("# ls", ViewState::Rendering, ViewEvent::Exited(true)),
        (ViewState::Finished, ViewAction::Finish)
    );
}

#[test]
fn showing_falls_back_to_the_pager() {
    assert_eq!(
        present_docs("# ls", ViewState::Rendering, ViewEvent::Failed(text("not found"))),
        (
            ViewState::Paging,
            ViewAction::Run {
                call: less("# ls"),
                warning: Some(text(
                    "failed to display doc entry using glow, try running --health-check: not found"
                )),
            }
        )
    );
    assert_eq!(
        present_docs("# ls", ViewState::Paging, ViewEvent::Exited(true)),
        (ViewState::Finished, ViewAction::Finish)
    );
}

#[test]
fn showing_gives_up_when_both_fail() {
    assert_eq!(
        present_docs("# ls", ViewState::Paging, ViewEvent::Failed(text("broken pipe"))),
        (
            ViewState::Finished,
            ViewAction::GiveUp { report: text("failed to display doc entry: broken pipe") }
        )
    );
}

#[test]
fn showing_ignores_what_comes_out_of_turn() {
    assert_eq!(
        present_docs("# ls", ViewState::Start, ViewEvent::Exited(true)),
        (ViewState::Finished, ViewAction::Finish)
    );
    assert_eq!(
        present_docs("# ls", ViewState::Rendering, ViewEvent::Begin),
        (ViewState::Finished, ViewAction::Finish)
    );
    assert_eq!(
        present_docs("# ls", ViewState::Finished, ViewEvent::Failed(text("late"))),
        (ViewState::Finished, ViewAction::Finish)
    );
}

#[test]
fn editor_defaults_to_vi() {
    assert_eq!(editor_program(None), "vi");
    assert_eq!(editor_program(Some("nano")), "nano");
    assert_eq!(editor_program(Some("")), "");
}

#[test]
fn edit_runs_through_all_steps() {
    let (state, action) = edit_item("# ls", Some("nano"), EditState::Start, EditEvent::Begin);
    assert_eq!(action, EditAction::CreateScratch { file_name: text("edit_file.yml") });
    assert_eq!(state, EditState::Creating);
    let (state, action) = edit_item("# ls", Some("nano"), state, EditEvent::Succeeded);
    assert_eq!(action, EditAction::WriteScratch { text: text("# ls") });
    assert_eq!(state, EditState::Writing);
    let (state, action) = edit_item("# ls", Some("nano"), state, EditEvent::Succeeded);
    assert_eq!(action, EditAction::LaunchEditor { program: text("nano") });
    assert_eq!(state, EditState::Launching);
    let (state, action) = edit_item("# ls", Some("nano"), state, EditEvent::Exited(true));
    assert_eq!(action, EditAction::ReadScratch);
    assert_eq!(state, EditState::Reading);
    let (state, action) =
        edit_item("# ls", Some("nano"), state, EditEvent::Text(text("# ls\nlist files\n")));
    assert_eq!(action, EditAction::RemoveScratch);
    assert_eq!(state, EditState::Removing(text("# ls\nlist files\n")));
    let (state, action) = edit_item("# ls", Some("nano"), state, EditEvent::Succeeded);
    assert_eq!(action, EditAction::Return(text("# ls\nlist files\n")));
    assert_eq!(state, EditState::Finished);
}

#[test]
fn edit_launches_vi_without_a_configured_editor() {
    assert_eq!(
        edit_item("", None, EditState::Writing, EditEvent::Succeeded),
        (EditState::Launching, EditAction::LaunchEditor { program: text("vi") })
    );
}

#[test]
fn edit_writes_the_note_as_it_is() {
    assert_eq!(
        edit_item("", None, EditState::Creating, EditEvent::Succeeded),
        (EditState::Writing, EditAction::WriteScratch { text: text("") })
    );
    assert_eq!(
        edit_item("a\nb\n", None, EditState::Creating, EditEvent::Succeeded),
        (EditState::Writing, EditAction::WriteScratch { text: text("a\nb\n") })
    );
}

#[test]
fn edit_fails_when_the_scratch_file_cannot_be_created() {
    assert_eq!(
        edit_item("# ls", None, EditState::Creating, EditEvent::Failed(text("permission denied"))),
        (
            EditState::Finished,
            EditAction::Fail(Error::FailedCreatingTempFile(text("permission denied")))
        )
    );
}

#[test]
fn edit_fails_when_the_scratch_file_cannot_be_written() {
    assert_eq!(
        edit_item("# ls", None, EditState::Writing, EditEvent::Failed(text("disk full"))),
        (
            EditState::Finished,
            EditAction::Fail(Error::FailedWritingTempFileContent(text("disk full")))
        )
    );
}

#[test]
fn edit_fails_when_the_editor_cannot_be_started() {
    assert_eq!(
        edit_item("# ls", None, EditState::Launching, EditEvent::Failed(text("not found"))),
        (EditState::Finished, EditAction::Fail(Error::FailedEditorLaunch))
    );
}

#[test]
fn edit_fails_when_the_editor_exits_with_a_failure_status() {
    assert_eq!(
        edit_item("# ls", None, EditState::Launching, EditEvent::Exited(false)),
        (EditState::Finished, EditAction::Fail(Error::FailedEditorLaunch))
    );
}

#[test]
fn edit_is_abandoned_on_a_failure_without_a_name() {
    assert_eq!(
        edit_item("# ls", None, EditState::Reading, EditEvent::Failed(text("invalid utf-8"))),
        (EditState::Finished, EditAction::Abandon)
    );
    assert_eq!(
        edit_item("# ls", None, EditState::Removing(text("x")), EditEvent::Failed(text("gone"))),
        (EditState::Finished, EditAction::Abandon)
    );
}

#[test]
fn edit_ignores_what_comes_out_of_turn() {
    assert_eq!(
        edit_item("# ls", None, EditState::Start, EditEvent::Succeeded),
        (EditState::Finished, EditAction::Abandon)
    );
    assert_eq!(
        edit_item("# ls", None, EditState::Reading, EditEvent::Succeeded),
        (EditState::Finished, EditAction::Abandon)
    );
    assert_eq!(
        edit_item("# ls", None, EditState::Launching, EditEvent::Succeeded),
        (EditState::Finished, EditAction::Abandon)
    );
    assert_eq!(
        edit_item("# ls", None, EditState::Writing, EditEvent::Exited(true)),
        (EditState::Finished, EditAction::Abandon)
    );
    assert_eq!(
        edit_item("# ls", None, EditState::Creating, EditEvent::Text(text("x"))),
        (EditState::Finished, EditAction::Abandon)
    );
    assert_eq!(
        edit_item("# ls", None, EditState::Finished, EditEvent::Begin),
        (EditState::Finished, EditAction::Abandon)
    );
}

#[test]
fn error_messages() {
    assert_eq!(Error::FailedEditorLaunch.message(), "failed during launch of default editor");
    assert_eq!(
        Error::FailedWritingTempFileContent(text("disk full")).message(),
        "failed to write content to temp file: disk full"
    );
    assert_eq!(
        Error::FailedCreatingTempFile(text("permission denied")).message(),
        "failed to create temp file: permission denied"
    );
    assert_eq!(Error::NoCommandProvided.message(), "no command was provided");
}

#[test]
fn health_check_looks_for_three_tools() {
    assert_eq!(health_tools(None), vec![text("glow"), text("less"), text("vi")]);
    assert_eq!(health_tools(Some("hx")), vec![text("glow"), text("less"), text("hx")]);
}

#[test]
fn health_check_looks_tools_up_with_which() {
    assert_eq!(
        which("glow"),
        Invocation { program: text("which"), args: vec![text("glow")], input: None }
    );
}

#[test]
fn health_check_reports_all_tools_present() {
    let found = [
        ("glow", "/usr/bin/glow\n"),
        ("less", "/usr/bin/less\n"),
        ("vi", "/usr/bin/vi\n"),
    ];
    let lines: Vec<String> =
        found.iter().map(|(tool, output)| health_check(tool, true, output.as_bytes())).collect();
    assert_eq!(
        lines,
        vec![
            text("health-check: glow - ok (/usr/bin/glow)!"),
            text("health-check: less - ok (/usr/bin/less)!"),
            text("health-check: vi - ok (/usr/bin/vi)!"),
        ]
    );
}

#[test]
fn health_check_reports_only_the_absent_tool_as_missing() {
    assert_eq!(health_check("glow", false, b""), "health-check: glow - missing!");
    assert_eq!(
        health_check("less", true, b"/usr/bin/less\n"),
        "health-check: less - ok (/usr/bin/less)!"
    );
    assert_eq!(health_check("vi", true, b"/usr/bin/vi\n"), "health-check: vi - ok (/usr/bin/vi)!");
}

#[test]
fn health_check_trims_the_path() {
    assert_eq!(
        health_check("glow", true, b"  /opt/my tools/glow \r\n\n"),
        "health-check: glow - ok (/opt/my tools/glow)!"
    );
    assert_eq!(health_check("glow", true, b"\n"), "health-check: glow - ok ()!");
    assert_eq!(health_check("glow", false, b"/usr/bin/glow\n"), "health-check: glow - missing!");
}

#[test]
fn health_check_reads_the_path_as_text() {
    assert_eq!(
        health_check("glow", true, "/opt/werkzeug/gl\u{f6}w\n".as_bytes()),
        "health-check: glow - ok (/opt/werkzeug/gl\u{f6}w)!"
    );
    assert_eq!(
        health_check("glow", true, b"/opt/gl\xffow\n"),
        "health-check: glow - ok (/opt/gl\u{fffd}ow)!"
    );
}

#[test]
fn health_message_and_line() {
    assert_eq!(health_message(Some("/usr/bin/glow")), "ok (/usr/bin/glow)");
    assert_eq!(health_message(Some("missing")), "ok (missing)");
    assert_eq!(health_message(None), "missing");
    assert_eq!(health_line("glow", Some(" /usr/bin/glow\n")), "health-check: glow - ok ( /usr/bin/glow\n)!");
    assert_eq!(health_line("glow", None), "health-check: glow - missing!");
}

#[test]
fn whole_showing_with_a_failing_renderer() {
    let mut ran: Vec<String> = Vec::new();
    let mut said: Vec<String> = Vec::new();
    let mut state = ViewState::Start;
    let mut event = ViewEvent::Begin;
    loop {
        let (next, action) = present_docs("# ls", state, event);
        state = next;
        event = match action {
            ViewAction::Run { call, warning } => {
                said.extend(warning);
                assert_eq!(call.input, Some(text("# ls")));
                ran.push(call.program.clone());
                if call.program == "glow" {
                    ViewEvent::Failed(text("No such file or directory"))
                } else {
                    ViewEvent::Exited(true)
                }
            }
            ViewAction::GiveUp { report } => panic!("gave up: {report}"),
            ViewAction::Finish => break,
        };
    }
    assert_eq!(ran, vec![text("glow"), text("less")]);
    assert_eq!(
        said,
        vec![text(
            "failed to display doc entry using glow, try running --health-check: \
             No such file or directory"
        )]
    );
    assert_eq!(state, ViewState::Finished);
}

#[test]
fn whole_edit_with_a_stand_in_editor() {
    let mut scratch: Option<String> = None;
    let mut state = EditState::Start;
    let mut event = EditEvent::Begin;
    let edited = loop {
        let (next, action) = edit_item("# ls", Some("ed"), state, event);
        state = next;
        event = match action {
            EditAction::CreateScratch { file_name } => {
                assert_eq!(file_name, "edit_file.yml");
                scratch = Some(String::new());
                EditEvent::Succeeded
            }
            EditAction::WriteScratch { text } => {
                scratch = Some(text);
                EditEvent::Succeeded
            }
            EditAction::LaunchEditor { program } => {
                assert_eq!(program, "ed");
                scratch = scratch.map(|text| format!("{text}\nlist files\n"));
                EditEvent::Exited(true)
            }
            EditAction::ReadScratch => EditEvent::Text(scratch.clone().unwrap()),
            EditAction::RemoveScratch => {
                scratch = None;
                EditEvent::Succeeded
            }
            EditAction::Return(text) => break text,
            other => panic!("unexpected action {other:?}"),
        };
    };
    assert_eq!(edited, "# ls\nlist files\n");
    assert_eq!(scratch, None);
    assert_eq!(state, EditState::Finished);
}

#[test]
fn untouched_edit_returns_the_note() {
    let note = "# ls\nlist files";
    let mut scratch: Option<String> = None;
    let mut launched = 0;
    let mut state = EditState::Start;
    let mut event = EditEvent::Begin;
    let edited = loop {
        let (next, action) = edit_item(note, None, state, event);
        state = next;
        event = match action {
            EditAction::CreateScratch { .. } => {
                scratch = Some(String::new());
                EditEvent::Succeeded
            }
            EditAction::WriteScratch { text } => {
                scratch = Some(text);
                EditEvent::Succeeded
            }
            EditAction::LaunchEditor { program } => {
                assert_eq!(program, "vi");
                assert_eq!(scratch, Some(text(note)));
                launched += 1;
                EditEvent::Exited(true)
            }
            EditAction::ReadScratch => EditEvent::Text(scratch.clone().unwrap()),
            EditAction::RemoveScratch => {
                scratch = None;
                EditEvent::Succeeded
            }
            EditAction::Return(text) => break text,
            other => panic!("unexpected action {other:?}"),
        };
    };
    assert_eq!(edited, note);
    assert_eq!(launched, 1);
    assert_eq!(scratch, None);
}

#[test]
fn showing_falls_back_when_the_renderer_exits_unsuccessfully() {
    assert_eq!(
        present_docs("# ls", ViewState::Rendering, ViewEvent::Exited(false)),
        (
            ViewState::Paging,
            ViewAction::Run {
                call: less("# ls"),
                warning: Some(text(
                    "failed to display doc entry using glow, try running --health-check: \
                     the program exited with a failure status"
                )),
            }
        )
    );
}

#[test]
fn showing_gives_up_when_the_pager_exits_unsuccessfully() {
    assert_eq!(
        present_docs("# ls", ViewState::Paging, ViewEvent::Exited(false)),
        (
            ViewState::Finished,
            ViewAction::GiveUp {
                report: text(
                    "failed to display doc entry: the program exited with a failure status"
                )
            }
        )
    );
}

#[test]
fn whole_showing_with_a_renderer_that_exits_unsuccessfully() {
    let mut ran: Vec<String> = Vec::new();
    let mut state = ViewState::Start;
    let mut event = ViewEvent::Begin;
    loop {
        let (next, action) = present_docs("# ls", state, event);
        state = next;
        event = match action {
            ViewAction::Run { call, .. } => {
                assert_eq!(call.input, Some(text("# ls")));
                ran.push(call.program.clone());
                ViewEvent::Exited(call.program == "less")
            }
            ViewAction::GiveUp { report } => panic!("gave up: {report}"),
            ViewAction::Finish => break,
        };
    }
    assert_eq!(ran, vec![text("glow"), text("less")]);
    assert_eq!(state, ViewState::Finished);
}

#[test]
fn whole_showing_with_both_programs_failing() {
    let mut ran: Vec<String> = Vec::new();
    let mut reports: Vec<String> = Vec::new();
    let mut state = ViewState::Start;
    let mut event = ViewEvent::Begin;
    loop {
        let (next, action) = present_docs("# ls", state, event);
        state = next;
        event = match action {
            ViewAction::Run { call, .. } => {
                ran.push(call.program.clone());
                ViewEvent::Exited(false)
            }
            ViewAction::GiveUp { report } => {
                reports.push(report);
                ViewEvent::Exited(true)
            }
            ViewAction::Finish => break,
        };
    }
    assert_eq!(ran, vec![text("glow"), text("less")]);
    assert_eq!(
        reports,
        vec![text("failed to display doc entry: the program exited with a failure status")]
    );
}
