//! The surface of the agent: approvals, terminal output, arguments, state
//! directories and scripted models.

use std::io::{self, BufRead, Cursor, Read};

use young_agent::approval::{
    decide_line, decode_approval_line, ApprovalDialog, ApprovalInput, ApprovalLine, DialogInput,
    DialogPhase, Received, MAX_APPROVAL_INPUT_BYTES,
};
use young_agent::args::{
    parse_args, usage, CliArgument, CliOptions, ParseResult, SignalAction,
};
use young_agent::cli::{handle_signal, new_run_id, CliError, CliExitStatus};
use young_agent::command_run::Platform;
use young_agent::fake_provider::{
    check_script_length, unscripted_turn, validate, FakeProviderError, MAX_EVENTS_PER_TURN,
    MAX_SCRIPT_BYTES, MAX_SCRIPT_EVENTS, MAX_SCRIPT_TURNS,
};
use young_agent::io_failure::{ErrorKind, IoFailure};
use young_agent::model::{ModelError, ModelStreamEvent, ModelToolCall, ModelUsage};
use young_agent::run::{
    AgentError, AgentEvent, ApprovalDecision, ApprovalRequest, RunId, TerminalRunStatus, ToolCall,
    ToolResult, TurnId,
};
use young_agent::state::{
    absolute_directory, location, state_directory, DirectoryEvent, DirectoryPhase, EntryFacts,
    EventLogLocation, PrivateDirectory, StateEnvironment, StateError,
};
use young_agent::stop::RunStopToken;
use young_agent::terminal::{
    after_rendering, lines_after_append, render_event, render_model_event,
    render_terminal_status, terminal_safe, PromptReset, RenderedLine, TerminalOutput,
};
use young_agent::tool::{ToolContent, ToolError, ToolOutput};

fn failure(message: &str) -> IoFailure {
    IoFailure::new(ErrorKind::Other, message)
}

fn approval_request() -> ApprovalRequest {
    ApprovalRequest {
        id: "approval-001".to_string(),
        call: ToolCall {
            id: "tool-001".to_string(),
            tool_name: "run_command".to_string(),
            arguments: "{\"command\":\"touch approved.txt\"}".to_string(),
        },
        reason: "command mutates the workspace".to_string(),
    }
}

/// A terminal that shows what is written, or fails.
struct Screen {
    output: TerminalOutput,
    shown: String,
    refuses: fn(&str) -> Option<&'static str>,
}

fn accepts(_text: &str) -> Option<&'static str> {
    None
}

fn refuses_all(_text: &str) -> Option<&'static str> {
    Some("terminal unavailable")
}

fn refuses_corrections(text: &str) -> Option<&'static str> {
    if text.contains("enter 'y'") {
        Some("correction unavailable")
    } else {
        None
    }
}

impl Screen {
    fn new(reset_before_approval: bool, refuses: fn(&str) -> Option<&'static str>) -> Screen {
        Screen {
            output: TerminalOutput::new(reset_before_approval),
            shown: String::new(),
            refuses,
        }
    }

    fn write(&mut self, text: &str) -> bool {
        let outcome = match (self.refuses)(text) {
            Some(message) => Err(failure(message)),
            None => {
                self.shown.push_str(text);
                Ok(())
            }
        };
        self.output.written(outcome)
    }

    fn line(&mut self, value: &str) -> bool {
        match self.output.line(value) {
            Some(text) => self.write(&text),
            None => false,
        }
    }

    fn prepare(&mut self) -> bool {
        match self.output.prepare_approval_prompt() {
            PromptReset::Refused => false,
            PromptReset::NotNeeded => true,
            PromptReset::Write(text) => self.write(&text),
        }
    }
}

fn decide_on(screen: &mut Screen, inputs: Vec<ApprovalInput>, cancelled: bool) -> ApprovalDecision {
    let request = approval_request();
    let mut dialog = ApprovalDialog::new(&request);
    let mut inputs = inputs.into_iter();
    loop {
        match dialog.phase() {
            DialogPhase::Prepare => {
                let done = screen.prepare();
                dialog.advance(DialogInput::Written(done));
            }
            DialogPhase::Prompt(_) | DialogPhase::Correct => {
                let line = dialog.line().expect("a line is due");
                let done = screen.line(&line);
                dialog.advance(DialogInput::Written(done));
            }
            DialogPhase::PollCancellation => dialog.advance(DialogInput::Cancellation(cancelled)),
            DialogPhase::AwaitInput => {
                let received = match inputs.next() {
                    Some(input) => Received::Input(input),
                    None => Received::Disconnected,
                };
                dialog.advance(DialogInput::Received(received));
            }
            DialogPhase::Decided => return dialog.into_decision().expect("a decision is made"),
        }
    }
}

fn decide(inputs: Vec<ApprovalInput>, cancelled: bool) -> ApprovalDecision {
    decide_on(&mut Screen::new(false, accepts), inputs, cancelled)
}

fn assert_denied_contains(decision: ApprovalDecision, expected: &str) {
    match decision {
        ApprovalDecision::Deny { reason } => assert!(
            reason.contains(expected),
            "denial reason '{reason}' did not contain '{expected}'"
        ),
        ApprovalDecision::Approve => panic!("approval should have been denied"),
    }
}

/// Reads one input of an approval from `reader`.
fn read_approval_input(reader: &mut impl BufRead) -> ApprovalInput {
    let mut line = ApprovalLine::new();
    loop {
        let step = match reader.fill_buf() {
            Ok(buffer) => line.after_fill(Ok(buffer)),
            Err(error) => line.after_fill(Err(failure(&error.to_string()))),
        };
        reader.consume(step.consumed);
        if let Some(input) = step.input {
            return input;
        }
    }
}

#[test]
fn oversized_approval_line_returns_immediately_without_draining_the_source() {
    let mut source = vec![b'x'; MAX_APPROVAL_INPUT_BYTES + 1];
    source.resize(MAX_APPROVAL_INPUT_BYTES * 5, b'x');
    let mut reader = Cursor::new(source);

    assert!(matches!(
        read_approval_input(&mut reader),
        ApprovalInput::TooLong
    ));
    assert_eq!(reader.position(), MAX_APPROVAL_INPUT_BYTES as u64);
}

#[test]
fn approval_input_distinguishes_lines_eof_and_invalid_utf8() {
    let mut line = Cursor::new(b"yes\nremaining".to_vec());
    assert!(matches!(
        read_approval_input(&mut line),
        ApprovalInput::Line(value) if value == "yes\n"
    ));
    assert_eq!(line.position(), 4);

    let mut final_line = Cursor::new(b"no".to_vec());
    assert!(matches!(
        read_approval_input(&mut final_line),
        ApprovalInput::Line(value) if value == "no"
    ));

    let mut empty = Cursor::new(Vec::<u8>::new());
    assert!(matches!(
        read_approval_input(&mut empty),
        ApprovalInput::Eof
    ));

    assert!(matches!(
        decode_approval_line(&[0xff]),
        ApprovalInput::Error(error) if error.kind == ErrorKind::InvalidData
    ));
}

struct BrokenReader;

impl Read for BrokenReader {
    fn read(&mut self, _buffer: &mut [u8]) -> io::Result<usize> {
        Err(io::Error::other("input failed"))
    }
}

impl BufRead for BrokenReader {
    fn fill_buf(&mut self) -> io::Result<&[u8]> {
        Err(io::Error::other("input failed"))
    }

    fn consume(&mut self, _amount: usize) {}
}

#[test]
fn approval_input_preserves_reader_errors() {
    assert!(matches!(
        read_approval_input(&mut BrokenReader),
        ApprovalInput::Error(error) if error.message == "input failed"
    ));
}

#[test]
fn approval_lines_do_not_depend_on_the_pieces_they_come_in() {
    let bytes = "ja\u{e4}, yes\n".as_bytes();
    for cut in 1..bytes.len() {
        let mut line = ApprovalLine::new();
        let first = line.feed(&bytes[..cut]);
        assert_eq!(first.consumed, cut);
        assert!(first.input.is_none());
        let second = line.feed(&bytes[cut..]);
        assert_eq!(
            second.input,
            Some(ApprovalInput::Line("ja\u{e4}, yes\n".to_string()))
        );
    }
}

#[test]
fn a_line_of_exactly_the_limit_is_read() {
    let mut source = vec![b'x'; MAX_APPROVAL_INPUT_BYTES - 1];
    source.push(b'\n');
    let mut reader = Cursor::new(source);
    assert!(matches!(
        read_approval_input(&mut reader),
        ApprovalInput::Line(line) if line.len() == MAX_APPROVAL_INPUT_BYTES
    ));
}

#[test]
fn invalid_text_is_reported_with_its_cause() {
    let ApprovalInput::Error(error) = decode_approval_line(b"yes\xff") else {
        panic!("bytes that are no text must be refused");
    };
    assert_eq!(
        error.message,
        "approval input is not UTF-8: invalid utf-8 sequence of 1 bytes from index 3"
    );
}

#[test]
fn approval_control_handles_every_input_terminal_state() {
    assert_eq!(
        decide(vec![ApprovalInput::Line("yes\n".to_string())], false),
        ApprovalDecision::Approve
    );
    assert_denied_contains(
        decide(vec![ApprovalInput::Line("n\n".to_string())], false),
        "user denied",
    );
    assert_denied_contains(
        decide(vec![ApprovalInput::Line("\n".to_string())], false),
        "user denied",
    );
    assert_denied_contains(decide(vec![ApprovalInput::Eof], false), "input closed");
    assert_denied_contains(
        decide(vec![ApprovalInput::TooLong], false),
        "input exceeded",
    );
    assert_denied_contains(
        decide(vec![ApprovalInput::Error(failure("reader failed"))], false),
        "reader failed",
    );
    assert_denied_contains(decide(Vec::new(), false), "input disconnected");
    assert_denied_contains(
        decide(vec![ApprovalInput::Line("yes\n".to_string())], true),
        "wait stopped",
    );

    assert_eq!(
        decide(
            vec![
                ApprovalInput::Line("maybe\n".to_string()),
                ApprovalInput::Line("y\n".to_string()),
            ],
            false,
        ),
        ApprovalDecision::Approve
    );
}

#[test]
fn approval_control_denies_when_the_prompt_cannot_be_written() {
    let mut screen = Screen::new(true, refuses_all);
    assert_denied_contains(
        decide_on(&mut screen, Vec::new(), false),
        "terminal output failed",
    );
}

#[test]
fn approval_control_denies_when_invalid_input_cannot_be_corrected() {
    let mut screen = Screen::new(false, refuses_corrections);
    assert_denied_contains(
        decide_on(
            &mut screen,
            vec![ApprovalInput::Line("maybe\n".to_string())],
            false,
        ),
        "terminal output failed during approval decision",
    );
}

#[test]
fn the_approval_prompt_shows_the_exact_call() {
    let mut screen = Screen::new(true, accepts);
    decide_on(
        &mut screen,
        vec![ApprovalInput::Line("Y\r\n".to_string())],
        false,
    );
    assert_eq!(
        screen.shown,
        "\u{1b}[0m[approval-prompt] approval-001 run_command\n  arguments: \
         {\"command\":\"touch approved.txt\"}\n  reason: command mutates the workspace\n\
         Approve? [y/N]\n"
    );
}

#[test]
fn only_a_yes_approves() {
    for line in ["y", "yes", " YES \n", "\tY\r\n"] {
        assert_eq!(decide_line(line), Some(ApprovalDecision::Approve), "{line:?}");
    }
    for line in ["", "n", "no", " No\n", "\u{a0}\n"] {
        assert_eq!(
            decide_line(line),
            Some(ApprovalDecision::Deny {
                reason: "user denied the tool call".to_string()
            }),
            "{line:?}"
        );
    }
    for line in ["yess", "y n", "\u{ff59}", "approve"] {
        assert_eq!(decide_line(line), None, "{line:?}");
    }
}

#[test]
fn terminal_safe_writer_escapes_control_and_bidi_characters() {
    let rendered = terminal_safe("plain\0\u{007f}\u{061c}\u{200b}\u{202e}\u{2060}\u{feff}\nend");

    for escaped in [
        r"\u{0000}",
        r"\u{007f}",
        r"\u{061c}",
        r"\u{200b}",
        r"\u{202e}",
        r"\u{2060}",
        r"\u{feff}",
        r"\u{000a}",
    ] {
        assert!(rendered.contains(escaped), "missing {escaped}: {rendered}");
    }
    assert!(rendered.starts_with("plain"));
    assert!(rendered.ends_with("end"));
}

#[test]
fn plain_text_reaches_the_terminal_unchanged() {
    assert_eq!(terminal_safe("h\u{e9}llo \u{4e16}\u{754c}!"), "h\u{e9}llo \u{4e16}\u{754c}!");
    assert_eq!(terminal_safe("\u{1b}[31m"), "\\u{001b}[31m");
}

#[test]
fn terminal_output_latches_write_and_prompt_failures() {
    let mut output = Screen::new(false, refuses_all);
    assert!(!output.line("first"));
    assert!(!output.line("second"));
    assert!(!output.prepare());
    assert_eq!(
        output
            .output
            .take_error()
            .expect("write failure should be retained")
            .message,
        "terminal unavailable"
    );

    let mut prompt = Screen::new(true, refuses_all);
    assert!(!prompt.prepare());
    assert!(prompt.output.take_error().is_some());
}

#[test]
fn model_event_rendering_covers_stream_metadata_variants() {
    let mut output = Screen::new(false, accepts);
    let events = [
        ModelStreamEvent::Started { request_id: None, extensions: Vec::new() },
        ModelStreamEvent::Started {
            request_id: Some("request-001".to_string()),
            extensions: Vec::new(),
        },
        ModelStreamEvent::ToolCallDelta {
            id: "call-001".to_string(),
            name: None,
            arguments_delta: "{\"command\":".to_string(),
            extensions: Vec::new(),
        },
        ModelStreamEvent::ToolCallDelta {
            id: "call-001".to_string(),
            name: Some("run_command".to_string()),
            arguments_delta: "\"cargo test\"}".to_string(),
            extensions: Vec::new(),
        },
        ModelStreamEvent::ToolCall {
            call: ModelToolCall {
                id: "call-001".to_string(),
                name: "run_command".to_string(),
                arguments: "{\"command\":\"cargo test\"}".to_string(),
            },
            extensions: Vec::new(),
        },
        ModelStreamEvent::Usage {
            usage: ModelUsage {
                input_tokens: 12,
                output_tokens: 34,
            },
            extensions: Vec::new(),
        },
        ModelStreamEvent::Completed { finish_reason: None, extensions: Vec::new() },
        ModelStreamEvent::Failed {
            error: ModelError {
                code: "provider_error".to_string(),
                message: "unavailable".to_string(),
                retryable: true,
            },
            extensions: Vec::new(),
        },
    ];

    for event in &events {
        assert!(output.line(&render_model_event(event)));
    }

    let rendered = output.shown;
    assert!(rendered.contains("[model] started\n"));
    assert!(rendered.contains("[model] started request-001"));
    assert!(rendered.contains("[model-tool-delta] call-001 <pending>"));
    assert!(rendered.contains("[model-tool-call] call-001 run_command"));
    assert!(rendered.contains("[usage] input=12 output=34"));
    assert!(rendered.contains("[model] completed\n"));
    assert!(rendered.contains("[model-error] provider_error: unavailable"));
}

fn texts(lines: Vec<RenderedLine>) -> Vec<String> {
    lines
        .into_iter()
        .map(|line| match line {
            RenderedLine::Text(text) => text,
            RenderedLine::Json { label, fields } => format!("{label}{} fields", fields.len()),
        })
        .collect()
}

fn events_of_a_run() -> Vec<(AgentEvent, Vec<&'static str>)> {
    let run_id = RunId::new("run-1".to_string());
    let turn_id = TurnId::new("turn-1".to_string());
    let call = approval_request().call;
    vec![
        (
            AgentEvent::RunStarted { run_id: run_id.clone(), extensions: Vec::new() },
            vec!["[run] started run-1"],
        ),
        (
            AgentEvent::TurnStarted { run_id: run_id.clone(), turn_id: turn_id.clone(), extensions: Vec::new() },
            vec!["[turn] started turn-1"],
        ),
        (
            AgentEvent::ModelOutput {
                run_id: run_id.clone(),
                turn_id: turn_id.clone(),
                event: ModelStreamEvent::Completed { finish_reason: Some("stop".to_string()), extensions: Vec::new() },
                extensions: Vec::new(),
            },
            vec!["[model] completed (stop)"],
        ),
        (
            AgentEvent::ToolCallRequested {
                run_id: run_id.clone(),
                turn_id: turn_id.clone(),
                model_tool_call_id: "call-1".to_string(),
                call,
                extensions: Vec::new(),
            },
            vec!["[tool-call] tool-001 run_command {\"command\":\"touch approved.txt\"}"],
        ),
        (
            AgentEvent::ApprovalRequested {
                run_id: run_id.clone(),
                turn_id: turn_id.clone(),
                request: approval_request(),
                extensions: Vec::new(),
            },
            vec!["[approval] requested approval-001 for run_command: command mutates the workspace"],
        ),
        (
            AgentEvent::ApprovalResolved {
                run_id: run_id.clone(),
                turn_id: turn_id.clone(),
                approval_id: "approval-001".to_string(),
                decision: ApprovalDecision::Deny { reason: "no".to_string() },
                extensions: Vec::new(),
            },
            vec!["[approval] approval-001 denied: no"],
        ),
        (
            AgentEvent::ApprovalResolved {
                run_id: run_id.clone(),
                turn_id: turn_id.clone(),
                approval_id: "approval-001".to_string(),
                decision: ApprovalDecision::Approve,
                extensions: Vec::new(),
            },
            vec!["[approval] approval-001 approved"],
        ),
        (
            AgentEvent::ToolResult {
                run_id: run_id.clone(),
                turn_id: turn_id.clone(),
                result: ToolResult {
                    call_id: "tool-001".to_string(),
                    output: ToolOutput::Success {
                        content: vec![
                            ToolContent::Text { text: "done".to_string() },
                            ToolContent::Json { fields: Vec::new() },
                        ],
                        metadata: Vec::new(),
                        extensions: Vec::new(),
                    },
                },
                extensions: Vec::new(),
            },
            vec![
                "[tool-result] tool-001 success",
                "[tool-output] done",
                "[tool-output] 0 fields",
            ],
        ),
        (
            AgentEvent::ToolResult {
                run_id: run_id.clone(),
                turn_id,
                result: ToolResult {
                    call_id: "tool-001".to_string(),
                    output: ToolOutput::Failure {
                        error: ToolError {
                            code: "cancelled".to_string(),
                            message: "stopped".to_string(),
                            retryable: false,
                        },
                        extensions: Vec::new(),
                    },
                },
                extensions: Vec::new(),
            },
            vec!["[tool-result] tool-001 failed cancelled: stopped"],
        ),
        (
            AgentEvent::Error {
                run_id: run_id.clone(),
                turn_id: None,
                error: AgentError {
                    code: "model_failed".to_string(),
                    message: "gone".to_string(),
                    recoverable: false,
                },
                extensions: Vec::new(),
            },
            vec!["[error] model_failed: gone"],
        ),
        (
            AgentEvent::RunFinished {
                run_id,
                status: TerminalRunStatus::Completed { final_message: "Done".to_string() },
                extensions: Vec::new(),
            },
            vec!["[status] completed: Done"],
        ),
    ]
}

#[test]
fn every_event_has_its_lines() {
    for (event, expected) in events_of_a_run() {
        assert_eq!(event.run_id().as_str(), "run-1");
        assert_eq!(texts(render_event(&event)), expected);
    }
}

#[test]
fn events_are_shown_once_they_are_recorded() {
    for (event, expected) in events_of_a_run() {
        let recorded: Result<(), String> = Ok(());
        let shown = lines_after_append(&event, recorded).expect("the event is recorded");
        assert_eq!(texts(shown), expected);
        match lines_after_append(&event, Err("disk full".to_string())) {
            Err(error) => assert_eq!(error, "disk full"),
            Ok(_) => panic!("an event that is not recorded must not be shown"),
        }
    }
}

#[test]
fn every_end_has_its_line() {
    for (status, expected) in [
        (
            TerminalRunStatus::Failed {
                error: AgentError {
                    code: "model_failed".to_string(),
                    message: "gone".to_string(),
                    recoverable: false,
                },
            },
            "[status] failed model_failed: gone",
        ),
        (
            TerminalRunStatus::Interrupted { reason: "signal".to_string() },
            "[status] interrupted: signal",
        ),
        (
            TerminalRunStatus::Cancelled { reason: "host".to_string() },
            "[status] cancelled: host",
        ),
    ] {
        assert_eq!(render_terminal_status(&status), expected);
    }
}

#[test]
fn a_run_that_cannot_be_shown_is_cancelled() {
    let mut token = RunStopToken::default();
    after_rendering(true, &mut token);
    assert!(!token.is_requested());
    after_rendering(false, &mut token);
    assert_eq!(
        token.terminal_status(),
        Some(TerminalRunStatus::Cancelled {
            reason: "terminal output failed while streaming Agent Events".to_string()
        })
    );
}

fn environment() -> StateEnvironment {
    StateEnvironment {
        platform: Platform::Linux,
        state_dir: None,
        local_app_data: None,
        xdg_state_home: None,
        home: None,
        temp_dir: "/tmp".to_string(),
        uid: 1000,
    }
}

fn locate(requested: &str) -> EventLogLocation {
    location(
        Some(requested),
        Ok("/home/young/work".to_string()),
        &environment(),
        &RunId::new("run-location".to_string()),
    )
    .expect("the path resolves")
}

#[test]
fn explicit_locations_preserve_absolute_and_resolve_relative_paths() {
    let resolved = locate("/tmp/explicit-run.jsonl");
    assert_eq!(resolved.path, "/tmp/explicit-run.jsonl");
    assert!(resolved.state_root.is_none());

    let resolved = locate("relative-run.jsonl");
    assert_eq!(resolved.path, "/home/young/work/relative-run.jsonl");
    assert!(resolved.state_root.is_none());
}

#[test]
fn a_missing_current_directory_is_reported() {
    let error = location(
        Some("relative-run.jsonl"),
        Err(failure("cwd unavailable")),
        &environment(),
        &RunId::new("run-location".to_string()),
    )
    .expect_err("a relative path needs the current directory");
    assert_eq!(error, StateError::CurrentDirectory(failure("cwd unavailable")));
}

#[test]
fn state_directories_must_be_absolute() {
    let error = absolute_directory(Platform::Linux, "TEST_STATE", "relative")
        .expect_err("relative state directory should be rejected");
    assert!(error
        .message()
        .contains("TEST_STATE must be an absolute state directory"));
    assert!(!error.has_source());
}

#[test]
fn the_first_state_variable_decides() {
    let mut surroundings = environment();
    assert_eq!(
        state_directory(&surroundings),
        Ok("/tmp/young-agent-state-1000".to_string())
    );
    surroundings.home = Some("/home/young".to_string());
    assert_eq!(
        state_directory(&surroundings),
        Ok("/home/young/.local/state/young-agent".to_string())
    );
    surroundings.xdg_state_home = Some("/xdg".to_string());
    assert_eq!(state_directory(&surroundings), Ok("/xdg/young-agent".to_string()));
    surroundings.state_dir = Some("/state".to_string());
    assert_eq!(state_directory(&surroundings), Ok("/state".to_string()));
    surroundings.state_dir = Some("state".to_string());
    assert_eq!(
        state_directory(&surroundings),
        Err(StateError::InvalidStateDirectory {
            variable: "YOUNG_AGENT_STATE_DIR",
            path: "state".to_string(),
        })
    );
}

#[test]
fn default_logs_lie_under_the_state_directory() {
    let mut surroundings = environment();
    surroundings.state_dir = Some("/state".to_string());
    let found = location(
        None,
        Err(failure("not asked for")),
        &surroundings,
        &RunId::new("run-7".to_string()),
    )
    .expect("the state directory is known");
    assert_eq!(found.state_root, Some("/state".to_string()));
    assert_eq!(found.path, "/state/runs/run-7.jsonl");
    let directories = found.directories(Platform::Linux).expect("the log has a directory");
    assert_eq!(directories.parent, "/state/runs");
    assert!(directories.private);
}

#[test]
fn root_cannot_be_reserved_as_an_event_log() {
    let error = match locate("/").directories(Platform::Linux) {
        Ok(_) => panic!("root should not be accepted as an Event Log file"),
        Err(error) => error,
    };
    assert!(matches!(error, StateError::InvalidEventLogPath { .. }));
    assert!(error.message().contains("has no parent directory"));
}

fn prepared(events: Vec<DirectoryEvent>) -> PrivateDirectory {
    let mut directory = PrivateDirectory::new("/state", Some(1000));
    for event in events {
        directory.advance(event);
    }
    assert_eq!(directory.phase(), DirectoryPhase::Finished);
    directory
}

const OWN: EntryFacts = EntryFacts {
    is_symlink: false,
    is_directory: true,
    uid: 1000,
};

#[test]
fn a_private_directory_is_accepted() {
    let directory = prepared(vec![
        DirectoryEvent::Done(Ok(())),
        DirectoryEvent::Inspected(Ok(OWN)),
        DirectoryEvent::Done(Ok(())),
        DirectoryEvent::ModeRead(Ok(0o40700)),
    ]);
    assert_eq!(directory.into_failure(), None);
}

#[test]
fn directories_of_others_are_refused() {
    let link = EntryFacts { is_symlink: true, ..OWN };
    let file = EntryFacts { is_directory: false, ..OWN };
    let foreign = EntryFacts { uid: 0, ..OWN };
    for facts in [link, file, foreign] {
        let directory = prepared(vec![
            DirectoryEvent::Done(Ok(())),
            DirectoryEvent::Inspected(Ok(facts)),
        ]);
        assert!(
            matches!(
                directory.into_failure(),
                Some(StateError::UntrustedDirectory { .. })
            ),
            "{facts:?}"
        );
    }
    let open = prepared(vec![
        DirectoryEvent::Done(Ok(())),
        DirectoryEvent::Inspected(Ok(OWN)),
        DirectoryEvent::Done(Ok(())),
        DirectoryEvent::ModeRead(Ok(0o40755)),
    ]);
    assert!(matches!(
        open.into_failure(),
        Some(StateError::UntrustedDirectory { .. })
    ));
}

#[test]
fn state_errors_expose_actionable_messages_and_sources() {
    let current = StateError::CurrentDirectory(failure("cwd unavailable"));
    assert!(current
        .message()
        .contains("failed to resolve current directory"));
    assert!(current.has_source());

    let directory = StateError::CreateEventLogDirectory {
        path: "logs".to_string(),
        source: failure("read only"),
    };
    assert!(directory
        .message()
        .contains("failed to create Event Log directory 'logs'"));
    assert!(directory.has_source());

    let invalid_log = StateError::InvalidEventLogPath {
        path: "run.jsonl".to_string(),
    };
    assert!(invalid_log.message().contains("has no parent directory"));
    assert!(!invalid_log.has_source());

    let invalid_state = StateError::InvalidStateDirectory {
        variable: "YOUNG_AGENT_STATE_DIR",
        path: "relative".to_string(),
    };
    assert!(invalid_state
        .message()
        .contains("must be an absolute state directory"));
    assert!(!invalid_state.has_source());

    let io_error = StateError::Io {
        path: "state".to_string(),
        source: failure("permission denied"),
    };
    assert!(io_error
        .message()
        .contains("failed to prepare private state directory"));
    assert!(io_error.has_source());

    let untrusted = StateError::UntrustedDirectory {
        path: "state".to_string(),
        message: "not private".to_string(),
    };
    assert!(untrusted
        .message()
        .contains("refusing untrusted state directory"));
    assert!(!untrusted.has_source());
}

#[test]
fn reserved_logs_and_missing_state_are_reported() {
    let reserved = StateError::CreateEventLog(failure("file exists"));
    assert!(reserved.message().contains("failed to reserve new Event Log"));
    assert!(reserved.has_source());
    assert!(!StateError::MissingStateDirectory.has_source());
}

fn arguments(words: &[&str]) -> Vec<CliArgument> {
    words
        .iter()
        .map(|word| CliArgument::Text(word.to_string()))
        .collect()
}

#[test]
fn parses_the_minimal_fake_provider_invocation() {
    let parsed = parse_args(&arguments(&[
        "--fake",
        "--prompt",
        "inspect",
        "--workspace",
        "/tmp/workspace",
    ]))
    .expect("arguments should parse");

    assert!(matches!(
        parsed,
        ParseResult::Options(CliOptions {
            prompt,
            workspace,
            event_log: None,
            fake_script: None,
            signal_action: SignalAction::Interrupt,
        }) if prompt == "inspect" && workspace == CliArgument::Text("/tmp/workspace".to_string())
    ));
}

#[test]
fn parses_every_option() {
    let mut words = arguments(&[
        "--fake",
        "--on-signal",
        "cancel",
        "--prompt",
        "inspect",
        "--event-log",
        "run.jsonl",
        "--fake-script",
    ]);
    words.push(CliArgument::Bytes(vec![0xff]));
    words.extend(arguments(&["--workspace", "."]));
    assert_eq!(
        parse_args(&words),
        Ok(ParseResult::Options(CliOptions {
            prompt: "inspect".to_string(),
            workspace: CliArgument::Text(".".to_string()),
            event_log: Some(CliArgument::Text("run.jsonl".to_string())),
            fake_script: Some(CliArgument::Bytes(vec![0xff])),
            signal_action: SignalAction::Cancel,
        }))
    );
}

#[test]
fn help_needs_nothing_else() {
    assert_eq!(parse_args(&arguments(&["--help"])), Ok(ParseResult::Help));
    assert_eq!(parse_args(&arguments(&["--fake", "-h"])), Ok(ParseResult::Help));
    assert!(usage().contains("--fake"));
}

#[test]
fn wrong_invocations_are_refused() {
    for words in [
        &["--prompt", "inspect", "--workspace", "."][..],
        &["--fake", "--workspace", "."][..],
        &["--fake", "--prompt", "inspect"][..],
        &["--fake", "--prompt", " ", "--workspace", "."][..],
        &["--fake", "--prompt"][..],
        &["--fake", "--unknown"][..],
        &["--fake", "--on-signal", "ignore", "--prompt", "x", "--workspace", "."][..],
    ] {
        assert!(parse_args(&arguments(words)).is_err(), "{words:?}");
    }
}

#[test]
fn exit_codes_tell_the_ends_apart() {
    assert_eq!(CliExitStatus::Completed.code(), 0);
    assert_eq!(CliExitStatus::Failed.code(), 2);
    assert_eq!(CliExitStatus::Interrupted.code(), 130);
    assert_eq!(CliExitStatus::Cancelled.code(), 125);
    let interrupted = TerminalRunStatus::Interrupted { reason: String::new() };
    assert_eq!(CliExitStatus::of(&interrupted).code(), 130);
}

#[test]
fn run_names_come_from_the_process_and_the_clock() {
    assert_eq!(new_run_id(42, 1_700_000_000_000_000_000).as_str(), "run-42-1700000000000000000");
}

#[test]
fn signals_stop_a_run_as_asked() {
    let mut interrupted = RunStopToken::default();
    handle_signal(SignalAction::Interrupt, &mut interrupted);
    assert!(matches!(
        interrupted.terminal_status(),
        Some(TerminalRunStatus::Interrupted { .. })
    ));
    let mut cancelled = RunStopToken::default();
    handle_signal(SignalAction::Cancel, &mut cancelled);
    handle_signal(SignalAction::Interrupt, &mut cancelled);
    assert!(matches!(
        cancelled.terminal_status(),
        Some(TerminalRunStatus::Cancelled { .. })
    ));
}

#[test]
fn surface_errors_are_put_in_words() {
    let error = CliError::Arguments("missing --prompt".to_string());
    assert!(error.message().contains("missing --prompt"));
    let error = CliError::TerminalOutput(failure("gone"));
    assert!(error.message().contains("gone"));
}

fn turn(events: usize) -> Vec<ModelStreamEvent> {
    (0..events)
        .map(|_| ModelStreamEvent::TextDelta { delta: String::new(), extensions: Vec::new() })
        .collect()
}

fn limit_message(turns: &Vec<Vec<ModelStreamEvent>>) -> String {
    match validate("script.json", turns) {
        Err(FakeProviderError::Limit { message, .. }) => message,
        other => panic!("expected a limit, got {other:?}"),
    }
}

#[test]
fn scripts_are_limited_in_every_direction() {
    assert_eq!(validate("script.json", &vec![turn(1)]), Ok(()));
    assert_eq!(
        validate("script.json", &Vec::new()),
        Err(FakeProviderError::Empty { path: "script.json".to_string() })
    );
    let full: Vec<Vec<ModelStreamEvent>> = (0..MAX_SCRIPT_TURNS).map(|_| turn(1)).collect();
    assert_eq!(validate("script.json", &full), Ok(()));
    let long: Vec<Vec<ModelStreamEvent>> = (0..MAX_SCRIPT_TURNS + 1).map(|_| turn(1)).collect();
    assert!(limit_message(&long).contains("128"));
    assert!(limit_message(&vec![turn(MAX_EVENTS_PER_TURN + 1)]).contains("4096"));
    let turns: Vec<Vec<ModelStreamEvent>> = (0..4).map(|_| turn(MAX_EVENTS_PER_TURN)).collect();
    assert_eq!(4 * MAX_EVENTS_PER_TURN, MAX_SCRIPT_EVENTS);
    assert_eq!(validate("script.json", &turns), Ok(()));
    let mut more = turns;
    more.push(turn(1));
    assert!(limit_message(&more).contains("16384"));
    assert_eq!(check_script_length("script.json", MAX_SCRIPT_BYTES), Ok(()));
    assert!(check_script_length("script.json", MAX_SCRIPT_BYTES + 1).is_err());
}

#[test]
fn script_errors_name_their_file() {
    let read = FakeProviderError::Read {
        path: "script.json".to_string(),
        source: failure("gone"),
    };
    assert!(read.message().contains("script.json"));
    assert!(read.has_source());
    let decode = FakeProviderError::Decode {
        path: "script.json".to_string(),
        message: "expected value".to_string(),
    };
    assert!(decode.message().contains("expected value"));
    let empty = FakeProviderError::Empty { path: "script.json".to_string() };
    assert!(!empty.has_source());
}

#[test]
fn without_a_script_the_prompt_is_answered() {
    assert_eq!(
        unscripted_turn("hello"),
        vec![
            ModelStreamEvent::TextDelta {
                delta: "Fake provider response for: hello".to_string(),
                extensions: Vec::new(),
            },
            ModelStreamEvent::Completed { finish_reason: Some("stop".to_string()), extensions: Vec::new() },
        ]
    );
}

#[test]
fn state_directories_follow_their_platform() {
    let mut windows = environment();
    windows.platform = Platform::Windows;
    windows.local_app_data = Some("C:\\Users\\me\\AppData\\Local".to_string());
    assert_eq!(
        state_directory(&windows),
        Ok("C:\\Users\\me\\AppData\\Local\\young-agent".to_string())
    );
    let found = location(None, Ok("C:\\".to_string()), &windows, &RunId::new("run-1".to_string()))
        .expect("the state directory is absolute");
    assert_eq!(
        found.path,
        "C:\\Users\\me\\AppData\\Local\\young-agent\\runs\\run-1.jsonl"
    );
    assert_eq!(
        found.directories(Platform::Windows).expect("the log has a directory").parent,
        "C:\\Users\\me\\AppData\\Local\\young-agent\\runs"
    );
    windows.local_app_data = Some("/absolute/elsewhere".to_string());
    assert!(state_directory(&windows).is_err());
    windows.local_app_data = None;
    assert_eq!(state_directory(&windows), Err(StateError::MissingStateDirectory));
}

#[test]
fn the_directory_of_a_log_is_named_as_it_was_given() {
    let directories = locate("/a//b/run.jsonl")
        .directories(Platform::Linux)
        .expect("the log has a directory");
    assert_eq!(directories.parent, "/a//b");
}
