//! Whole runs of an agent, with a scripted model and a log in memory.

use young_agent::agent_run::AgentRun;
use young_agent::cancellation::Cancellation;
use young_agent::command_policy::{CommandApprovalPolicy, PathAnswer, PolicyStep};
use young_agent::io_failure::ErrorKind;
use young_agent::model::{
    tool_result_content, ModelError, ModelMessage, ModelMessageContent, ModelStreamEvent,
    ModelToolCall, ModelToolSpec,
};
use young_agent::run::{
    AgentEvent, ApprovalDecision, ApprovalRequest, EventSequence, RunId, TerminalRunStatus,
    ToolCall,
};
use young_agent::run_control::{
    append_pending, pass_checkpoint, AgentEventSink, RunControl, Unattended,
};
use young_agent::runtime::{
    normalize_denial_reason, AgentRuntime, AgentRuntimeError, CallPolicy, RunEnd, RunInput,
    RunOutcome, RunPhase, RunRequest,
};
use young_agent::stop::{RunControlFlow, RunStopToken};
use young_agent::tool::{Field, FieldValue, ToolContent, ToolError, ToolOutput};
use young_agent::tools::{call_policy, BuiltinCodingTool};
use young_agent::workspace::{CodingWorkspace, WorkspaceContext};

/// A log in memory, which fails at the event with the number `fails_at`.
struct Log {
    events: Vec<(u64, bool, AgentEvent)>,
    fails_at: Option<u64>,
}

impl Log {
    fn new() -> Log {
        Log { events: Vec::new(), fails_at: None }
    }

    fn record(
        &mut self,
        sequence: EventSequence,
        durable: bool,
        event: &AgentEvent,
    ) -> Result<(), String> {
        if self.fails_at == Some(sequence.number) {
            return Err("disk full".to_string());
        }
        self.events.push((sequence.number, durable, event.clone()));
        Ok(())
    }
}

impl AgentEventSink for Log {
    type Error = String;

    fn append(&mut self, sequence: EventSequence, event: &AgentEvent) -> Result<(), String> {
        self.record(sequence, false, event)
    }

    fn append_durable(
        &mut self,
        sequence: EventSequence,
        event: &AgentEvent,
    ) -> Result<(), String> {
        self.record(sequence, true, event)
    }
}

struct Denying(String);

impl RunControl for Denying {
    fn checkpoint(&mut self) -> RunControlFlow {
        RunControlFlow::Continue
    }

    fn decide_approval(
        &mut self,
        _request: &ApprovalRequest,
        _cancellation: &mut Cancellation,
    ) -> ApprovalDecision {
        ApprovalDecision::Deny { reason: self.0.clone() }
    }
}

struct Approving;

impl RunControl for Approving {
    fn checkpoint(&mut self) -> RunControlFlow {
        RunControlFlow::Continue
    }

    fn decide_approval(
        &mut self,
        _request: &ApprovalRequest,
        _cancellation: &mut Cancellation,
    ) -> ApprovalDecision {
        ApprovalDecision::Approve
    }
}

/// A control that stops the run at its `at`th checkpoint.
struct Stopping {
    at: usize,
    flow: RunControlFlow,
}

impl RunControl for Stopping {
    fn checkpoint(&mut self) -> RunControlFlow {
        if self.at == 0 {
            self.flow.clone()
        } else {
            self.at -= 1;
            RunControlFlow::Continue
        }
    }
}

fn run_request(run_id: &str) -> RunRequest {
    RunRequest {
        run_id: RunId::new(run_id.to_string()),
        model: "fake-model".to_string(),
        messages: vec![ModelMessage::User { text: "Create marker.txt".to_string() }],
        tools: Vec::new(),
        metadata: Vec::new(),
    }
}

fn delta(text: &str) -> ModelStreamEvent {
    ModelStreamEvent::TextDelta { delta: text.to_string(), extensions: Vec::new() }
}

fn completed(reason: &str) -> ModelStreamEvent {
    ModelStreamEvent::Completed { finish_reason: Some(reason.to_string()), extensions: Vec::new() }
}

fn command_turn(arguments: &str) -> Vec<ModelStreamEvent> {
    vec![
        ModelStreamEvent::ToolCall {
            call: ModelToolCall {
                id: "model-command-001".to_string(),
                name: "run_command".to_string(),
                arguments: arguments.to_string(),
            },
            extensions: Vec::new(),
        },
        completed("tool_calls"),
    ]
}

fn done_turn(text: &str) -> Vec<ModelStreamEvent> {
    vec![delta(text), completed("stop")]
}

fn done_output() -> ToolOutput {
    ToolOutput::Success {
        content: vec![ToolContent::Text { text: "done".to_string() }],
        metadata: Vec::new(),
        extensions: vec![Field {
            name: "display".to_string(),
            value: FieldValue::Text("markdown".to_string()),
        }],
    }
}

fn policy_of(call: &ToolCall) -> CallPolicy {
    let workspace = CodingWorkspace::new(WorkspaceContext::new("/workspace".to_string(), None));
    let mut answers = Vec::new();
    loop {
        match CommandApprovalPolicy.classify_call(&workspace, &call.arguments, &answers) {
            PolicyStep::Decided(decision) => {
                return call_policy(BuiltinCodingTool::RunCommand, decision)
            }
            PolicyStep::Lookup(_) => answers.push(PathAnswer::Failed(ErrorKind::NotFound)),
        }
    }
}

/// What a run came to, and the calls that it executed.
struct Finished {
    result: Result<RunOutcome, AgentRuntimeError<String>>,
    executed: Vec<ToolCall>,
}

fn drive(
    turns: Vec<Vec<ModelStreamEvent>>,
    log: &mut Log,
    control: &mut impl RunControl,
    token: &mut RunStopToken,
) -> Finished {
    let mut run = AgentRun::new(run_request("run-001"));
    let mut turns = turns.into_iter();
    let mut stream = Vec::new().into_iter();
    let mut executed = Vec::new();
    let mut source = None;
    loop {
        match run.phase() {
            RunPhase::Done => break,
            RunPhase::Emit => {
                if let Err(error) = append_pending(&mut run, log, token) {
                    source = Some(error);
                }
            }
            RunPhase::Checkpoint(_) => pass_checkpoint(&mut run, control, token),
            RunPhase::OpenStream => {
                let opened = match turns.next() {
                    Some(events) => {
                        stream = events.into_iter();
                        Ok(())
                    }
                    None => Err(ModelError {
                        code: "script_exhausted".to_string(),
                        message: "no turn is left".to_string(),
                        retryable: false,
                    }),
                };
                run.advance(RunInput::Opened(opened), token);
            }
            RunPhase::NextModelEvent => run.advance(RunInput::Model(stream.next()), token),
            RunPhase::ClassifyCall => {
                let policy = policy_of(run.current_call().expect("a call is at hand"));
                run.advance(RunInput::Policy(policy), token);
            }
            RunPhase::DecideApproval => {
                let request = run.approval_request().expect("an approval is asked for");
                let decision = control.decide_approval(request, &mut Cancellation::never());
                run.advance(RunInput::Decided(decision), token);
            }
            RunPhase::Execute => {
                executed.push(run.current_call().expect("a call is at hand").clone());
                run.advance(RunInput::Executed(done_output()), token);
            }
        }
    }
    let end: RunEnd = run.into_end().expect("the run is over");
    Finished { result: end.into_result(source), executed }
}

fn run_with(arguments: &str, control: &mut impl RunControl) -> (Log, Finished) {
    let mut log = Log::new();
    let turns = vec![command_turn(arguments), done_turn("Turn completed.")];
    let finished = drive(turns, &mut log, control, &mut RunStopToken::default());
    (log, finished)
}

fn status(finished: &Finished) -> &TerminalRunStatus {
    finished.result.as_ref().expect("the run has a status").status()
}

fn approval(log: &Log) -> Option<&ApprovalRequest> {
    log.events.iter().find_map(|(_, _, event)| match event {
        AgentEvent::ApprovalRequested { request, .. } => Some(request),
        _ => None,
    })
}

fn decision(log: &Log) -> Option<&ApprovalDecision> {
    log.events.iter().find_map(|(_, _, event)| match event {
        AgentEvent::ApprovalResolved { decision, .. } => Some(decision),
        _ => None,
    })
}

fn result(log: &Log) -> &ToolOutput {
    log.events
        .iter()
        .find_map(|(_, _, event)| match event {
            AgentEvent::ToolResult { result, .. } => Some(&result.output),
            _ => None,
        })
        .expect("the call has a result")
}

fn failure(log: &Log) -> &ToolError {
    match result(log) {
        ToolOutput::Failure { error, .. } => error,
        ToolOutput::Success { .. } => panic!("the call should fail"),
    }
}

#[test]
fn denied_mutating_command_is_not_executed_and_replays_its_decision() {
    let mut control = Denying("user denied workspace mutation".to_string());
    let (log, finished) = run_with("{\"command\":\"touch marker.txt\"}", &mut control);

    assert!(finished.executed.is_empty());
    let approval = approval(&log).expect("approval request replays");
    assert!(approval.reason.contains("mutate workspace files"));
    assert_eq!(approval.call.arguments, "{\"command\":\"touch marker.txt\"}");
    assert!(matches!(
        decision(&log),
        Some(ApprovalDecision::Deny { reason }) if reason == "user denied workspace mutation"
    ));
    let error = failure(&log);
    assert_eq!(error.code, "approval_denied");
    assert_eq!(error.message, "user denied workspace mutation");
}

#[test]
fn blank_approval_denial_reason_is_normalized_before_it_is_persisted() {
    let mut control = Denying(" \t ".to_string());
    let (log, finished) = run_with("{\"command\":\"touch marker.txt\"}", &mut control);

    assert!(finished.executed.is_empty());
    assert!(matches!(
        decision(&log),
        Some(ApprovalDecision::Deny { reason }) if reason == "approval denied without a reason"
    ));
    let error = failure(&log);
    assert_eq!(error.code, "approval_denied");
    assert_eq!(error.message, "approval denied without a reason");
}

#[test]
fn oversized_approval_denial_reason_is_bounded_before_it_is_persisted() {
    let mut control = Denying("\n\"\u{754c}".repeat(700_000));
    let (log, finished) = run_with("{\"command\":\"touch marker.txt\"}", &mut control);

    assert!(finished.executed.is_empty());
    let Some(ApprovalDecision::Deny { reason }) = decision(&log) else {
        panic!("denial decision replays");
    };
    assert!(reason.ends_with("\u{2026} [truncated]"));
    assert!(
        serde_json::to_vec(reason)
            .expect("bounded reason serializes")
            .len()
            <= 8 * 1024
    );
    let error = failure(&log);
    assert_eq!(error.code, "approval_denied");
    assert_eq!(&error.message, reason);
}

#[test]
fn approved_mutating_command_executes_and_replays_its_decision() {
    let (log, finished) = run_with("{\"command\":\"touch marker.txt\"}", &mut Approving);

    assert_eq!(finished.executed.len(), 1);
    assert_eq!(finished.executed[0].arguments, "{\"command\":\"touch marker.txt\"}");
    assert!(matches!(decision(&log), Some(ApprovalDecision::Approve)));
    assert!(matches!(result(&log), ToolOutput::Success { .. }));
}

#[test]
fn low_risk_command_executes_without_approval_events() {
    let (log, finished) = run_with("{\"command\":\"pwd\"}", &mut Unattended);

    assert!(approval(&log).is_none());
    assert!(decision(&log).is_none());
    assert_eq!(finished.executed.len(), 1);
    assert!(matches!(result(&log), ToolOutput::Success { .. }));
}

fn assert_rejected(arguments: &str, control: &mut impl RunControl, expected_reason: &str) {
    let mut log = Log::new();
    let turns = vec![command_turn(arguments), done_turn("Command was rejected.")];
    let finished = drive(turns, &mut log, control, &mut RunStopToken::default());
    assert!(matches!(
        status(&finished),
        TerminalRunStatus::Completed { final_message } if final_message == "Command was rejected."
    ));
    assert!(finished.executed.is_empty());
    assert!(approval(&log).is_none());
    assert!(decision(&log).is_none());
    let error = failure(&log);
    assert_eq!(error.code, "tool_rejected");
    assert!(error.message.contains(expected_reason), "{}", error.message);
}

#[test]
fn malformed_run_command_arguments_replay_as_rejections_without_approval_events() {
    for (arguments, expected_reason) in [
        ("\"pwd\"", "arguments must be an object"),
        ("{}", "requires a string 'command' argument"),
        ("{\"command\":7}", "requires a string 'command' argument"),
        (
            "{\"command\":\"pwd\",\"unexpected\":true}",
            "does not accept unknown arguments",
        ),
    ] {
        assert_rejected(arguments, &mut Unattended, expected_reason);
    }
}

#[test]
fn oversized_run_command_replays_as_rejection_without_approval_events() {
    let arguments = format!("{{\"command\":\"{}\"}}", "x".repeat(64 * 1024 + 1));
    assert_rejected(&arguments, &mut Unattended, "65536 bytes policy limit");
}

#[test]
fn malformed_shell_syntax_replays_as_rejection_without_approval_events() {
    for command in ["; pwd", "pwd;;pwd"] {
        let arguments = format!("{{\"command\":\"{command}\"}}");
        assert_rejected(&arguments, &mut Unattended, "malformed shell syntax");
    }
}

#[test]
fn rejected_command_is_not_executed_and_replays_without_approval_events() {
    assert_rejected("{\"command\":\"./sudo\"}", &mut Unattended, "privilege elevation");
}

#[test]
fn root_targeting_command_cannot_execute_even_when_approval_is_available() {
    assert_rejected(
        "{\"command\":\"./find / -delete\"}",
        &mut Approving,
        "filesystem root",
    );
}

#[test]
fn what_model_events_and_outputs_carry_beside_is_recorded() {
    let hint = vec![("future_hint".to_string(), "\"preserve\"".to_string())];
    let heard = ModelStreamEvent::TextDelta { delta: "Hi".to_string(), extensions: hint.clone() };
    let turns = vec![
        command_turn("{\"command\":\"touch marker.txt\"}"),
        vec![heard.clone(), completed("stop")],
    ];
    let mut log = Log::new();
    drive(turns, &mut log, &mut Approving, &mut RunStopToken::default());
    assert!(log.events.iter().any(|(_, _, event)| matches!(
        event,
        AgentEvent::ModelOutput { event, extensions, .. }
            if *event == heard && extensions.is_empty()
    )));
    assert_eq!(result(&log), &done_output());
    assert!(matches!(
        log.events.last(),
        Some((_, _, AgentEvent::RunFinished { extensions, .. })) if extensions.is_empty()
    ));
}

#[test]
fn nobody_approves_in_an_unattended_run() {
    let (log, finished) = run_with("{\"command\":\"touch marker.txt\"}", &mut Unattended);
    assert!(finished.executed.is_empty());
    assert_eq!(failure(&log).message, "no approval handler accepted the tool call");
}

#[test]
fn the_events_of_a_run_stand_in_order() {
    let (log, finished) = run_with("{\"command\":\"touch marker.txt\"}", &mut Approving);
    let kinds: Vec<(u64, bool, &str)> = log
        .events
        .iter()
        .map(|(number, durable, event)| {
            assert_eq!(event.run_id().as_str(), "run-001");
            let kind = match event {
                AgentEvent::RunStarted { .. } => "run started",
                AgentEvent::TurnStarted { .. } => "turn started",
                AgentEvent::ModelOutput { .. } => "model output",
                AgentEvent::ToolCallRequested { .. } => "call requested",
                AgentEvent::ApprovalRequested { .. } => "approval requested",
                AgentEvent::ApprovalResolved { .. } => "approval resolved",
                AgentEvent::ToolResult { .. } => "tool result",
                AgentEvent::Error { .. } => "error",
                AgentEvent::RunFinished { .. } => "run finished",
            };
            (*number, *durable, kind)
        })
        .collect();
    let names: Vec<&str> = kinds.iter().map(|(_, _, kind)| *kind).collect();
    assert_eq!(
        names,
        [
            "run started",
            "turn started",
            "model output",
            "model output",
            "call requested",
            "approval requested",
            "approval resolved",
            "tool result",
            "turn started",
            "model output",
            "model output",
            "run finished",
        ]
    );
    let numbers: Vec<u64> = kinds.iter().map(|(number, _, _)| *number).collect();
    assert_eq!(numbers, (1..=12).collect::<Vec<u64>>());
    assert_eq!(
        status(&finished),
        &TerminalRunStatus::Completed { final_message: "Turn completed.".to_string() }
    );
}

#[test]
fn a_failing_model_fails_the_run() {
    let mut log = Log::new();
    let turns = vec![vec![
        delta("half"),
        ModelStreamEvent::Failed {
            error: ModelError {
                code: "overloaded".to_string(),
                message: "try later".to_string(),
                retryable: true,
            },
            extensions: Vec::new(),
        },
    ]];
    let finished = drive(turns, &mut log, &mut Unattended, &mut RunStopToken::default());
    let TerminalRunStatus::Failed { error } = status(&finished) else {
        panic!("the run should fail");
    };
    assert!(error.message.contains("try later"), "{}", error.message);
    assert!(log
        .events
        .iter()
        .any(|(_, _, event)| matches!(event, AgentEvent::Error { .. })));
    assert!(matches!(
        log.events.last(),
        Some((_, _, AgentEvent::RunFinished { .. }))
    ));
}

#[test]
fn a_model_that_breaks_off_fails_the_run() {
    let mut log = Log::new();
    let finished = drive(
        vec![vec![delta("half")]],
        &mut log,
        &mut Unattended,
        &mut RunStopToken::default(),
    );
    assert!(matches!(status(&finished), TerminalRunStatus::Failed { .. }));
}

#[test]
fn a_model_that_cannot_be_reached_fails_the_run() {
    let mut log = Log::new();
    let finished =
        drive(Vec::new(), &mut log, &mut Unattended, &mut RunStopToken::default());
    let TerminalRunStatus::Failed { error } = status(&finished) else {
        panic!("the run should fail");
    };
    assert!(error.message.contains("no turn is left"), "{}", error.message);
}

#[test]
fn a_control_stops_the_run_at_a_checkpoint() {
    for at in 0..4 {
        let mut log = Log::new();
        let mut control = Stopping {
            at,
            flow: RunControlFlow::Cancel { reason: "host asked".to_string() },
        };
        let turns = vec![command_turn("{\"command\":\"pwd\"}"), done_turn("late")];
        let finished = drive(turns, &mut log, &mut control, &mut RunStopToken::default());
        assert_eq!(
            status(&finished),
            &TerminalRunStatus::Cancelled { reason: "host asked".to_string() }
        );
        assert!(matches!(
            log.events.last(),
            Some((_, _, AgentEvent::RunFinished { status: TerminalRunStatus::Cancelled { .. }, .. }))
        ));
    }
}

#[test]
fn a_stop_token_stops_the_run() {
    let mut log = Log::new();
    let mut token = RunStopToken::default();
    token.interrupt("signal".to_string());
    token.cancel("late".to_string());
    let finished = drive(vec![done_turn("late")], &mut log, &mut Unattended, &mut token);
    assert_eq!(
        status(&finished),
        &TerminalRunStatus::Interrupted { reason: "signal".to_string() }
    );
}

#[test]
fn a_log_that_fails_ends_the_run() {
    for fails_at in 1..=8 {
        let mut log = Log::new();
        log.fails_at = Some(fails_at);
        let turns = vec![command_turn("{\"command\":\"pwd\"}"), done_turn("late")];
        let finished = drive(turns, &mut log, &mut Unattended, &mut RunStopToken::default());
        assert_eq!(log.events.len() as u64, fails_at - 1);
        if let Err(error) = &finished.result {
            let expected = match error {
                AgentRuntimeError::EventSink(_) => "failed to append Agent Event: disk full",
                AgentRuntimeError::ToolResultPersistenceIndeterminate { .. } => {
                    "tool execution completed but persistence of its result Agent Event is indeterminate; inspect and reconcile the Event Log without re-executing the tool: the result: disk full"
                }
            };
            assert_eq!(error.message("the result", "disk full"), expected);
        }
        match finished.result {
            Err(AgentRuntimeError::EventSink(error)) => assert_eq!(error, "disk full"),
            Err(AgentRuntimeError::ToolResultPersistenceIndeterminate { event, source }) => {
                assert_eq!(source, "disk full");
                assert!(matches!(*event, AgentEvent::ToolResult { .. }));
                assert_eq!(finished.executed.len(), 1);
            }
            Ok(outcome) => panic!("the log failed at {fails_at}: {outcome:?}"),
        }
    }
}

#[test]
fn the_first_stop_wins() {
    let mut token = RunStopToken::default();
    assert!(!token.is_requested());
    assert_eq!(token.terminal_status(), None);
    token.cancel("first".to_string());
    token.interrupt("second".to_string());
    assert!(token.is_requested());
    assert_eq!(
        token.terminal_status(),
        Some(TerminalRunStatus::Cancelled { reason: "first".to_string() })
    );
}

#[test]
fn denial_reasons_are_kept_or_cut() {
    assert_eq!(normalize_denial_reason("no".to_string()), "no");
    assert_eq!(
        normalize_denial_reason("\n".to_string()),
        "approval denied without a reason"
    );
    let cut = normalize_denial_reason("x".repeat(10_000));
    assert!(cut.ends_with("\u{2026} [truncated]"));
    assert!(serde_json::to_string(&cut).expect("a text").len() <= 8192);
    let kept = "x".repeat(8190);
    assert_eq!(normalize_denial_reason(kept.clone()), kept);
}

#[test]
fn a_runtime_holds_its_parts() {
    let runtime = AgentRuntime::new("model", "tools", Log::new());
    assert_eq!(*runtime.model_client(), "model");
    assert_eq!(*runtime.tool_executor(), "tools");
}

#[test]
fn tool_results_go_back_to_the_model() {
    assert_eq!(
        tool_result_content(done_output()),
        vec![ModelMessageContent::Text { text: "done".to_string() }]
    );
    let failed = ToolOutput::Failure {
        error: ToolError {
            code: "tool_cancelled".to_string(),
            message: "stopped".to_string(),
            retryable: false,
        },
        extensions: Vec::new(),
    };
    assert_eq!(
        tool_result_content(failed.clone()),
        vec![ModelMessageContent::Failure { output: failed }]
    );
}

#[test]
fn every_request_names_what_the_run_was_given() {
    let mut request = run_request("run-requests");
    request.tools = vec![ModelToolSpec {
        name: "run_command".to_string(),
        description: "Run a command.".to_string(),
        input_schema: "{}".to_string(),
    }];
    request.metadata = vec![("workspace".to_string(), "\"/workspace\"".to_string())];
    let given = request.clone();
    let mut turns = vec![command_turn("{\"command\":\"pwd\"}"), done_turn("finished")];
    turns.reverse();
    let mut run = AgentRun::new(request);
    let mut log = Log::new();
    let mut token = RunStopToken::default();
    let mut events: Vec<ModelStreamEvent> = Vec::new();
    let mut asked = Vec::new();
    loop {
        let input = match run.phase() {
            RunPhase::Done => break,
            RunPhase::Emit => {
                append_pending(&mut run, &mut log, &mut token).expect("the log works");
                continue;
            }
            RunPhase::Checkpoint(_) => {
                pass_checkpoint(&mut run, &mut Unattended, &mut token);
                continue;
            }
            RunPhase::OpenStream => {
                asked.push(run.model_request().clone());
                events = turns.pop().expect("the model is scripted");
                events.reverse();
                RunInput::Opened(Ok(()))
            }
            RunPhase::NextModelEvent => RunInput::Model(events.pop()),
            RunPhase::ClassifyCall => RunInput::Policy(CallPolicy::Allow),
            RunPhase::DecideApproval => panic!("nothing needs an approval"),
            RunPhase::Execute => RunInput::Executed(done_output()),
        };
        run.advance(input, &mut token);
    }
    assert_eq!(asked.len(), 2);
    for request in &asked {
        assert_eq!(request.model, given.model);
        assert_eq!(request.tools, given.tools);
        assert_eq!(request.metadata, given.metadata);
    }
    assert_eq!(asked[0].messages, given.messages);
    assert_eq!(asked[1].messages.len(), 3);
    assert_eq!(asked[1].messages[0], asked[0].messages[0]);
    assert!(matches!(
        &asked[1].messages[1],
        ModelMessage::Assistant { text: None, tool_calls } if tool_calls.len() == 1
    ));
    assert!(matches!(
        &asked[1].messages[2],
        ModelMessage::Tool { tool_call_id, .. } if tool_call_id == "model-command-001"
    ));
}

#[test]
fn of_many_requests_the_first_decides() {
    let mut token = RunStopToken::default();
    assert_eq!(token.terminal_status(), None);
    assert_eq!(token.stopped_status(RunControlFlow::Continue), None);
    let first = TerminalRunStatus::Cancelled { reason: "first".to_string() };
    let chosen = token.stopped_status(RunControlFlow::Cancel { reason: "first".to_string() });
    assert_eq!(chosen, Some(first.clone()));
    token.interrupt("second".to_string());
    token.cancel("third".to_string());
    assert_eq!(token.terminal_status(), Some(first));
}

#[test]
fn runs_are_told_apart_by_their_names() {
    let id = RunId::new("run-1".to_string());
    assert_eq!(id.as_str(), "run-1");
    assert_eq!(id, RunId::new("run-1".to_string()));
    assert_ne!(id, RunId::new("run-2".to_string()));
}
