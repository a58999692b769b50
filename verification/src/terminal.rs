//! What a person sees of a run: its events as lines, with nothing in them that
//! could change how the terminal shows them.

use crate::io_failure::{IoFailure, IoFailureView};
use crate::model;
use crate::model::{ModelStreamEvent, StreamEventView};
use crate::run::{
    AgentEvent, ApprovalDecision, DecisionView, EventView, TerminalRunStatus, TerminalView,
};
use crate::stop;
use crate::stop::RunStopToken;
use crate::text;
use crate::text::{chars_of, concat2, concat3, decimal, pad_zeros};
use crate::tool;
use crate::tool::{ContentView, Field, FieldValueView, OutputView, ToolContent, ToolOutput};
use vstd::prelude::*;

verus! {

/// The characters that control a terminal or the direction of its text.
pub open spec fn controls_terminal(character: char) -> bool {
    ||| character <= '\u{1f}'
    ||| '\u{7f}' <= character <= '\u{9f}'
    ||| character == '\u{61c}'
    ||| '\u{200b}' <= character <= '\u{200f}'
    ||| '\u{2028}' <= character <= '\u{202e}'
    ||| '\u{2060}' <= character <= '\u{206f}'
    ||| character == '\u{feff}'
}

/// Executable form of [`controls_terminal`].
pub fn is_terminal_control(character: char) -> (result: bool)
    ensures
        result == controls_terminal(character),
{
    character <= '\u{1f}' || '\u{7f}' <= character && character <= '\u{9f}' || character
        == '\u{61c}' || '\u{200b}' <= character && character <= '\u{200f}' || '\u{2028}'
        <= character && character <= '\u{202e}' || '\u{2060}' <= character && character
        <= '\u{206f}' || character == '\u{feff}'
}

/// A number in hexadecimal.
pub open spec fn hex_text(value: nat) -> Seq<char>
    decreases value,
{
    if value < 16 {
        seq![text::digit_char(value)]
    } else {
        hex_text(value / 16).push(text::digit_char(value % 16))
    }
}

fn hex(value: u32) -> (digits: String)
    ensures
        digits@ == hex_text(value as nat),
    decreases value,
{
    if value < 16 {
        let mut digits = String::new();
        digits.push(text::digit(value as u8));
        assert(digits@ =~= seq![text::digit_char(value as nat)]);
        digits
    } else {
        let mut digits = hex(value / 16);
        digits.push(text::digit((value % 16) as u8));
        digits
    }
}

/// What stands for a character on the terminal.
pub open spec fn shown_char(character: char) -> Seq<char> {
    if controls_terminal(character) {
        "\\u{"@ + text::zero_padded(hex_text(character as u32 as nat), 4) + "}"@
    } else {
        seq![character]
    }
}

/// What stands for the first `count` characters of a text on the terminal.
pub open spec fn shown(text: Seq<char>, count: int) -> Seq<char>
    decreases count,
{
    if count <= 0 {
        Seq::empty()
    } else {
        shown(text, count - 1) + shown_char(text[count - 1])
    }
}

/// What stands for a text on the terminal.
pub fn terminal_safe(value: &str) -> (safe: String)
    ensures
        safe@ == shown(value@, value@.len() as int),
{
    let chars = chars_of(value);
    let length: usize = chars.len();
    let mut safe = String::new();
    let mut index: usize = 0;
    assert(safe@ =~= shown(value@, 0));
    while index < length
        invariant
            index <= length,
            length == chars@.len(),
            chars@ == value@,
            safe@ == shown(value@, index as int),
        decreases length - index,
    {
        let character = chars[index];
        if is_terminal_control(character) {
            let digits = hex(character as u32);
            let padded = pad_zeros(digits.as_str(), 4);
            let escaped = concat3("\\u{", padded.as_str(), "}");
            safe.push_str(escaped.as_str());
        } else {
            safe.push(character);
            assert(safe@ =~= shown(value@, index as int) + seq![character]);
        }
        index = index + 1;
    }
    safe
}

proof fn lemma_digits_are_plain(value: nat)
    requires
        value < 16,
    ensures
        !controls_terminal(text::digit_char(value)),
{
}

proof fn lemma_hex_is_plain(value: nat)
    ensures
        forall|at: int|
            0 <= at < hex_text(value).len() ==> !controls_terminal(#[trigger] hex_text(value)[at]),
    decreases value,
{
    if value < 16 {
        lemma_digits_are_plain(value);
    } else {
        lemma_hex_is_plain(value / 16);
        lemma_digits_are_plain(value % 16);
        let head = hex_text(value / 16);
        assert forall|at: int| 0 <= at < hex_text(value).len() implies !controls_terminal(
            #[trigger] hex_text(value)[at],
        ) by {
            if at < head.len() {
                assert(hex_text(value)[at] == head[at]);
            }
        }
    }
}

proof fn lemma_shown_char_is_plain(character: char)
    ensures
        forall|at: int|
            0 <= at < shown_char(character).len() ==> !controls_terminal(
                #[trigger] shown_char(character)[at],
            ),
{
    reveal_strlit("\\u{");
    reveal_strlit("}");
    lemma_hex_is_plain(character as u32 as nat);
}

/// Nothing that is shown controls the terminal.
pub proof fn law_shown_text_controls_nothing(text: Seq<char>, count: int)
    requires
        0 <= count <= text.len(),
    ensures
        forall|at: int|
            0 <= at < shown(text, count).len() ==> !controls_terminal(
                #[trigger] shown(text, count)[at],
            ),
    decreases count,
{
    if count > 0 {
        law_shown_text_controls_nothing(text, count - 1);
        lemma_shown_char_is_plain(text[count - 1]);
        let head = shown(text, count - 1);
        let last = shown_char(text[count - 1]);
        assert forall|at: int| 0 <= at < shown(text, count).len() implies !controls_terminal(
            #[trigger] shown(text, count)[at],
        ) by {
            if at < head.len() {
                assert(shown(text, count)[at] == head[at]);
            } else {
                assert(shown(text, count)[at] == last[at - head.len()]);
            }
        }
    }
}

/// Text without such characters is shown as it is.
pub proof fn law_plain_text_is_shown_as_it_is(text: Seq<char>, count: int)
    requires
        0 <= count <= text.len(),
        forall|at: int| 0 <= at < count ==> !controls_terminal(#[trigger] text[at]),
    ensures
        shown(text, count) == text.take(count),
    decreases count,
{
    if count > 0 {
        law_plain_text_is_shown_as_it_is(text, count - 1);
        assert(text.take(count) =~= text.take(count - 1) + seq![text[count - 1]]);
    } else {
        assert(text.take(0) =~= Seq::<char>::empty());
    }
}

/// The mathematical value of a [`TerminalOutput`].
pub struct TerminalStateView {
    /// The first failure to write.
    pub error: Option<IoFailureView>,
    /// Whether the terminal is put in order before a prompt.
    pub reset_before_approval: bool,
}

/// What there is to write before a prompt.
#[derive(Clone, Debug, PartialEq, Eq)]
pub enum PromptReset {
    /// Nothing may be written any more.
    Refused,
    /// Nothing.
    NotNeeded,
    Write(String),
}

/// The output to a terminal. Once a write fails, nothing is written any more.
pub struct TerminalOutput {
    error: Option<IoFailure>,
    reset_before_approval: bool,
}

impl View for TerminalOutput {
    type V = TerminalStateView;

    closed spec fn view(&self) -> TerminalStateView {
        TerminalStateView {
            error: match self.error {
                Some(source) => Some(source@),
                None => None,
            },
            reset_before_approval: self.reset_before_approval,
        }
    }
}

impl TerminalOutput {
    /// The output to a terminal, which is or is not put in order before a
    /// prompt.
    pub fn new(reset_before_approval: bool) -> (output: TerminalOutput)
        ensures
            output@ == (TerminalStateView { error: None, reset_before_approval }),
    {
        TerminalOutput { error: None, reset_before_approval }
    }

    /// What to write for a line, unless a write failed.
    pub fn line(&self, value: &str) -> (written: Option<String>)
        ensures
            match written {
                Some(line) => self@.error is None && line@ == shown(value@, value@.len() as int)
                    + "\n"@,
                None => self@.error is Some,
            },
    {
        if self.error.is_some() {
            return None;
        }
        let safe = terminal_safe(value);
        Some(concat2(safe.as_str(), "\n"))
    }

    /// What to write before a prompt.
    pub fn prepare_approval_prompt(&self) -> (reset: PromptReset)
        ensures
            match reset {
                PromptReset::Refused => self@.error is Some,
                PromptReset::NotNeeded => self@.error is None && !self@.reset_before_approval,
                PromptReset::Write(sequence) => self@.error is None && self@.reset_before_approval
                    && sequence@ == "\u{1b}[0m"@,
            },
    {
        if self.error.is_some() {
            PromptReset::Refused
        } else if self.reset_before_approval {
            PromptReset::Write("\u{1b}[0m".to_owned())
        } else {
            PromptReset::NotNeeded
        }
    }

    /// Takes what came of a write, and says whether it succeeded.
    pub fn written(&mut self, outcome: Result<(), IoFailure>) -> (done: bool)
        ensures
            done == outcome is Ok,
            final(self)@ == (TerminalStateView {
                error: match (old(self)@.error, outcome) {
                    (None, Err(source)) => Some(source@),
                    _ => old(self)@.error,
                },
                ..old(self)@
            }),
    {
        match outcome {
            Ok(()) => true,
            Err(source) => {
                if self.error.is_none() {
                    self.error = Some(source);
                }
                false
            },
        }
    }

    /// The first failure to write, taken out.
    pub fn take_error(&mut self) -> (error: Option<IoFailure>)
        ensures
            match error {
                Some(source) => old(self)@.error == Some(source@),
                None => old(self)@.error is None,
            },
            final(self)@ == (TerminalStateView { error: None, ..old(self)@ }),
    {
        self.error.take()
    }
}

/// A line for the terminal: text, or the label of a JSON object and its members.
#[derive(Clone, Debug, PartialEq, Eq)]
pub enum RenderedLine<'a> {
    Text(String),
    Json { label: &'static str, fields: &'a Vec<Field> },
}

/// The mathematical value of a [`RenderedLine`].
pub enum RenderedView {
    Text(Seq<char>),
    Json { label: Seq<char>, fields: Seq<(Seq<char>, FieldValueView)> },
}

impl<'a> View for RenderedLine<'a> {
    type V = RenderedView;

    open spec fn view(&self) -> RenderedView {
        match *self {
            RenderedLine::Text(line) => RenderedView::Text(line@),
            RenderedLine::Json { label, fields } => RenderedView::Json {
                label: label@,
                fields: tool::field_views(fields@),
            },
        }
    }
}

/// The values of a sequence of lines.
pub open spec fn rendered_views<'a>(lines: Seq<RenderedLine<'a>>) -> Seq<RenderedView> {
    lines.map_values(|line: RenderedLine| line@)
}

/// The line of an event of the model.
pub open spec fn model_line(event: StreamEventView) -> Seq<char> {
    match event {
        StreamEventView::Started { request_id, .. } => match request_id {
            Some(id) => "[model] started "@ + id,
            None => "[model] started"@,
        },
        StreamEventView::TextDelta { delta, .. } => "[model] "@ + delta,
        StreamEventView::ToolCallDelta { id, name, arguments_delta, .. } => "[model-tool-delta] "@ + id
            + " "@ + (match name {
            Some(known) => known,
            None => "<pending>"@,
        }) + " "@ + arguments_delta,
        StreamEventView::ToolCall { call, .. } => "[model-tool-call] "@ + call.id + " "@ + call.name
            + " "@ + call.arguments,
        StreamEventView::Usage { usage, .. } => "[usage] input="@ + text::decimal_text(
            usage.input_tokens as nat,
        ) + " output="@ + text::decimal_text(usage.output_tokens as nat),
        StreamEventView::Completed { finish_reason, .. } => match finish_reason {
            Some(reason) => "[model] completed ("@ + reason + ")"@,
            None => "[model] completed"@,
        },
        StreamEventView::Failed { error, .. } => "[model-error] "@ + error.code + ": "@
            + error.message,
    }
}

fn concat4(first: &str, second: &str, third: &str, fourth: &str) -> (whole: String)
    ensures
        whole@ == first@ + second@ + third@ + fourth@,
{
    let beginning = concat3(first, second, third);
    concat2(beginning.as_str(), fourth)
}

/// Executable form of [`model_line`].
pub fn render_model_event(event: &ModelStreamEvent) -> (line: String)
    ensures
        line@ == model_line(event@),
{
    match event {
        ModelStreamEvent::Started { request_id, .. } => match request_id {
            Some(id) => concat2("[model] started ", id.as_str()),
            None => "[model] started".to_owned(),
        },
        ModelStreamEvent::TextDelta { delta, .. } => concat2("[model] ", delta.as_str()),
        ModelStreamEvent::ToolCallDelta { id, name, arguments_delta, .. } => {
            let known = match name {
                Some(known) => known.as_str(),
                None => "<pending>",
            };
            let beginning = concat4("[model-tool-delta] ", id.as_str(), " ", known);
            concat3(beginning.as_str(), " ", arguments_delta.as_str())
        },
        ModelStreamEvent::ToolCall { call, .. } => {
            let beginning = concat4("[model-tool-call] ", call.id.as_str(), " ", call.name.as_str());
            concat3(beginning.as_str(), " ", call.arguments.as_str())
        },
        ModelStreamEvent::Usage { usage, .. } => {
            let input = decimal(usage.input_tokens as u128);
            let output = decimal(usage.output_tokens as u128);
            concat4("[usage] input=", input.as_str(), " output=", output.as_str())
        },
        ModelStreamEvent::Completed { finish_reason, .. } => match finish_reason {
            Some(reason) => concat3("[model] completed (", reason.as_str(), ")"),
            None => "[model] completed".to_owned(),
        },
        ModelStreamEvent::Failed { error, .. } => concat4(
            "[model-error] ",
            error.code.as_str(),
            ": ",
            error.message.as_str(),
        ),
    }
}

/// The line of the end of a run.
pub open spec fn status_line(status: TerminalView) -> Seq<char> {
    match status {
        TerminalView::Completed { final_message } => "[status] completed: "@ + final_message,
        TerminalView::Failed { error } => "[status] failed "@ + error.code + ": "@ + error.message,
        TerminalView::Interrupted { reason } => "[status] interrupted: "@ + reason,
        TerminalView::Cancelled { reason } => "[status] cancelled: "@ + reason,
    }
}

/// Executable form of [`status_line`].
pub fn render_terminal_status(status: &TerminalRunStatus) -> (line: String)
    ensures
        line@ == status_line(status@),
{
    match status {
        TerminalRunStatus::Completed { final_message } => concat2(
            "[status] completed: ",
            final_message.as_str(),
        ),
        TerminalRunStatus::Failed { error } => concat4(
            "[status] failed ",
            error.code.as_str(),
            ": ",
            error.message.as_str(),
        ),
        TerminalRunStatus::Interrupted { reason } => concat2(
            "[status] interrupted: ",
            reason.as_str(),
        ),
        TerminalRunStatus::Cancelled { reason } => concat2(
            "[status] cancelled: ",
            reason.as_str(),
        ),
    }
}

/// The line of one piece of a tool's output.
pub open spec fn content_line(piece: ContentView) -> RenderedView {
    match piece {
        ContentView::Text(value) => RenderedView::Text("[tool-output] "@ + value),
        ContentView::Json(fields) => RenderedView::Json { label: "[tool-output] "@, fields },
    }
}

/// The lines of an event.
pub open spec fn event_lines(event: EventView) -> Seq<RenderedView> {
    match event {
        EventView::RunStarted { run_id, .. } => seq![RenderedView::Text("[run] started "@ + run_id)],
        EventView::TurnStarted { turn_id, .. } => seq![
            RenderedView::Text("[turn] started "@ + turn_id),
        ],
        EventView::ModelOutput { event, .. } => seq![RenderedView::Text(model_line(event))],
        EventView::ToolCallRequested { call, .. } => seq![
            RenderedView::Text(
                "[tool-call] "@ + call.id + " "@ + call.tool_name + " "@ + call.arguments,
            ),
        ],
        EventView::ApprovalRequested { request, .. } => seq![
            RenderedView::Text(
                "[approval] requested "@ + request.id + " for "@ + request.call.tool_name + ": "@
                    + request.reason,
            ),
        ],
        EventView::ApprovalResolved { approval_id, decision, .. } => seq![
            RenderedView::Text(
                match decision {
                    DecisionView::Approve => "[approval] "@ + approval_id + " approved"@,
                    DecisionView::Deny { reason } => "[approval] "@ + approval_id + " denied: "@
                        + reason,
                },
            ),
        ],
        EventView::ToolResult { result, .. } => match result.output {
            OutputView::Success { content, .. } => seq![
                RenderedView::Text("[tool-result] "@ + result.call_id + " success"@),
            ] + content.map_values(|piece: ContentView| content_line(piece)),
            OutputView::Failure { error, .. } => seq![
                RenderedView::Text(
                    "[tool-result] "@ + result.call_id + " failed "@ + error.code + ": "@
                        + error.message,
                ),
            ],
        },
        EventView::Error { error, .. } => seq![
            RenderedView::Text("[error] "@ + error.code + ": "@ + error.message),
        ],
        EventView::RunFinished { status, .. } => seq![RenderedView::Text(status_line(status))],
    }
}

fn one_line<'a>(line: String) -> (lines: Vec<RenderedLine<'a>>)
    ensures
        rendered_views(lines@) == seq![RenderedView::Text(line@)],
{
    let mut lines: Vec<RenderedLine<'a>> = Vec::new();
    lines.push(RenderedLine::Text(line));
    assert(rendered_views(lines@) =~= seq![RenderedView::Text(line@)]);
    lines
}

fn render_content<'a>(lines: &mut Vec<RenderedLine<'a>>, content: &'a Vec<ToolContent>)
    ensures
        rendered_views(final(lines)@) == rendered_views(old(lines)@) + tool::content_views(
            content@,
        ).map_values(|piece: ContentView| content_line(piece)),
{
    let ghost views = tool::content_views(content@);
    let ghost wanted = views.map_values(|piece: ContentView| content_line(piece));
    let length: usize = content.len();
    let mut index: usize = 0;
    assert(rendered_views(lines@) =~= rendered_views(old(lines)@) + wanted.take(0));
    while index < length
        invariant
            index <= length,
            length == content@.len(),
            views == tool::content_views(content@),
            wanted == views.map_values(|piece: ContentView| content_line(piece)),
            rendered_views(lines@) == rendered_views(old(lines)@) + wanted.take(index as int),
        decreases length - index,
    {
        let ghost before = lines@;
        assert(views[index as int] == content@[index as int]@);
        match &content[index] {
            ToolContent::Text { text: value } => {
                lines.push(RenderedLine::Text(concat2("[tool-output] ", value.as_str())));
            },
            ToolContent::Json { fields } => {
                lines.push(
                    RenderedLine::Json {
                        label: "[tool-output] ",
                        fields,
                    },
                );
            },
        }
        index = index + 1;
        assert(rendered_views(lines@) =~= rendered_views(before).push(wanted[index - 1]));
        assert(rendered_views(lines@) =~= rendered_views(old(lines)@) + wanted.take(index as int));
    }
    assert(wanted.take(length as int) =~= wanted);
}

/// Executable form of [`event_lines`].
pub fn render_event<'a>(event: &'a AgentEvent) -> (lines: Vec<RenderedLine<'a>>)
    ensures
        rendered_views(lines@) == event_lines(event@),
{
    match event {
        AgentEvent::RunStarted { run_id, .. } => one_line(concat2("[run] started ", run_id.as_str())),
        AgentEvent::TurnStarted { turn_id, .. } => one_line(
            concat2("[turn] started ", turn_id.as_str()),
        ),
        AgentEvent::ModelOutput { event, .. } => one_line(render_model_event(event)),
        AgentEvent::ToolCallRequested { call, .. } => {
            let beginning = concat4("[tool-call] ", call.id.as_str(), " ", call.tool_name.as_str());
            one_line(concat3(beginning.as_str(), " ", call.arguments.as_str()))
        },
        AgentEvent::ApprovalRequested { request, .. } => {
            let beginning = concat4(
                "[approval] requested ",
                request.id.as_str(),
                " for ",
                request.call.tool_name.as_str(),
            );
            one_line(concat3(beginning.as_str(), ": ", request.reason.as_str()))
        },
        AgentEvent::ApprovalResolved { approval_id, decision, .. } => match decision {
            ApprovalDecision::Approve => one_line(
                concat3("[approval] ", approval_id.as_str(), " approved"),
            ),
            ApprovalDecision::Deny { reason } => one_line(
                concat4("[approval] ", approval_id.as_str(), " denied: ", reason.as_str()),
            ),
        },
        AgentEvent::ToolResult { result, .. } => match &result.output {
            ToolOutput::Success { content, .. } => {
                let mut lines = one_line(
                    concat3("[tool-result] ", result.call_id.as_str(), " success"),
                );
                render_content(&mut lines, content);
                lines
            },
            ToolOutput::Failure { error, .. } => {
                let beginning = concat4(
                    "[tool-result] ",
                    result.call_id.as_str(),
                    " failed ",
                    error.code.as_str(),
                );
                one_line(concat3(beginning.as_str(), ": ", error.message.as_str()))
            },
        },
        AgentEvent::Error { error, .. } => one_line(
            concat4("[error] ", error.code.as_str(), ": ", error.message.as_str()),
        ),
        AgentEvent::RunFinished { status, .. } => one_line(render_terminal_status(status)),
    }
}

/// What is shown of an event, by what came of appending it to the log: its lines
/// once it is recorded, and nothing before.
pub fn lines_after_append<'a, E>(event: &'a AgentEvent, appended: Result<(), E>) -> (lines: Result<
    Vec<RenderedLine<'a>>,
    E,
>)
    ensures
        match appended {
            Ok(_) => lines matches Ok(shown) && rendered_views(shown@) == event_lines(event@),
            Err(error) => lines == Err::<Vec<RenderedLine<'a>>, E>(error),
        },
{
    match appended {
        Ok(_) => Ok(render_event(event)),
        Err(error) => Err(error),
    }
}

/// Behind the lines of an event that was recorded: a run whose events cannot be
/// shown is cancelled.
pub fn after_rendering(rendered: bool, token: &mut RunStopToken)
    ensures
        rendered ==> final(token)@ == old(token)@,
        !rendered ==> final(token)@ == Some(
            stop::resolved(
                old(token)@,
                TerminalView::Cancelled {
                    reason: "terminal output failed while streaming Agent Events"@,
                },
            ),
        ),
{
    if !rendered {
        token.cancel("terminal output failed while streaming Agent Events".to_owned());
    }
}

} // verus!
