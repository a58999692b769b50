//! What passes between a run and the model: requests, messages, and the stream
//! of a model's turn.

use crate::tool;
use crate::tool::{ContentView, Field, FieldValueView, OutputView, ToolContent, ToolOutput};
use vstd::prelude::*;

verus! {

/// A tool call as the model asked for it. The arguments are JSON text.
#[derive(Clone, Debug, PartialEq, Eq)]
pub struct ModelToolCall {
    pub id: String,
    pub name: String,
    pub arguments: String,
}

/// The mathematical value of a [`ModelToolCall`].
pub struct ModelCallView {
    pub id: Seq<char>,
    pub name: Seq<char>,
    pub arguments: Seq<char>,
}

impl View for ModelToolCall {
    type V = ModelCallView;

    open spec fn view(&self) -> ModelCallView {
        ModelCallView { id: self.id@, name: self.name@, arguments: self.arguments@ }
    }
}

impl ModelToolCall {
    /// A copy.
    pub fn copy(&self) -> (copy: ModelToolCall)
        ensures
            copy@ == self@,
    {
        ModelToolCall {
            id: self.id.as_str().to_owned(),
            name: self.name.as_str().to_owned(),
            arguments: self.arguments.as_str().to_owned(),
        }
    }
}

/// The values of a sequence of calls.
pub open spec fn call_views(calls: Seq<ModelToolCall>) -> Seq<ModelCallView> {
    calls.map_values(|call: ModelToolCall| call@)
}

/// A copy of a sequence of calls.
pub fn copy_calls(calls: &Vec<ModelToolCall>) -> (copy: Vec<ModelToolCall>)
    ensures
        call_views(copy@) == call_views(calls@),
{
    let mut copy: Vec<ModelToolCall> = Vec::new();
    let mut index: usize = 0;
    let length: usize = calls.len();
    while index < length
        invariant
            index <= length,
            length == calls@.len(),
            call_views(copy@) == call_views(calls@).take(index as int),
        decreases length - index,
    {
        let ghost before = copy@;
        copy.push(calls[index].copy());
        index = index + 1;
        assert(call_views(copy@) =~= call_views(before).push(call_views(calls@)[index - 1]));
        assert(call_views(calls@).take(index as int) =~= call_views(calls@).take(
            index - 1,
        ).push(call_views(calls@)[index - 1]));
    }
    assert(call_views(calls@).take(length as int) =~= call_views(calls@));
    copy
}

/// Why the model failed.
#[derive(Clone, Debug, PartialEq, Eq)]
pub struct ModelError {
    pub code: String,
    pub message: String,
    pub retryable: bool,
}

/// The mathematical value of a [`ModelError`].
pub struct ModelErrorView {
    pub code: Seq<char>,
    pub message: Seq<char>,
    pub retryable: bool,
}

impl View for ModelError {
    type V = ModelErrorView;

    open spec fn view(&self) -> ModelErrorView {
        ModelErrorView { code: self.code@, message: self.message@, retryable: self.retryable }
    }
}

/// The tokens that a turn took.
#[derive(Clone, Copy, Debug, PartialEq, Eq, Structural)]
pub struct ModelUsage {
    pub input_tokens: u64,
    pub output_tokens: u64,
}

/// What an event carries beside its own fields: named JSON texts.
pub type Extensions = Vec<(String, String)>;

/// The mathematical value of [`Extensions`].
pub type ExtensionsView = Seq<(Seq<char>, Seq<char>)>;

/// The values of named texts.
pub open spec fn metadata_views(metadata: Seq<(String, String)>) -> Seq<(Seq<char>, Seq<char>)> {
    metadata.map_values(|entry: (String, String)| (entry.0@, entry.1@))
}

/// No extensions.
pub fn no_extensions() -> (extensions: Extensions)
    ensures
        metadata_views(extensions@) == ExtensionsView::empty(),
{
    let extensions: Extensions = Vec::new();
    assert(metadata_views(extensions@) =~= ExtensionsView::empty());
    extensions
}

/// One event of the stream of a model's turn.
#[derive(Clone, Debug, PartialEq, Eq)]
pub enum ModelStreamEvent {
    Started { request_id: Option<String>, extensions: Extensions },
    TextDelta { delta: String, extensions: Extensions },
    ToolCallDelta {
        id: String,
        name: Option<String>,
        arguments_delta: String,
        extensions: Extensions,
    },
    ToolCall { call: ModelToolCall, extensions: Extensions },
    Usage { usage: ModelUsage, extensions: Extensions },
    Completed { finish_reason: Option<String>, extensions: Extensions },
    Failed { error: ModelError, extensions: Extensions },
}

/// The mathematical value of a [`ModelStreamEvent`].
pub enum StreamEventView {
    Started { request_id: Option<Seq<char>>, extensions: ExtensionsView },
    TextDelta { delta: Seq<char>, extensions: ExtensionsView },
    ToolCallDelta {
        id: Seq<char>,
        name: Option<Seq<char>>,
        arguments_delta: Seq<char>,
        extensions: ExtensionsView,
    },
    ToolCall { call: ModelCallView, extensions: ExtensionsView },
    Usage { usage: ModelUsage, extensions: ExtensionsView },
    Completed { finish_reason: Option<Seq<char>>, extensions: ExtensionsView },
    Failed { error: ModelErrorView, extensions: ExtensionsView },
}

/// The value of an optional text.
pub open spec fn optional_text(text: Option<String>) -> Option<Seq<char>> {
    match text {
        Some(value) => Some(value@),
        None => None,
    }
}

impl View for ModelStreamEvent {
    type V = StreamEventView;

    open spec fn view(&self) -> StreamEventView {
        match *self {
            ModelStreamEvent::Started { request_id, extensions } => StreamEventView::Started {
                request_id: optional_text(request_id),
                extensions: metadata_views(extensions@),
            },
            ModelStreamEvent::TextDelta { delta, extensions } => StreamEventView::TextDelta {
                delta: delta@,
                extensions: metadata_views(extensions@),
            },
            ModelStreamEvent::ToolCallDelta { id, name, arguments_delta, extensions } => {
                StreamEventView::ToolCallDelta {
                    id: id@,
                    name: optional_text(name),
                    arguments_delta: arguments_delta@,
                    extensions: metadata_views(extensions@),
                }
            },
            ModelStreamEvent::ToolCall { call, extensions } => StreamEventView::ToolCall {
                call: call@,
                extensions: metadata_views(extensions@),
            },
            ModelStreamEvent::Usage { usage, extensions } => StreamEventView::Usage {
                usage,
                extensions: metadata_views(extensions@),
            },
            ModelStreamEvent::Completed { finish_reason, extensions } => {
                StreamEventView::Completed {
                    finish_reason: optional_text(finish_reason),
                    extensions: metadata_views(extensions@),
                }
            },
            ModelStreamEvent::Failed { error, extensions } => StreamEventView::Failed {
                error: error@,
                extensions: metadata_views(extensions@),
            },
        }
    }
}

/// One piece of a message to the model.
#[derive(Clone, Debug, PartialEq, Eq)]
pub enum ModelMessageContent {
    Text { text: String },
    Json { fields: Vec<Field> },
    /// The JSON form of a tool's failure.
    Failure { output: ToolOutput },
}

/// The mathematical value of a [`ModelMessageContent`].
pub enum MessageContentView {
    Text(Seq<char>),
    Json(Seq<(Seq<char>, FieldValueView)>),
    Failure(OutputView),
}

impl View for ModelMessageContent {
    type V = MessageContentView;

    open spec fn view(&self) -> MessageContentView {
        match *self {
            ModelMessageContent::Text { text } => MessageContentView::Text(text@),
            ModelMessageContent::Json { fields } => {
                MessageContentView::Json(tool::field_views(fields@))
            },
            ModelMessageContent::Failure { output } => MessageContentView::Failure(output@),
        }
    }
}

/// The values of a sequence of pieces.
pub open spec fn message_contents(pieces: Seq<ModelMessageContent>) -> Seq<MessageContentView> {
    pieces.map_values(|piece: ModelMessageContent| piece@)
}

/// A message of the conversation with the model.
#[derive(Clone, Debug, PartialEq, Eq)]
pub enum ModelMessage {
    User { text: String },
    /// What the model said, and the tools that it called.
    Assistant { text: Option<String>, tool_calls: Vec<ModelToolCall> },
    /// What a tool call came to.
    Tool { content: Vec<ModelMessageContent>, name: String, tool_call_id: String },
}

/// The mathematical value of a [`ModelMessage`].
pub enum MessageView {
    User { text: Seq<char> },
    Assistant { text: Option<Seq<char>>, tool_calls: Seq<ModelCallView> },
    Tool { content: Seq<MessageContentView>, name: Seq<char>, tool_call_id: Seq<char> },
}

impl View for ModelMessage {
    type V = MessageView;

    open spec fn view(&self) -> MessageView {
        match *self {
            ModelMessage::User { text } => MessageView::User { text: text@ },
            ModelMessage::Assistant { text, tool_calls } => MessageView::Assistant {
                text: optional_text(text),
                tool_calls: call_views(tool_calls@),
            },
            ModelMessage::Tool { content, name, tool_call_id } => MessageView::Tool {
                content: message_contents(content@),
                name: name@,
                tool_call_id: tool_call_id@,
            },
        }
    }
}

/// The values of a sequence of messages.
pub open spec fn message_views(messages: Seq<ModelMessage>) -> Seq<MessageView> {
    messages.map_values(|message: ModelMessage| message@)
}

/// What the model is told of a tool's output: each piece of a success, or the
/// whole of a failure.
pub open spec fn result_content(output: OutputView) -> Seq<MessageContentView> {
    match output {
        OutputView::Success { content, .. } => content.map_values(
            |piece: ContentView| match piece {
                ContentView::Text(text) => MessageContentView::Text(text),
                ContentView::Json(fields) => MessageContentView::Json(fields),
            },
        ),
        OutputView::Failure { .. } => seq![MessageContentView::Failure(output)],
    }
}

/// Executable form of [`result_content`].
pub fn tool_result_content(output: ToolOutput) -> (content: Vec<ModelMessageContent>)
    ensures
        message_contents(content@) == result_content(output@),
{
    let ghost whole = output@;
    let mut pieces = match output {
        ToolOutput::Success { content, .. } => content,
        ToolOutput::Failure { error, extensions } => {
            let mut failed: Vec<ModelMessageContent> = Vec::new();
            failed.push(
                ModelMessageContent::Failure {
                    output: ToolOutput::Failure { error, extensions },
                },
            );
            assert(message_contents(failed@) =~= result_content(whole));
            return failed;
        },
    };
    let ghost all = pieces@;
    let mut content: Vec<ModelMessageContent> = Vec::new();
    let ghost wanted = result_content(whole);
    assert(wanted.len() == all.len());
    assert forall|at: int| 0 <= at < all.len() implies #[trigger] tool::content_views(all)[at]
        == all[at]@ by {}
    while pieces.len() > 0
        invariant
            pieces@.len() + content@.len() == all.len(),
            pieces@ == all.skip(content@.len() as int),
            wanted.len() == all.len(),
            message_contents(content@) == wanted.take(content@.len() as int),
            forall|at: int|
                0 <= at < all.len() ==> #[trigger] wanted[at] == (match all[at]@ {
                    ContentView::Text(text) => MessageContentView::Text(text),
                    ContentView::Json(fields) => MessageContentView::Json(fields),
                }),
        decreases pieces@.len(),
    {
        let ghost done = content@.len() as int;
        let ghost before = content@;
        let piece = pieces.remove(0);
        assert(piece == all[done]);
        assert(pieces@ =~= all.skip(done + 1));
        match piece {
            ToolContent::Text { text } => {
                content.push(ModelMessageContent::Text { text });
            },
            ToolContent::Json { fields } => {
                content.push(ModelMessageContent::Json { fields });
            },
        }
        assert(message_contents(content@) =~= message_contents(before).push(wanted[done]));
        assert(wanted.take(done + 1) =~= wanted.take(done).push(wanted[done]));
    }
    assert(wanted.take(wanted.len() as int) =~= wanted);
    content
}

/// A tool as the model is told of it. The schema is JSON text.
#[derive(Clone, Debug, PartialEq, Eq)]
pub struct ModelToolSpec {
    pub name: String,
    pub description: String,
    pub input_schema: String,
}

/// The mathematical value of a [`ModelToolSpec`].
pub struct ToolSpecView {
    pub name: Seq<char>,
    pub description: Seq<char>,
    pub input_schema: Seq<char>,
}

impl View for ModelToolSpec {
    type V = ToolSpecView;

    open spec fn view(&self) -> ToolSpecView {
        ToolSpecView {
            name: self.name@,
            description: self.description@,
            input_schema: self.input_schema@,
        }
    }
}

/// The values of a sequence of tools.
pub open spec fn tool_spec_views(tools: Seq<ModelToolSpec>) -> Seq<ToolSpecView> {
    tools.map_values(|tool: ModelToolSpec| tool@)
}

/// What the model is asked.
#[derive(Clone, Debug, PartialEq, Eq)]
pub struct ModelRequest {
    pub model: String,
    pub messages: Vec<ModelMessage>,
    pub tools: Vec<ModelToolSpec>,
    /// Named JSON texts.
    pub metadata: Vec<(String, String)>,
}

/// The mathematical value of a [`ModelRequest`].
pub struct RequestView {
    pub model: Seq<char>,
    pub messages: Seq<MessageView>,
    pub tools: Seq<ToolSpecView>,
    pub metadata: Seq<(Seq<char>, Seq<char>)>,
}

impl View for ModelRequest {
    type V = RequestView;

    open spec fn view(&self) -> RequestView {
        RequestView {
            model: self.model@,
            messages: message_views(self.messages@),
            tools: tool_spec_views(self.tools@),
            metadata: metadata_views(self.metadata@),
        }
    }
}

} // verus!
