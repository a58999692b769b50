//! Tool calls and what they come to.

use crate::workspace::{WorkspaceMetadata, WorkspaceMetadataView};
use vstd::prelude::*;

verus! {

/// A line that a search found.
#[derive(Clone, Debug, PartialEq, Eq)]
pub struct SearchMatch {
    pub path: String,
    pub line: u64,
    pub text: String,
}

/// The mathematical value of a [`SearchMatch`].
pub struct MatchView {
    pub path: Seq<char>,
    pub line: u64,
    pub text: Seq<char>,
}

impl View for SearchMatch {
    type V = MatchView;

    open spec fn view(&self) -> MatchView {
        MatchView { path: self.path@, line: self.line, text: self.text@ }
    }
}

/// The values of a sequence of matches.
pub open spec fn match_views(matches: Seq<SearchMatch>) -> Seq<MatchView> {
    matches.map_values(|found: SearchMatch| found@)
}

/// The value of a member of a tool's structured output.
#[derive(Clone, Debug, PartialEq, Eq)]
pub enum FieldValue {
    Null,
    Flag(bool),
    Number(u64),
    Signed(i32),
    Text(String),
    Texts(Vec<String>),
    Matches(Vec<SearchMatch>),
    Workspace(WorkspaceMetadata),
}

/// The mathematical value of a [`FieldValue`].
pub enum FieldValueView {
    Null,
    Flag(bool),
    Number(u64),
    Signed(i32),
    Text(Seq<char>),
    Texts(Seq<Seq<char>>),
    Matches(Seq<MatchView>),
    Workspace(WorkspaceMetadataView),
}

impl View for FieldValue {
    type V = FieldValueView;

    open spec fn view(&self) -> FieldValueView {
        match self {
            FieldValue::Null => FieldValueView::Null,
            FieldValue::Flag(flag) => FieldValueView::Flag(*flag),
            FieldValue::Number(number) => FieldValueView::Number(*number),
            FieldValue::Signed(number) => FieldValueView::Signed(*number),
            FieldValue::Text(text) => FieldValueView::Text(text@),
            FieldValue::Texts(texts) => FieldValueView::Texts(crate::text::texts(texts@)),
            FieldValue::Matches(matches) => FieldValueView::Matches(match_views(matches@)),
            FieldValue::Workspace(workspace) => FieldValueView::Workspace(workspace@),
        }
    }
}

/// A named member of a tool's structured output.
#[derive(Clone, Debug, PartialEq, Eq)]
pub struct Field {
    pub name: String,
    pub value: FieldValue,
}

impl View for Field {
    type V = (Seq<char>, FieldValueView);

    open spec fn view(&self) -> (Seq<char>, FieldValueView) {
        (self.name@, self.value@)
    }
}

/// The values of a sequence of fields.
pub open spec fn field_views(fields: Seq<Field>) -> Seq<(Seq<char>, FieldValueView)> {
    fields.map_values(|field: Field| field@)
}

/// Appends a field.
pub fn push_field(fields: &mut Vec<Field>, name: &str, value: FieldValue)
    ensures
        field_views(final(fields)@) == field_views(old(fields)@).push((name@, value@)),
{
    fields.push(Field { name: name.to_owned(), value });
    assert(field_views(fields@) == field_views(old(fields)@).push((name@, value@)));
}

/// No fields.
pub fn no_fields() -> (fields: Vec<Field>)
    ensures
        field_views(fields@) == Seq::<(Seq<char>, FieldValueView)>::empty(),
{
    let fields: Vec<Field> = Vec::new();
    assert(field_views(fields@) == Seq::<(Seq<char>, FieldValueView)>::empty());
    fields
}

/// One piece of what a successful tool shows.
#[derive(Clone, Debug, PartialEq, Eq)]
pub enum ToolContent {
    Text { text: String },
    Json { fields: Vec<Field> },
}

/// The mathematical value of a [`ToolContent`].
pub enum ContentView {
    Text(Seq<char>),
    Json(Seq<(Seq<char>, FieldValueView)>),
}

impl View for ToolContent {
    type V = ContentView;

    open spec fn view(&self) -> ContentView {
        match self {
            ToolContent::Text { text } => ContentView::Text(text@),
            ToolContent::Json { fields } => ContentView::Json(field_views(fields@)),
        }
    }
}

/// The values of a sequence of contents.
pub open spec fn content_views(content: Seq<ToolContent>) -> Seq<ContentView> {
    content.map_values(|piece: ToolContent| piece@)
}

/// A single piece of content.
pub fn one_content(piece: ToolContent) -> (content: Vec<ToolContent>)
    ensures
        content_views(content@) == seq![piece@],
{
    let mut content: Vec<ToolContent> = Vec::new();
    content.push(piece);
    assert(content_views(content@) == seq![piece@]);
    content
}

/// Why a tool failed.
#[derive(Clone, Debug, PartialEq, Eq)]
pub struct ToolError {
    pub code: String,
    pub message: String,
    pub retryable: bool,
}

/// The mathematical value of a [`ToolError`].
pub struct ToolErrorView {
    pub code: Seq<char>,
    pub message: Seq<char>,
    pub retryable: bool,
}

impl View for ToolError {
    type V = ToolErrorView;

    open spec fn view(&self) -> ToolErrorView {
        ToolErrorView { code: self.code@, message: self.message@, retryable: self.retryable }
    }
}

/// What a tool call came to.
#[derive(Clone, Debug, PartialEq, Eq)]
pub enum ToolOutput {
    Success { content: Vec<ToolContent>, metadata: Vec<Field>, extensions: Vec<Field> },
    Failure { error: ToolError, extensions: Vec<Field> },
}

/// The mathematical value of a [`ToolOutput`].
pub enum OutputView {
    Success {
        content: Seq<ContentView>,
        metadata: Seq<(Seq<char>, FieldValueView)>,
        extensions: Seq<(Seq<char>, FieldValueView)>,
    },
    Failure { error: ToolErrorView, extensions: Seq<(Seq<char>, FieldValueView)> },
}

impl View for ToolOutput {
    type V = OutputView;

    open spec fn view(&self) -> OutputView {
        match self {
            ToolOutput::Success { content, metadata, extensions } => OutputView::Success {
                content: content_views(content@),
                metadata: field_views(metadata@),
                extensions: field_views(extensions@),
            },
            ToolOutput::Failure { error, extensions } => OutputView::Failure {
                error: error@,
                extensions: field_views(extensions@),
            },
        }
    }
}

} // verus!
