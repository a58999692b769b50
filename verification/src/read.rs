//! Reading a file of the workspace.

use crate::io_failure::{ErrorKind, IoFailure, IoFailureView};
use crate::output_size;
use crate::output_size::finalize_output;
use crate::search_model;
use crate::text::{byte_len, concat2, concat3};
use crate::tool;
use crate::tool::{
    no_fields, one_content, push_field, ContentView, FieldValue, FieldValueView, OutputView,
    ToolContent, ToolOutput,
};
use crate::tool_support;
use crate::tool_support::{
    display_relative_path, failure, object_members, truncate_json_string, workspace_path_failure,
    Members, ToolArguments, MAX_OUTPUT_BYTES, MAX_TOOL_CONTENT_SERIALIZED_BYTES,
};
use crate::utf8;
use crate::utf8::{check_utf8, Utf8Check};
use crate::workspace::{
    PathErrorView, ResolvedWorkspacePath, WorkspaceContext, WorkspacePathError, WorkspaceView,
};
use vstd::prelude::*;
use vstd::slice::slice_subrange;

verus! {

/// The longest path, in bytes.
pub const MAX_READ_PATH_BYTES: usize = 8192;

/// The path that the members of an arguments object name.
pub open spec fn path_argument(members: Option<Seq<(Seq<char>, Option<Seq<char>>)>>) -> Result<
    Seq<char>,
    OutputView,
> {
    match tool_support::refused_arguments(members, seq!["path"@]) {
        Some(output) => Err(output),
        None => match tool_support::required_text(members->Some_0, "path"@) {
            Err(output) => Err(output),
            Ok(path) => if vstd::utf8::encode_utf8(path).len() > MAX_READ_PATH_BYTES {
                Err(
                    tool_support::failure_view(
                        "invalid_arguments"@,
                        "argument 'path' exceeds 8192 bytes"@,
                        false,
                    ),
                )
            } else {
                Ok(path)
            },
        },
    }
}

/// The path that the members of an arguments object name.
pub fn path_from_members(members: Option<Members>) -> (result: Result<String, ToolOutput>)
    ensures
        match result {
            Ok(path) => path_argument(tool_support::optional_member_views(members)) == Ok::<
                Seq<char>,
                OutputView,
            >(path@),
            Err(output) => path_argument(tool_support::optional_member_views(members)) == Err::<
                Seq<char>,
                OutputView,
            >(output@),
        },
{
    let allowed: [&str; 1] = ["path"];
    assert(tool_support::name_views(allowed@) =~= seq!["path"@]);
    let arguments = match ToolArguments::from_members(members, &allowed) {
        Ok(arguments) => arguments,
        Err(output) => {
            return Err(output);
        },
    };
    let path = match arguments.required_string("path") {
        Ok(path) => path,
        Err(output) => {
            return Err(output);
        },
    };
    if byte_len(path.as_str()) > MAX_READ_PATH_BYTES {
        return Err(failure("invalid_arguments", "argument 'path' exceeds 8192 bytes", false));
    }
    Ok(path)
}

/// Executable form of [`cancelled_view`].
pub fn read_cancelled() -> (output: ToolOutput)
    ensures
        output@ == cancelled_view(),
{
    failure("tool_cancelled", "read_file was cancelled", false)
}

/// The failure of a read that could not open its file.
pub open spec fn open_failure(path: Seq<char>, source: IoFailureView) -> OutputView {
    if source.kind == ErrorKind::InvalidInput {
        tool_support::failure_view(
            "path_is_not_file"@,
            "'"@ + path + "' is not a file"@,
            false,
        )
    } else {
        tool_support::failure_view(
            "workspace_io_error"@,
            "failed to open '"@ + path + "': "@ + source.message,
            source.kind == ErrorKind::Interrupted,
        )
    }
}

/// Executable form of [`open_failure`].
pub fn read_open_failure(path: &str, source: &IoFailure) -> (output: ToolOutput)
    ensures
        output@ == open_failure(path@, source@),
{
    if source.kind == ErrorKind::InvalidInput {
        let message = concat3("'", path, "' is not a file");
        return failure("path_is_not_file", message.as_str(), false);
    }
    let mut message = concat3("failed to open '", path, "': ");
    message.push_str(source.message.as_str());
    failure("workspace_io_error", message.as_str(), source.is_interrupted())
}

/// The failure of a read that broke off.
pub open spec fn broken_off(path: Seq<char>, source: IoFailureView) -> OutputView {
    tool_support::failure_view(
        "workspace_io_error"@,
        "failed to read '"@ + path + "': "@ + source.message,
        source.kind == ErrorKind::Interrupted,
    )
}

/// Executable form of [`broken_off`].
pub fn read_failure(path: &str, source: &IoFailure) -> (output: ToolOutput)
    ensures
        output@ == broken_off(path@, source@),
{
    let mut message = concat3("failed to read '", path, "': ");
    message.push_str(source.message.as_str());
    failure("workspace_io_error", message.as_str(), source.is_interrupted())
}

/// The text of a file, or of its beginning, where a character may break off.
pub open spec fn file_text(bytes: Seq<u8>, truncated: bool) -> Result<Seq<char>, Seq<char>> {
    if vstd::utf8::valid_utf8(bytes) {
        Ok(vstd::utf8::decode_utf8(bytes))
    } else if truncated && utf8::extensible(bytes) {
        Ok(vstd::utf8::decode_utf8(bytes.take(search_model::valid_prefix_len(bytes))))
    } else {
        Err("file content is not valid UTF-8: "@ + utf8::utf8_error_text(bytes))
    }
}

fn utf8_prefix(bytes: &[u8], truncated: bool) -> (result: Result<String, String>)
    ensures
        match result {
            Ok(text) => file_text(bytes@, truncated) == Ok::<Seq<char>, Seq<char>>(text@),
            Err(message) => file_text(bytes@, truncated) == Err::<Seq<char>, Seq<char>>(
                message@,
            ),
        },
{
    match check_utf8(bytes) {
        Utf8Check::Valid(text) => Ok(text),
        Utf8Check::Incomplete { valid_up_to, message } => {
            if !truncated {
                return Err(concat2("file content is not valid UTF-8: ", message.as_str()));
            }
            let prefix = slice_subrange(bytes, 0, valid_up_to);
            proof {
                utf8::lemma_longest_valid_prefix_unique(
                    bytes@,
                    valid_up_to as int,
                    search_model::valid_prefix_len(bytes@),
                );
                assert(prefix@ == bytes@.take(valid_up_to as int));
            }
            match check_utf8(prefix) {
                Utf8Check::Valid(text) => Ok(text),
                _ => Err(message),
            }
        },
        Utf8Check::Invalid { valid_up_to: _, message } => Err(
            concat2("file content is not valid UTF-8: ", message.as_str()),
        ),
    }
}

/// Whether the bytes read from a file of `file_length` are only its beginning.
pub open spec fn is_truncated(file_length: u64, bytes: Seq<u8>) -> bool {
    file_length > MAX_OUTPUT_BYTES || bytes.len() > MAX_OUTPUT_BYTES
}

/// The bytes of a file that are shown.
pub open spec fn shown_bytes(bytes: Seq<u8>) -> Seq<u8> {
    if bytes.len() > MAX_OUTPUT_BYTES {
        bytes.take(MAX_OUTPUT_BYTES as int)
    } else {
        bytes
    }
}

/// The output of a read before its length is bounded, given the bytes from the
/// beginning of the file.
pub open spec fn read_result(
    path: Seq<char>,
    file_length: u64,
    bytes: Seq<u8>,
    workspace: WorkspaceView,
) -> OutputView {
    let cut = is_truncated(file_length, bytes);
    match file_text(shown_bytes(bytes), cut) {
        Err(message) => tool_support::failure_view("file_not_utf8"@, message, false),
        Ok(text) => {
            let limit = MAX_TOOL_CONTENT_SERIALIZED_BYTES as nat;
            let shown = tool_support::json_prefix(text, limit);
            let truncated = cut || tool_support::is_cut(text, limit);
            let fields = seq![
                ("path"@, FieldValueView::Text(tool_support::displayed_path(path))),
                ("bytes"@, FieldValueView::Number(file_length)),
                (
                    "returned_bytes"@,
                    FieldValueView::Number(vstd::utf8::encode_utf8(shown).len() as u64),
                ),
                ("truncated"@, FieldValueView::Flag(truncated)),
                ("workspace"@, FieldValueView::Workspace(workspace.metadata())),
            ];
            OutputView::Success {
                content: seq![ContentView::Text(shown)],
                metadata: if truncated {
                    fields.push(("truncation_limit_bytes"@, FieldValueView::Number(49152)))
                } else {
                    fields
                },
                extensions: Seq::empty(),
            }
        },
    }
}

/// The output of a read, given the bytes from the beginning of the file.
pub open spec fn read_output_view(
    path: Seq<char>,
    file_length: u64,
    bytes: Seq<u8>,
    workspace: WorkspaceView,
) -> OutputView {
    output_size::finalized(read_result(path, file_length, bytes, workspace))
}

/// The output of a read, given the bytes from the beginning of the file.
pub fn read_output(path: &str, file_length: u64, bytes: &[u8], workspace: &WorkspaceContext) -> (
output: ToolOutput)
    ensures
        output@ == read_output_view(path@, file_length, bytes@, workspace@),
{
    let length: usize = bytes.len();
    let cut = file_length > 65536 || length > MAX_OUTPUT_BYTES;
    let visible = if length > MAX_OUTPUT_BYTES {
        slice_subrange(bytes, 0, MAX_OUTPUT_BYTES)
    } else {
        bytes
    };
    assert(visible@ == shown_bytes(bytes@));
    let text = match utf8_prefix(visible, cut) {
        Ok(text) => text,
        Err(message) => {
            return failure("file_not_utf8", message.as_str(), false);
        },
    };
    let (shown, serialization_truncated) = truncate_json_string(
        text.as_str(),
        MAX_TOOL_CONTENT_SERIALIZED_BYTES,
    );
    let truncated = cut || serialization_truncated;
    let mut metadata = no_fields();
    push_field(&mut metadata, "path", FieldValue::Text(display_relative_path(path)));
    push_field(&mut metadata, "bytes", FieldValue::Number(file_length));
    push_field(
        &mut metadata,
        "returned_bytes",
        FieldValue::Number(byte_len(shown.as_str()) as u64),
    );
    push_field(&mut metadata, "truncated", FieldValue::Flag(truncated));
    push_field(&mut metadata, "workspace", FieldValue::Workspace(workspace.metadata()));
    if truncated {
        push_field(&mut metadata, "truncation_limit_bytes", FieldValue::Number(49152));
    }
    let ghost expected = read_result(path@, file_length, bytes@, workspace@);
    assert(tool::field_views(metadata@) =~= expected->Success_metadata);
    finalize_output(
        ToolOutput::Success {
            content: one_content(ToolContent::Text { text: shown }),
            metadata,
            extensions: no_fields(),
        },
    )
}

/// How far a read has come.
pub enum ReadView {
    /// The path that was asked for is to be looked up.
    Resolving { requested: Seq<char> },
    /// The file is to be opened.
    Opening { path: Seq<char> },
    /// The beginning of the file is to be read.
    Reading { path: Seq<char>, file_length: u64 },
    /// The bytes are there, and the cancellation is to be asked once more.
    Polling { path: Seq<char>, file_length: u64, bytes: Seq<u8> },
    /// The read is over.
    Finished(OutputView),
}

/// What the outside says to a read.
pub enum ReadEventView {
    Resolved(Result<Seq<char>, PathErrorView>),
    Opened(Result<u64, IoFailureView>),
    Bytes(Result<Seq<u8>, IoFailureView>),
    Cancellation(bool),
}

/// The failure of a read that was asked to stop.
pub open spec fn cancelled_view() -> OutputView {
    tool_support::failure_view("tool_cancelled"@, "read_file was cancelled"@, false)
}

/// A read at its beginning: the cancellation is asked before the arguments are
/// looked at.
pub open spec fn begun(
    members: Option<Seq<(Seq<char>, Option<Seq<char>>)>>,
    cancelled: bool,
) -> ReadView {
    if cancelled {
        ReadView::Finished(cancelled_view())
    } else {
        match path_argument(members) {
            Ok(requested) => ReadView::Resolving { requested },
            Err(output) => ReadView::Finished(output),
        }
    }
}

impl ReadView {
    /// The read after an event; one that is out of place changes nothing.
    pub open spec fn step(self, event: ReadEventView, workspace: WorkspaceView) -> ReadView {
        match (self, event) {
            (ReadView::Resolving { .. }, ReadEventView::Resolved(Ok(path))) => ReadView::Opening {
                path,
            },
            (ReadView::Resolving { .. }, ReadEventView::Resolved(Err(error))) => {
                ReadView::Finished(tool_support::failure_view(error.code(), error.message(), error.retryable()))
            },
            (ReadView::Opening { path }, ReadEventView::Opened(Ok(file_length))) => {
                ReadView::Reading { path, file_length }
            },
            (ReadView::Opening { path }, ReadEventView::Opened(Err(source))) => {
                ReadView::Finished(open_failure(path, source))
            },
            (ReadView::Reading { path, file_length }, ReadEventView::Bytes(Ok(bytes))) => {
                ReadView::Polling { path, file_length, bytes }
            },
            (ReadView::Reading { path, .. }, ReadEventView::Bytes(Err(source))) => {
                ReadView::Finished(broken_off(path, source))
            },
            (
                ReadView::Polling { path, file_length, bytes },
                ReadEventView::Cancellation(cancelled),
            ) => if cancelled {
                ReadView::Finished(cancelled_view())
            } else {
                ReadView::Finished(read_output_view(path, file_length, bytes, workspace))
            },
            (state, _) => state,
        }
    }
}

/// A read of a file, step by step.
#[derive(Debug, PartialEq, Eq)]
pub enum ReadRun {
    /// The path that was asked for is to be looked up.
    Resolving { requested: String },
    /// The file is to be opened.
    Opening { path: String },
    /// The beginning of the file is to be read.
    Reading { path: String, file_length: u64 },
    /// The bytes are there, and the cancellation is to be asked once more.
    Polling { path: String, file_length: u64, bytes: Vec<u8> },
    /// The read is over.
    Finished(ToolOutput),
}

impl View for ReadRun {
    type V = ReadView;

    open spec fn view(&self) -> ReadView {
        match self {
            ReadRun::Resolving { requested } => ReadView::Resolving { requested: requested@ },
            ReadRun::Opening { path } => ReadView::Opening { path: path@ },
            ReadRun::Reading { path, file_length } => ReadView::Reading {
                path: path@,
                file_length: *file_length,
            },
            ReadRun::Polling { path, file_length, bytes } => ReadView::Polling {
                path: path@,
                file_length: *file_length,
                bytes: bytes@,
            },
            ReadRun::Finished(output) => ReadView::Finished(output@),
        }
    }
}

/// What the outside says to a read.
#[derive(Debug, PartialEq, Eq)]
pub enum ReadEvent {
    /// The path was looked up.
    Resolved(Result<ResolvedWorkspacePath, WorkspacePathError>),
    /// The file was opened, and is this long.
    Opened(Result<u64, IoFailure>),
    /// The beginning of the file was read, at least [`MAX_OUTPUT_BYTES`] and
    /// four more where the file is that long.
    Bytes(Result<Vec<u8>, IoFailure>),
    /// Whether the read is asked to stop.
    Cancellation(bool),
}

impl View for ReadEvent {
    type V = ReadEventView;

    open spec fn view(&self) -> ReadEventView {
        match self {
            ReadEvent::Resolved(Ok(resolved)) => ReadEventView::Resolved(
                Ok(resolved.relative_path@),
            ),
            ReadEvent::Resolved(Err(error)) => ReadEventView::Resolved(Err(error@)),
            ReadEvent::Opened(Ok(file_length)) => ReadEventView::Opened(Ok(*file_length)),
            ReadEvent::Opened(Err(source)) => ReadEventView::Opened(Err(source@)),
            ReadEvent::Bytes(Ok(bytes)) => ReadEventView::Bytes(Ok(bytes@)),
            ReadEvent::Bytes(Err(source)) => ReadEventView::Bytes(Err(source@)),
            ReadEvent::Cancellation(cancelled) => ReadEventView::Cancellation(*cancelled),
        }
    }
}

impl ReadRun {
    /// Begins a read with the JSON text of its arguments.
    pub fn begin(arguments: &str, cancelled: bool) -> (run: ReadRun)
        ensures
            run@ == begun(tool_support::json_object_members(arguments@), cancelled),
    {
        let members = object_members(arguments);
        ReadRun::begin_with(members, cancelled)
    }

    /// Begins a read with the members of its arguments object.
    pub fn begin_with(members: Option<Members>, cancelled: bool) -> (run: ReadRun)
        ensures
            run@ == begun(tool_support::optional_member_views(members), cancelled),
    {
        if cancelled {
            return ReadRun::Finished(read_cancelled());
        }
        match path_from_members(members) {
            Ok(requested) => ReadRun::Resolving { requested },
            Err(output) => ReadRun::Finished(output),
        }
    }

    /// Moves the read on by an event.
    pub fn advance(self, event: ReadEvent, workspace: &WorkspaceContext) -> (run: ReadRun)
        ensures
            run@ == self@.step(event@, workspace@),
    {
        match (self, event) {
            (ReadRun::Resolving { .. }, ReadEvent::Resolved(Ok(resolved))) => ReadRun::Opening {
                path: resolved.relative_path,
            },
            (ReadRun::Resolving { .. }, ReadEvent::Resolved(Err(error))) => ReadRun::Finished(
                workspace_path_failure(&error),
            ),
            (ReadRun::Opening { path }, ReadEvent::Opened(Ok(file_length))) => ReadRun::Reading {
                path,
                file_length,
            },
            (ReadRun::Opening { path }, ReadEvent::Opened(Err(source))) => ReadRun::Finished(
                read_open_failure(path.as_str(), &source),
            ),
            (ReadRun::Reading { path, file_length }, ReadEvent::Bytes(Ok(bytes))) => {
                ReadRun::Polling { path, file_length, bytes }
            },
            (ReadRun::Reading { path, .. }, ReadEvent::Bytes(Err(source))) => ReadRun::Finished(
                read_failure(path.as_str(), &source),
            ),
            (
                ReadRun::Polling { path, file_length, bytes },
                ReadEvent::Cancellation(cancelled),
            ) => {
                if cancelled {
                    ReadRun::Finished(read_cancelled())
                } else {
                    ReadRun::Finished(
                        read_output(path.as_str(), file_length, bytes.as_slice(), workspace),
                    )
                }
            },
            (run, _) => run,
        }
    }
}

/// The text that a read shows takes no more room in JSON than contents may, and
/// where it is not all of the file, the output says so.
pub proof fn law_read_texts_fit(
    path: Seq<char>,
    file_length: u64,
    bytes: Seq<u8>,
    workspace: WorkspaceView,
)
    ensures
        read_output_view(path, file_length, bytes, workspace) matches OutputView::Success {
            content,
            metadata,
            ..
        } ==> {
            &&& content.len() == 1
            &&& content[0] matches ContentView::Text(text) && {
                &&& tool_support::json_string_len(text) <= MAX_TOOL_CONTENT_SERIALIZED_BYTES
                &&& vstd::utf8::encode_utf8(text) != bytes ==> metadata[3] == (
                    "truncated"@,
                    FieldValueView::Flag(true),
                )
            }
        },
{
    let cut = is_truncated(file_length, bytes);
    if let Ok(text) = file_text(shown_bytes(bytes), cut) {
        tool_support::law_cut_texts_fit_their_limit(
            text,
            MAX_TOOL_CONTENT_SERIALIZED_BYTES as nat,
        );
        if !cut {
            vstd::utf8::decode_utf8_encode_utf8(bytes);
        }
    }
}

} // verus!
