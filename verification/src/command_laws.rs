//! What the output of a command says of the command.

use crate::capture;
use crate::capture::{CaptureView, Channel, PairView, ReadView};
use crate::command_cleanup::CommandCleanupCompletion;
use crate::command_control::{ControlAction, ControlEventView, ControlView, ExitOutcome};
use crate::command_run;
use crate::command_run::{OutcomeView, Platform};
use crate::command_tool;
use crate::output_laws;
use crate::output_size;
use crate::tool::{ContentView, FieldValueView, OutputView};
use crate::tool_support;
use crate::workspace::WorkspaceView;
use vstd::prelude::*;

verus! {

/// A command that ended is reported with its exit code, and as a success exactly
/// where that code is there and is zero.
pub proof fn law_success_is_exit_code_zero(
    outcome: OutcomeView,
    workspace: WorkspaceView,
    platform: Platform,
)
    ensures
        output_size::finalized(
            command_tool::success(outcome, workspace, platform),
        ) matches OutputView::Success { content, .. } && {
            &&& content.len() == 1
            &&& content[0] matches ContentView::Json(fields)
            &&& fields.len() == 4
            &&& match outcome.status.code {
                Some(code) => {
                    &&& fields[0] == ("success"@, FieldValueView::Flag(code == 0))
                    &&& fields[1] == ("exit_code"@, FieldValueView::Signed(code))
                },
                None => {
                    &&& fields[0] == ("success"@, FieldValueView::Flag(false))
                    &&& fields[1] == ("exit_code"@, FieldValueView::Null)
                },
            }
        },
{
    let fields = command_tool::ending_fields(outcome);
    let content = seq![ContentView::Json(fields)];
    assert(fields.map_values(
        |field: (Seq<char>, FieldValueView)| (field.0, output_size::cut_list(field.1)),
    ) =~= fields);
    assert(content.map_values(|piece: ContentView| output_size::cut_content(piece)) =~= content);
}

/// What a command wrote is shown under the name of its stream, from its
/// beginning: all of it where it has no more than 4000 characters, and where
/// something is missing, this is said.
pub proof fn law_streams_are_shown(
    outcome: OutcomeView,
    workspace: WorkspaceView,
    platform: Platform,
)
    ensures
        output_size::finalized(
            command_tool::success(outcome, workspace, platform),
        ) matches OutputView::Success { content, metadata, .. } && {
            &&& content.len() == 1
            &&& content[0] matches ContentView::Json(fields)
            &&& fields.len() == 4
            &&& fields[2].0 == "stdout"@
            &&& fields[2].1 matches FieldValueView::Text(stdout) && {
                &&& stdout.is_prefix_of(outcome.stdout)
                &&& outcome.stdout.len() <= 4000 ==> stdout == outcome.stdout
                &&& metadata[4] == (
                    "stdout_truncated"@,
                    FieldValueView::Flag(outcome.stdout_truncated || stdout != outcome.stdout),
                )
            }
            &&& fields[3].0 == "stderr"@
            &&& fields[3].1 matches FieldValueView::Text(stderr) && {
                &&& stderr.is_prefix_of(outcome.stderr)
                &&& outcome.stderr.len() <= 4000 ==> stderr == outcome.stderr
                &&& metadata[5] == (
                    "stderr_truncated"@,
                    FieldValueView::Flag(outcome.stderr_truncated || stderr != outcome.stderr),
                )
            }
            &&& metadata[2] == ("stdout_bytes"@, FieldValueView::Number(outcome.stdout_bytes))
            &&& metadata[3] == ("stderr_bytes"@, FieldValueView::Number(outcome.stderr_bytes))
        },
{
    let limit = command_tool::MAX_STREAM_SERIALIZED_BYTES as nat;
    let fields = command_tool::ending_fields(outcome);
    let content = seq![ContentView::Json(fields)];
    assert(fields.map_values(
        |field: (Seq<char>, FieldValueView)| (field.0, output_size::cut_list(field.1)),
    ) =~= fields);
    assert(content.map_values(|piece: ContentView| output_size::cut_content(piece)) =~= content);
    tool_support::law_cut_texts_fit_their_limit(outcome.stdout, limit);
    tool_support::law_cut_texts_fit_their_limit(outcome.stderr, limit);
    output_laws::lemma_name_len(outcome.stdout);
    output_laws::lemma_name_len(outcome.stderr);
}

/// The control of a command knows how the command ended from the one event that
/// tells it, and from nothing else.
pub proof fn law_the_end_is_what_was_reaped(control: ControlView, event: ControlEventView)
    ensures
        match event {
            ControlEventView::Reaped(Ok(status)) => {
                &&& control.step(event).status == control.status || control.step(event).status
                    == Some(status)
                &&& control.action() is SealAndReap ==> control.step(event).status == Some(status)
            },
            _ => control.step(event).status == control.status,
        },
{
}

/// Whether a stream behind a read has kept what it had, and then the bytes of
/// the read as far as there is room for them.
pub open spec fn has_kept(before: CaptureView, after: CaptureView, bytes: Seq<u8>) -> bool {
    let all = before.retained + bytes;
    &&& after.max_bytes == before.max_bytes
    &&& after.retained == if all.len() <= before.max_bytes {
        all
    } else {
        all.take(before.max_bytes as int)
    }
    &&& after.truncated == (before.truncated || all.len() > before.max_bytes)
    &&& before.total_bytes + bytes.len() <= u64::MAX ==> after.total_bytes == before.total_bytes
        + bytes.len()
}

/// What is read from a stream goes to that stream, behind what it had, and the
/// other one stays as it is.
pub proof fn law_reads_go_to_their_stream(control: ControlView, bytes: Seq<u8>)
    requires
        control.well_formed(),
        control.action() is ReadStream,
    ensures
        ({
            let next = control.step(ControlEventView::Read(ReadView::Bytes(bytes)));
            match control.action() {
                ControlAction::ReadStream(Channel::Stdout) => {
                    &&& has_kept(control.output.stdout.capture, next.output.stdout.capture, bytes)
                    &&& next.output.stderr.capture == control.output.stderr.capture
                    &&& next.output.stdout.done == (control.output.stdout.done || bytes.len() == 0)
                },
                ControlAction::ReadStream(Channel::Stderr) => {
                    &&& has_kept(control.output.stderr.capture, next.output.stderr.capture, bytes)
                    &&& next.output.stdout.capture == control.output.stdout.capture
                    &&& next.output.stderr.done == (control.output.stderr.done || bytes.len() == 0)
                },
                _ => false,
            }
        }),
{
    let pair = control.output;
    let before = match pair.next_read() {
        Some(Channel::Stdout) => pair.stdout.capture,
        _ => pair.stderr.capture,
    };
    let room = before.max_bytes - before.retained.len();
    let all = before.retained + bytes;
    if bytes.len() == 0 {
        assert(all =~= before.retained);
    }
    if bytes.len() > room {
        assert(all.take(before.max_bytes as int) =~= before.retained + bytes.take(room));
    }
}

/// Nothing but a read changes what was kept of the streams.
pub proof fn law_only_reads_change_the_output(control: ControlView, event: ControlEventView)
    requires
        !(event is Read),
    ensures
        control.step(event).output.stdout.capture == control.output.stdout.capture,
        control.step(event).output.stderr.capture == control.output.stderr.capture,
        control.step(event).output.stdout.done == control.output.stdout.done,
        control.step(event).output.stderr.done == control.output.stderr.done,
{
}

/// A command that ended by itself, whose output was read to its end and whose
/// cleanup went well, is concluded with what it wrote and with how it ended.
pub proof fn law_ended_commands_are_concluded(
    control: ControlView,
    output: PairView,
    status: ExitOutcome,
)
    requires
        control.failure is None,
        control.status == Some(status),
        !control.cancelled,
        !control.output_incomplete,
        output.error is None,
    ensures
        command_run::conclusion(
            control,
            output,
            Ok(CommandCleanupCompletion::AlreadyReaped),
        ) matches Ok(outcome) && {
            &&& outcome.status == status
            &&& outcome.stdout == capture::lossy_text(output.stdout.capture.retained)
            &&& outcome.stderr == capture::lossy_text(output.stderr.capture.retained)
            &&& outcome.stdout_bytes == output.stdout.capture.total_bytes
            &&& outcome.stderr_bytes == output.stderr.capture.total_bytes
            &&& outcome.stdout_truncated == output.stdout.capture.truncated
            &&& outcome.stderr_truncated == output.stderr.capture.truncated
        },
{
}

} // verus!
