//! The tool that runs a command line.

use crate::command_error::CommandError;
use crate::command_input::MAX_COMMAND_BYTES;
use crate::command_run;
use crate::command_run::{
    exec_privilege_gain_blocked, process_security_policy, CommandOutcome, OutcomeView, Platform,
};
use crate::output_size;
use crate::output_size::finalize_output;
use crate::text::byte_len;
use crate::tool;
use crate::tool::{
    no_fields, one_content, push_field, ContentView, Field, FieldValue, FieldValueView, OutputView,
    ToolContent, ToolOutput,
};
use crate::tool_support;
use crate::tool_support::{
    failure, object_members, truncate_json_string, Members, ToolArguments,
    MAX_METADATA_TEXT_SERIALIZED_BYTES,
};
use crate::workspace::{WorkspaceContext, WorkspaceView};
use vstd::prelude::*;

verus! {

/// The longest serialized form of one stream, in bytes.
pub const MAX_STREAM_SERIALIZED_BYTES: usize = 24576;

/// The command that the members of an arguments object name.
pub open spec fn command_argument(
    members: Option<Seq<(Seq<char>, Option<Seq<char>>)>>,
) -> Result<Seq<char>, OutputView> {
    match tool_support::refused_arguments(members, seq!["command"@]) {
        Some(output) => Err(output),
        None => match tool_support::required_text(members->Some_0, "command"@) {
            Err(output) => Err(output),
            Ok(command) => if vstd::utf8::encode_utf8(command).len() > MAX_COMMAND_BYTES {
                Err(
                    tool_support::failure_view(
                        "command_too_large"@,
                        "command exceeds 65536 bytes"@,
                        false,
                    ),
                )
            } else {
                Ok(command)
            },
        },
    }
}

/// The command that the arguments of a call name, read from their JSON text.
pub fn parse_command_arguments(arguments: &str) -> (result: Result<String, ToolOutput>)
    ensures
        match result {
            Ok(command) => command_argument(tool_support::json_object_members(arguments@)) == Ok::<
                Seq<char>,
                OutputView,
            >(command@),
            Err(output) => command_argument(tool_support::json_object_members(arguments@))
                == Err::<Seq<char>, OutputView>(output@),
        },
{
    let members = object_members(arguments);
    command_to_run(members)
}

/// The command that the members of an arguments object name.
pub fn command_to_run(members: Option<Members>) -> (result: Result<String, ToolOutput>)
    ensures
        match result {
            Ok(command) => command_argument(tool_support::optional_member_views(members)) == Ok::<
                Seq<char>,
                OutputView,
            >(command@),
            Err(output) => command_argument(tool_support::optional_member_views(members)) == Err::<
                Seq<char>,
                OutputView,
            >(output@),
        },
{
    let allowed: [&str; 1] = ["command"];
    assert(tool_support::name_views(allowed@) =~= seq!["command"@]);
    let arguments = match ToolArguments::from_members(members, &allowed) {
        Ok(arguments) => arguments,
        Err(output) => {
            return Err(output);
        },
    };
    let command = match arguments.required_string("command") {
        Ok(command) => command,
        Err(output) => {
            return Err(output);
        },
    };
    if byte_len(command.as_str()) > MAX_COMMAND_BYTES {
        return Err(failure("command_too_large", "command exceeds 65536 bytes", false));
    }
    Ok(command)
}

/// The failure that reports an error of a run.
pub fn command_failure(error: &CommandError) -> (output: ToolOutput)
    ensures
        output@ == tool_support::failure_view(
            error@.code(),
            error@.message(),
            error@.retryable(),
        ),
{
    failure(error.code(), error.message().as_str(), error.retryable())
}

/// How a command ended, as fields.
pub open spec fn ending_fields(outcome: OutcomeView) -> Seq<(Seq<char>, FieldValueView)> {
    let limit = MAX_STREAM_SERIALIZED_BYTES as nat;
    seq![
        ("success"@, FieldValueView::Flag(outcome.status.is_success())),
        (
            "exit_code"@,
            match outcome.status.code {
                Some(code) => FieldValueView::Signed(code),
                None => FieldValueView::Null,
            },
        ),
        ("stdout"@, FieldValueView::Text(tool_support::json_prefix(outcome.stdout, limit))),
        ("stderr"@, FieldValueView::Text(tool_support::json_prefix(outcome.stderr, limit))),
    ]
}

/// What is said about a run besides how it ended.
pub open spec fn run_fields(
    outcome: OutcomeView,
    workspace: WorkspaceView,
    platform: Platform,
) -> Seq<(Seq<char>, FieldValueView)> {
    let path_limit = MAX_METADATA_TEXT_SERIALIZED_BYTES as nat;
    let limit = MAX_STREAM_SERIALIZED_BYTES as nat;
    seq![
        ("cwd"@, FieldValueView::Text(tool_support::json_prefix(workspace.root, path_limit))),
        (
            "cwd_truncated"@,
            FieldValueView::Flag(tool_support::is_cut(workspace.root, path_limit)),
        ),
        ("stdout_bytes"@, FieldValueView::Number(outcome.stdout_bytes)),
        ("stderr_bytes"@, FieldValueView::Number(outcome.stderr_bytes)),
        (
            "stdout_truncated"@,
            FieldValueView::Flag(
                outcome.stdout_truncated || tool_support::is_cut(outcome.stdout, limit),
            ),
        ),
        (
            "stderr_truncated"@,
            FieldValueView::Flag(
                outcome.stderr_truncated || tool_support::is_cut(outcome.stderr, limit),
            ),
        ),
        ("output_incomplete"@, FieldValueView::Flag(outcome.output_incomplete)),
        ("process_scope"@, FieldValueView::Text("process_group"@)),
        (
            "residual_process_group_policy"@,
            FieldValueView::Text("kill_and_tracking_token_close_before_leader_reap"@),
        ),
        (
            "background_process_policy"@,
            FieldValueView::Text("tracked_descendants_terminated_at_foreground_exit"@),
        ),
        (
            "process_security_policy"@,
            FieldValueView::Text(command_run::security_policy(platform)),
        ),
        ("exec_privilege_gain_blocked"@, FieldValueView::Flag(platform == Platform::Linux)),
        ("detached_processes_tracked"@, FieldValueView::Flag(false)),
        ("workspace"@, FieldValueView::Workspace(workspace.metadata())),
    ]
}

fn push_text(fields: &mut Vec<Field>, name: &str, value: &str)
    ensures
        tool::field_views(final(fields)@) == tool::field_views(old(fields)@).push(
            (name@, FieldValueView::Text(value@)),
        ),
{
    push_field(fields, name, FieldValue::Text(value.to_owned()));
}

/// The output of a run that came to its end, before its length is bounded.
pub open spec fn success(
    outcome: OutcomeView,
    workspace: WorkspaceView,
    platform: Platform,
) -> OutputView {
    OutputView::Success {
        content: seq![ContentView::Json(ending_fields(outcome))],
        metadata: run_fields(outcome, workspace, platform),
        extensions: Seq::empty(),
    }
}

/// The output of a run that came to its end.
pub fn command_output(outcome: &CommandOutcome, workspace: &WorkspaceContext, platform: Platform) -> (
output: ToolOutput)
    ensures
        output@ == output_size::finalized(success(outcome@, workspace@, platform)),
{
    let (cwd, cwd_truncated) = truncate_json_string(
        workspace.root(),
        MAX_METADATA_TEXT_SERIALIZED_BYTES,
    );
    let (stdout, stdout_cut) = truncate_json_string(
        outcome.stdout.as_str(),
        MAX_STREAM_SERIALIZED_BYTES,
    );
    let (stderr, stderr_cut) = truncate_json_string(
        outcome.stderr.as_str(),
        MAX_STREAM_SERIALIZED_BYTES,
    );
    let mut ending = no_fields();
    push_field(&mut ending, "success", FieldValue::Flag(outcome.status.success()));
    let code = match outcome.status.code {
        Some(code) => FieldValue::Signed(code),
        None => FieldValue::Null,
    };
    push_field(&mut ending, "exit_code", code);
    push_field(&mut ending, "stdout", FieldValue::Text(stdout));
    push_field(&mut ending, "stderr", FieldValue::Text(stderr));
    assert(tool::field_views(ending@) =~= ending_fields(outcome@));
    let mut metadata = no_fields();
    push_field(&mut metadata, "cwd", FieldValue::Text(cwd));
    push_field(&mut metadata, "cwd_truncated", FieldValue::Flag(cwd_truncated));
    push_field(&mut metadata, "stdout_bytes", FieldValue::Number(outcome.stdout_bytes));
    push_field(&mut metadata, "stderr_bytes", FieldValue::Number(outcome.stderr_bytes));
    push_field(
        &mut metadata,
        "stdout_truncated",
        FieldValue::Flag(outcome.stdout_truncated || stdout_cut),
    );
    push_field(
        &mut metadata,
        "stderr_truncated",
        FieldValue::Flag(outcome.stderr_truncated || stderr_cut),
    );
    push_field(&mut metadata, "output_incomplete", FieldValue::Flag(outcome.output_incomplete));
    push_text(&mut metadata, "process_scope", "process_group");
    push_text(
        &mut metadata,
        "residual_process_group_policy",
        "kill_and_tracking_token_close_before_leader_reap",
    );
    push_text(
        &mut metadata,
        "background_process_policy",
        "tracked_descendants_terminated_at_foreground_exit",
    );
    push_text(&mut metadata, "process_security_policy", process_security_policy(platform));
    push_field(
        &mut metadata,
        "exec_privilege_gain_blocked",
        FieldValue::Flag(exec_privilege_gain_blocked(platform)),
    );
    push_field(&mut metadata, "detached_processes_tracked", FieldValue::Flag(false));
    push_field(&mut metadata, "workspace", FieldValue::Workspace(workspace.metadata()));
    assert(tool::field_views(metadata@) =~= run_fields(outcome@, workspace@, platform));
    finalize_output(
        ToolOutput::Success {
            content: one_content(ToolContent::Json { fields: ending }),
            metadata,
            extensions: no_fields(),
        },
    )
}

/// The streams that an output shows take no more room in JSON, both together,
/// than contents may, and where one of them is cut, the output says so.
pub proof fn law_command_streams_fit(
    outcome: OutcomeView,
    workspace: WorkspaceView,
    platform: Platform,
)
    ensures
        ending_fields(outcome)[2].1 matches FieldValueView::Text(stdout) && (
        ending_fields(outcome)[3].1 matches FieldValueView::Text(stderr) && {
            &&& tool_support::json_string_len(stdout) + tool_support::json_string_len(stderr)
                <= tool_support::MAX_TOOL_CONTENT_SERIALIZED_BYTES
            &&& stdout != outcome.stdout ==> run_fields(outcome, workspace, platform)[4] == (
                "stdout_truncated"@,
                FieldValueView::Flag(true),
            )
            &&& stderr != outcome.stderr ==> run_fields(outcome, workspace, platform)[5] == (
                "stderr_truncated"@,
                FieldValueView::Flag(true),
            )
        }),
{
    let limit = MAX_STREAM_SERIALIZED_BYTES as nat;
    tool_support::law_cut_texts_fit_their_limit(outcome.stdout, limit);
    tool_support::law_cut_texts_fit_their_limit(outcome.stderr, limit);
}

} // verus!
