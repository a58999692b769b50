//! How long the outputs of the tools are as JSON.

use crate::command_run;
use crate::command_run::{OutcomeView, Platform};
use crate::command_tool;
use crate::output_size;
use crate::patch;
use crate::patch_model;
use crate::patch_model::{PatchResultView, PublicationView};
use crate::read;
use crate::search;
use crate::search::RequestView;
use crate::search_laws;
use crate::search_model;
use crate::search_model::ResultsView;
use crate::text;
use crate::tool::{ContentView, FieldValueView, MatchView, OutputView};
use crate::tool_support;
use crate::tool_support::{
    MAX_ERROR_MESSAGE_SERIALIZED_BYTES, MAX_METADATA_TEXT_SERIALIZED_BYTES, MAX_OUTPUT_BYTES,
    MAX_TOOL_CONTENT_SERIALIZED_BYTES,
};
use crate::workspace::{GitMetadataView, WorkspaceMetadataView, WorkspaceView};
use vstd::prelude::*;

verus! {

proof fn lemma_string_len(shown: Seq<char>, count: int)
    requires
        0 <= count <= shown.len(),
    ensures
        tool_support::json_chars_len(shown, count) <= 6 * count,
    decreases count,
{
    if count > 0 {
        lemma_string_len(shown, count - 1);
        tool_support::lemma_char_len(shown[count - 1]);
    }
}

/// A text takes at most six bytes for each of its characters, and its quotes.
pub proof fn lemma_name_len(name: Seq<char>)
    ensures
        tool_support::json_string_len(name) <= 6 * name.len() + 2,
{
    lemma_string_len(name, name.len() as int);
}

proof fn lemma_number_len(number: int)
    requires
        -0x1_0000_0000_0000_0000 < number < 0x1_0000_0000_0000_0000,
    ensures
        output_size::number_len(number) <= 21,
{
    output_size::lemma_digits(
        (if number < 0 {
            -number
        } else {
            number
        }) as nat,
        20,
    );
}

/// One piece of content and some metadata make an output with 192 bytes more.
proof fn lemma_success_len(content: ContentView, metadata: Seq<(Seq<char>, FieldValueView)>)
    ensures
        output_size::output_len(
            OutputView::Success { content: seq![content], metadata, extensions: Seq::empty() },
        ) <= output_size::content_len(content) + output_size::fields_len(metadata) + 192,
{
    reveal_strlit("status");
    lemma_name_len("status"@);
    reveal_strlit("success");
    lemma_name_len("success"@);
    reveal_strlit("content");
    lemma_name_len("content"@);
    reveal_strlit("metadata");
    lemma_name_len("metadata"@);
    reveal_with_fuel(output_size::items_len, 4);
    let pieces = seq![content];
    let lengths = pieces.map_values(|piece: ContentView| output_size::content_len(piece));
    assert(lengths.len() == 1 && lengths[0] == output_size::content_len(content));
    assert(output_size::listed_len(lengths) == output_size::content_len(content) + 2);
}

proof fn lemma_failure_len(code: Seq<char>, message: Seq<char>, retryable: bool)
    ensures
        output_size::output_len(tool_support::failure_view(code, message, retryable))
            <= MAX_ERROR_MESSAGE_SERIALIZED_BYTES + 6 * code.len() + 320,
{
    tool_support::law_cut_texts_fit_their_limit(
        message,
        MAX_ERROR_MESSAGE_SERIALIZED_BYTES as nat,
    );
    lemma_name_len(code);
    reveal_strlit("status");
    lemma_name_len("status"@);
    reveal_strlit("failure");
    lemma_name_len("failure"@);
    reveal_strlit("error");
    lemma_name_len("error"@);
    reveal_strlit("code");
    lemma_name_len("code"@);
    reveal_strlit("message");
    lemma_name_len("message"@);
    reveal_strlit("retryable");
    lemma_name_len("retryable"@);
    reveal_with_fuel(output_size::items_len, 4);
}

proof fn lemma_items_of_prefix(lengths: Seq<nat>, more: Seq<nat>, count: int)
    requires
        count <= lengths.len() <= more.len(),
        forall|i: int| 0 <= i < lengths.len() ==> lengths[i] == #[trigger] more[i],
    ensures
        output_size::items_len(lengths, count) == output_size::items_len(more, count),
    decreases count,
{
    if count > 0 {
        lemma_items_of_prefix(lengths, more, count - 1);
    }
}

/// One more field takes its name and its value, and four more bytes.
proof fn lemma_one_more(
    fields: Seq<(Seq<char>, FieldValueView)>,
    name: Seq<char>,
    value: FieldValueView,
)
    ensures
        output_size::fields_len(fields.push((name, value))) <= output_size::fields_len(fields) + 6 * name.len() + 4
            + output_size::value_len(value),
{
    reveal(output_size::fields_len);
    let more = fields.push((name, value));
    let len = |field: (Seq<char>, FieldValueView)| output_size::member_len(field.0, output_size::value_len(field.1));
    let before = fields.map_values(len);
    let after = more.map_values(len);
    lemma_name_len(name);
    lemma_items_of_prefix(before, after, before.len() as int);
    assert(after[fields.len() as int] == output_size::member_len(name, output_size::value_len(value)));
    assert(output_size::items_len(after, after.len() as int) == output_size::items_len(after, before.len() as int)
        + output_size::member_len(name, output_size::value_len(value)) + 1);
}

proof fn lemma_no_fields()
    ensures
        output_size::fields_len(Seq::empty()) == 2,
{
    reveal(output_size::fields_len);
}

proof fn lemma_read_metadata_len(
    path: Seq<char>,
    file_length: u64,
    returned: u64,
    truncated: bool,
    workspace: WorkspaceMetadataView,
)
    ensures
        ({
            let fields = seq![
                ("path"@, FieldValueView::Text(path)),
                ("bytes"@, FieldValueView::Number(file_length)),
                ("returned_bytes"@, FieldValueView::Number(returned)),
                ("truncated"@, FieldValueView::Flag(truncated)),
                ("workspace"@, FieldValueView::Workspace(workspace)),
            ];
            let limit = ("truncation_limit_bytes"@, FieldValueView::Number(49152));
            let paths = tool_support::json_string_len(path) + output_size::workspace_len(workspace);
            &&& output_size::fields_len(fields) <= paths + 704
            &&& output_size::fields_len(fields.push(limit)) <= paths + 704
        }),
{
    let none = Seq::<(Seq<char>, FieldValueView)>::empty();
    let first = none.push(("path"@, FieldValueView::Text(path)));
    let second = first.push(("bytes"@, FieldValueView::Number(file_length)));
    let third = second.push(("returned_bytes"@, FieldValueView::Number(returned)));
    let fourth = third.push(("truncated"@, FieldValueView::Flag(truncated)));
    let fifth = fourth.push(("workspace"@, FieldValueView::Workspace(workspace)));
    lemma_no_fields();
    lemma_one_more(none, "path"@, FieldValueView::Text(path));
    lemma_one_more(first, "bytes"@, FieldValueView::Number(file_length));
    lemma_one_more(second, "returned_bytes"@, FieldValueView::Number(returned));
    lemma_one_more(third, "truncated"@, FieldValueView::Flag(truncated));
    lemma_one_more(fourth, "workspace"@, FieldValueView::Workspace(workspace));
    lemma_one_more(fifth, "truncation_limit_bytes"@, FieldValueView::Number(49152));
    lemma_number_len(file_length as int);
    lemma_number_len(returned as int);
    lemma_number_len(49152);
    reveal_strlit("path");
    reveal_strlit("bytes");
    reveal_strlit("returned_bytes");
    reveal_strlit("truncated");
    reveal_strlit("workspace");
    reveal_strlit("truncation_limit_bytes");
    assert(fifth =~= seq![
        ("path"@, FieldValueView::Text(path)),
        ("bytes"@, FieldValueView::Number(file_length)),
        ("returned_bytes"@, FieldValueView::Number(returned)),
        ("truncated"@, FieldValueView::Flag(truncated)),
        ("workspace"@, FieldValueView::Workspace(workspace)),
    ]);
}

/// A text takes no more room where it is cut, and then no more than metadata may.
proof fn lemma_cut_text_len(shown: Seq<char>)
    ensures
        tool_support::json_string_len(output_size::cut_text(shown))
            <= tool_support::json_string_len(shown),
        tool_support::json_string_len(output_size::cut_text(shown))
            <= MAX_METADATA_TEXT_SERIALIZED_BYTES,
{
    tool_support::law_cut_texts_fit_their_limit(
        shown,
        MAX_METADATA_TEXT_SERIALIZED_BYTES as nat,
    );
}

/// What is said of a workspace takes no more than 8704 bytes where it is cut.
proof fn lemma_cut_workspace_len(workspace: WorkspaceMetadataView)
    ensures
        output_size::workspace_len(output_size::cut_workspace(workspace)) <= 8704,
{
    reveal(output_size::workspace_len);
    lemma_cut_text_len(workspace.root);
    reveal_strlit("root");
    lemma_name_len("root"@);
    reveal_strlit("git_worktree");
    lemma_name_len("git_worktree"@);
    reveal_with_fuel(output_size::items_len, 3);
    if let Some(git) = workspace.git_worktree {
        lemma_cut_text_len(git.worktree_root);
        lemma_cut_text_len(git.git_dir);
        lemma_cut_text_len(git.common_dir);
        lemma_cut_git_len(output_size::cut_workspace(workspace).git_worktree->Some_0);
    }
}

proof fn lemma_cut_git_len(git: GitMetadataView)
    requires
        tool_support::json_string_len(git.worktree_root) <= MAX_METADATA_TEXT_SERIALIZED_BYTES,
        tool_support::json_string_len(git.git_dir) <= MAX_METADATA_TEXT_SERIALIZED_BYTES,
        tool_support::json_string_len(git.common_dir) <= MAX_METADATA_TEXT_SERIALIZED_BYTES,
    ensures
        output_size::git_len(git) <= 6464,
{
    reveal_strlit("worktree_root");
    lemma_name_len("worktree_root"@);
    reveal_strlit("git_dir");
    lemma_name_len("git_dir"@);
    reveal_strlit("common_dir");
    lemma_name_len("common_dir"@);
    reveal_strlit("linked");
    lemma_name_len("linked"@);
    reveal_with_fuel(output_size::items_len, 5);
}

proof fn lemma_items_grow(shorter: Seq<nat>, longer: Seq<nat>, count: int)
    requires
        count <= shorter.len() == longer.len(),
        forall|i: int| 0 <= i < shorter.len() ==> #[trigger] shorter[i] <= longer[i],
    ensures
        output_size::items_len(shorter, count) <= output_size::items_len(longer, count),
    decreases count,
{
    if count > 0 {
        lemma_items_grow(shorter, longer, count - 1);
        assert(shorter[count - 1] <= longer[count - 1]);
    }
}

proof fn lemma_item_changes(lengths: Seq<nat>, at: int, length: nat, count: int)
    requires
        0 <= at < lengths.len(),
        count <= lengths.len(),
    ensures
        output_size::items_len(lengths.update(at, length), count) + (if at < count {
            lengths[at]
        } else {
            0
        }) == output_size::items_len(lengths, count) + (if at < count {
            length
        } else {
            0
        }),
    decreases count,
{
    if count > 0 {
        lemma_item_changes(lengths, at, length, count - 1);
    }
}

proof fn lemma_cut_list_len(texts: Seq<Seq<char>>)
    ensures
        output_size::value_len(output_size::cut_list(FieldValueView::Texts(texts)))
            <= output_size::value_len(FieldValueView::Texts(texts)),
{
    let len = |shown: Seq<char>| tool_support::json_string_len(shown);
    let cut = texts.map_values(|shown: Seq<char>| output_size::cut_text(shown));
    assert forall|i: int| 0 <= i < texts.len() implies #[trigger] cut.map_values(len)[i]
        <= texts.map_values(len)[i] by {
        lemma_cut_text_len(texts[i]);
    }
    lemma_items_grow(cut.map_values(len), texts.map_values(len), texts.len() as int);
}

proof fn lemma_cut_value_len(value: FieldValueView)
    requires
        !(value is Workspace),
    ensures
        output_size::value_len(output_size::cut_value(value)) <= output_size::value_len(value),
{
    match value {
        FieldValueView::Text(shown) => {
            lemma_cut_text_len(shown);
        },
        FieldValueView::Texts(texts) => {
            lemma_cut_list_len(texts);
        },
        _ => {},
    }
}

/// Metadata whose field `at` alone says something of the workspace takes no more
/// room where it is cut than what is said of the workspace then does, besides the
/// room that the other fields took.
proof fn lemma_cut_metadata_len(fields: Seq<(Seq<char>, FieldValueView)>, at: int)
    requires
        0 <= at < fields.len(),
        fields[at].1 is Workspace,
        forall|i: int| 0 <= i < fields.len() && i != at ==> !((#[trigger] fields[i]).1 is Workspace),
    ensures
        output_size::fields_len(output_size::cut_metadata(fields)) + output_size::value_len(
            fields[at].1,
        ) <= output_size::fields_len(fields) + output_size::value_len(
            output_size::cut_value(fields[at].1),
        ),
{
    reveal(output_size::fields_len);
    let len = |field: (Seq<char>, FieldValueView)|
        output_size::member_len(field.0, output_size::value_len(field.1));
    let before = fields.map_values(len);
    let after = output_size::cut_metadata(fields).map_values(len);
    let between = before.update(at, after[at]);
    assert forall|i: int| 0 <= i < after.len() implies #[trigger] after[i] <= between[i] by {
        if i != at {
            assert(!(fields[i].1 is Workspace));
            lemma_cut_value_len(fields[i].1);
        }
    }
    lemma_items_grow(after, between, after.len() as int);
    lemma_item_changes(before, at, after[at], before.len() as int);
}

proof fn lemma_text_content_len(shown: Seq<char>)
    ensures
        output_size::content_len(ContentView::Text(shown)) <= tool_support::json_string_len(shown) + 128,
{
    reveal_strlit("type");
    lemma_name_len("type"@);
    reveal_strlit("text");
    lemma_name_len("text"@);
    reveal_with_fuel(output_size::items_len, 3);
}

proof fn lemma_json_content_len(fields: Seq<(Seq<char>, FieldValueView)>)
    ensures
        output_size::content_len(ContentView::Json(fields)) <= output_size::fields_len(fields) + 128,
{
    reveal_strlit("type");
    lemma_name_len("type"@);
    reveal_strlit("json");
    lemma_name_len("json"@);
    reveal_strlit("value");
    lemma_name_len("value"@);
    reveal_with_fuel(output_size::items_len, 3);
}

/// The output of a read takes no more than 64 KiB in JSON.
pub proof fn law_read_outputs_fit(
    path: Seq<char>,
    file_length: u64,
    bytes: Seq<u8>,
    workspace: WorkspaceView,
)
    ensures
        output_size::output_len(read::read_output_view(path, file_length, bytes, workspace))
            <= MAX_OUTPUT_BYTES,
{
    let cut = read::is_truncated(file_length, bytes);
    match read::file_text(read::shown_bytes(bytes), cut) {
        Err(message) => {
            reveal_strlit("file_not_utf8");
            lemma_failure_len("file_not_utf8"@, message, false);
        },
        Ok(whole) => {
            let limit = MAX_TOOL_CONTENT_SERIALIZED_BYTES as nat;
            let shown = tool_support::json_prefix(whole, limit);
            let place = workspace.metadata();
            let returned = vstd::utf8::encode_utf8(shown).len() as u64;
            let truncated = cut || tool_support::is_cut(whole, limit);
            let shown_path = tool_support::displayed_path(path);
            let metadata = read::read_result(path, file_length, bytes, workspace)->Success_metadata;
            let content = seq![ContentView::Text(shown)];
            tool_support::law_cut_texts_fit_their_limit(whole, limit);
            lemma_text_content_len(shown);
            lemma_cut_text_len(shown_path);
            lemma_cut_workspace_len(place);
            lemma_success_len(ContentView::Text(shown), output_size::cut_metadata(metadata));
            lemma_read_metadata_len(
                output_size::cut_text(shown_path),
                file_length,
                returned,
                truncated,
                output_size::cut_workspace(place),
            );
            let fields = seq![
                ("path"@, FieldValueView::Text(output_size::cut_text(shown_path))),
                ("bytes"@, FieldValueView::Number(file_length)),
                ("returned_bytes"@, FieldValueView::Number(returned)),
                ("truncated"@, FieldValueView::Flag(truncated)),
                ("workspace"@, FieldValueView::Workspace(output_size::cut_workspace(place))),
            ];
            assert(output_size::cut_metadata(metadata) =~= if truncated {
                fields.push(("truncation_limit_bytes"@, FieldValueView::Number(49152)))
            } else {
                fields
            });
            assert(content.map_values(|piece: ContentView| output_size::cut_content(piece))
                =~= content);
        },
    }
}

/// Whatever a tool reports as a failure without extensions takes no more than
/// 64 KiB in JSON, under any name of the failure of up to 1024 characters.
pub proof fn law_failures_fit(code: Seq<char>, message: Seq<char>, retryable: bool)
    requires
        code.len() <= 1024,
    ensures
        output_size::output_len(tool_support::failure_view(code, message, retryable)) <= MAX_OUTPUT_BYTES,
{
    lemma_failure_len(code, message, retryable);
}

proof fn lemma_ending_len(outcome: OutcomeView)
    ensures
        output_size::fields_len(command_tool::ending_fields(outcome)) <= MAX_TOOL_CONTENT_SERIALIZED_BYTES + 256,
{
    let limit = command_tool::MAX_STREAM_SERIALIZED_BYTES as nat;
    let stdout = tool_support::json_prefix(outcome.stdout, limit);
    let stderr = tool_support::json_prefix(outcome.stderr, limit);
    let exit_code = match outcome.status.code {
        Some(code) => FieldValueView::Signed(code),
        None => FieldValueView::Null,
    };
    tool_support::law_cut_texts_fit_their_limit(outcome.stdout, limit);
    tool_support::law_cut_texts_fit_their_limit(outcome.stderr, limit);
    if let Some(code) = outcome.status.code {
        lemma_number_len(code as int);
    }
    let none = Seq::<(Seq<char>, FieldValueView)>::empty();
    lemma_no_fields();
    let with_success = none.push(("success"@, FieldValueView::Flag(outcome.status.is_success())));
    reveal_strlit("success");
    lemma_one_more(none, "success"@, FieldValueView::Flag(outcome.status.is_success()));
    let with_exit_code = with_success.push(("exit_code"@, exit_code));
    reveal_strlit("exit_code");
    lemma_one_more(with_success, "exit_code"@, exit_code);
    let with_stdout = with_exit_code.push(("stdout"@, FieldValueView::Text(stdout)));
    reveal_strlit("stdout");
    lemma_one_more(with_exit_code, "stdout"@, FieldValueView::Text(stdout));
    let with_stderr = with_stdout.push(("stderr"@, FieldValueView::Text(stderr)));
    reveal_strlit("stderr");
    lemma_one_more(with_stdout, "stderr"@, FieldValueView::Text(stderr));
    assert(with_stderr =~= command_tool::ending_fields(outcome));
}

proof fn lemma_run_fields_len(outcome: OutcomeView, workspace: WorkspaceView, platform: Platform)
    ensures
        output_size::fields_len(command_tool::run_fields(outcome, workspace, platform))
            <= MAX_METADATA_TEXT_SERIALIZED_BYTES + 2560 + output_size::workspace_len(
            workspace.metadata(),
        ),
{
    let path_limit = MAX_METADATA_TEXT_SERIALIZED_BYTES as nat;
    let limit = command_tool::MAX_STREAM_SERIALIZED_BYTES as nat;
    let cwd = tool_support::json_prefix(workspace.root, path_limit);
    tool_support::law_cut_texts_fit_their_limit(workspace.root, path_limit);
    lemma_number_len(outcome.stdout_bytes as int);
    lemma_number_len(outcome.stderr_bytes as int);
    reveal_strlit("process_group");
    lemma_name_len("process_group"@);
    reveal_strlit("kill_and_tracking_token_close_before_leader_reap");
    lemma_name_len("kill_and_tracking_token_close_before_leader_reap"@);
    reveal_strlit("tracked_descendants_terminated_at_foreground_exit");
    lemma_name_len("tracked_descendants_terminated_at_foreground_exit"@);
    reveal_strlit("no_new_privs_and_group_termination");
    reveal_strlit("group_termination_without_credential_lock");
    reveal_strlit("unsupported");
    lemma_name_len(command_run::security_policy(platform));
    let none = Seq::<(Seq<char>, FieldValueView)>::empty();
    lemma_no_fields();
    let with_cwd = none.push(("cwd"@, FieldValueView::Text(cwd)));
    reveal_strlit("cwd");
    lemma_one_more(none, "cwd"@, FieldValueView::Text(cwd));
    let with_cwd_truncated = with_cwd.push(
        (
            "cwd_truncated"@,
            FieldValueView::Flag(tool_support::is_cut(workspace.root, path_limit)),
        ),
    );
    reveal_strlit("cwd_truncated");
    lemma_one_more(
        with_cwd,
        "cwd_truncated"@,
        FieldValueView::Flag(tool_support::is_cut(workspace.root, path_limit)),
    );
    let with_stdout_bytes = with_cwd_truncated.push(
        (
            "stdout_bytes"@,
            FieldValueView::Number(outcome.stdout_bytes),
        ),
    );
    reveal_strlit("stdout_bytes");
    lemma_one_more(
        with_cwd_truncated,
        "stdout_bytes"@,
        FieldValueView::Number(outcome.stdout_bytes),
    );
    let with_stderr_bytes = with_stdout_bytes.push(
        (
            "stderr_bytes"@,
            FieldValueView::Number(outcome.stderr_bytes),
        ),
    );
    reveal_strlit("stderr_bytes");
    lemma_one_more(
        with_stdout_bytes,
        "stderr_bytes"@,
        FieldValueView::Number(outcome.stderr_bytes),
    );
    let with_stdout_truncated = with_stderr_bytes.push(
        (
            "stdout_truncated"@,
            FieldValueView::Flag(outcome.stdout_truncated || tool_support::is_cut(outcome.stdout, limit)),
        ),
    );
    reveal_strlit("stdout_truncated");
    lemma_one_more(
        with_stderr_bytes,
        "stdout_truncated"@,
        FieldValueView::Flag(outcome.stdout_truncated || tool_support::is_cut(outcome.stdout, limit)),
    );
    let with_stderr_truncated = with_stdout_truncated.push(
        (
            "stderr_truncated"@,
            FieldValueView::Flag(outcome.stderr_truncated || tool_support::is_cut(outcome.stderr, limit)),
        ),
    );
    reveal_strlit("stderr_truncated");
    lemma_one_more(
        with_stdout_truncated,
        "stderr_truncated"@,
        FieldValueView::Flag(outcome.stderr_truncated || tool_support::is_cut(outcome.stderr, limit)),
    );
    let with_output_incomplete = with_stderr_truncated.push(
        (
            "output_incomplete"@,
            FieldValueView::Flag(outcome.output_incomplete),
        ),
    );
    reveal_strlit("output_incomplete");
    lemma_one_more(
        with_stderr_truncated,
        "output_incomplete"@,
        FieldValueView::Flag(outcome.output_incomplete),
    );
    let with_process_scope = with_output_incomplete.push(
        (
            "process_scope"@,
            FieldValueView::Text("process_group"@),
        ),
    );
    reveal_strlit("process_scope");
    lemma_one_more(
        with_output_incomplete,
        "process_scope"@,
        FieldValueView::Text("process_group"@),
    );
    let with_residual_process_group_policy = with_process_scope.push(
        (
            "residual_process_group_policy"@,
            FieldValueView::Text("kill_and_tracking_token_close_before_leader_reap"@),
        ),
    );
    reveal_strlit("residual_process_group_policy");
    lemma_one_more(
        with_process_scope,
        "residual_process_group_policy"@,
        FieldValueView::Text("kill_and_tracking_token_close_before_leader_reap"@),
    );
    let with_background_process_policy = with_residual_process_group_policy.push(
        (
            "background_process_policy"@,
            FieldValueView::Text("tracked_descendants_terminated_at_foreground_exit"@),
        ),
    );
    reveal_strlit("background_process_policy");
    lemma_one_more(
        with_residual_process_group_policy,
        "background_process_policy"@,
        FieldValueView::Text("tracked_descendants_terminated_at_foreground_exit"@),
    );
    let with_process_security_policy = with_background_process_policy.push(
        (
            "process_security_policy"@,
            FieldValueView::Text(command_run::security_policy(platform)),
        ),
    );
    reveal_strlit("process_security_policy");
    lemma_one_more(
        with_background_process_policy,
        "process_security_policy"@,
        FieldValueView::Text(command_run::security_policy(platform)),
    );
    let with_exec_privilege_gain_blocked = with_process_security_policy.push(
        (
            "exec_privilege_gain_blocked"@,
            FieldValueView::Flag(platform == Platform::Linux),
        ),
    );
    reveal_strlit("exec_privilege_gain_blocked");
    lemma_one_more(
        with_process_security_policy,
        "exec_privilege_gain_blocked"@,
        FieldValueView::Flag(platform == Platform::Linux),
    );
    let with_detached_processes_tracked = with_exec_privilege_gain_blocked.push(
        (
            "detached_processes_tracked"@,
            FieldValueView::Flag(false),
        ),
    );
    reveal_strlit("detached_processes_tracked");
    lemma_one_more(
        with_exec_privilege_gain_blocked,
        "detached_processes_tracked"@,
        FieldValueView::Flag(false),
    );
    let with_workspace = with_detached_processes_tracked.push(
        (
            "workspace"@,
            FieldValueView::Workspace(workspace.metadata()),
        ),
    );
    reveal_strlit("workspace");
    lemma_one_more(
        with_detached_processes_tracked,
        "workspace"@,
        FieldValueView::Workspace(workspace.metadata()),
    );
    assert(with_workspace =~= command_tool::run_fields(
        outcome,
        workspace,
        platform,
    ));
}

/// The output of a command takes no more than 64 KiB in JSON.
pub proof fn law_command_outputs_fit(
    outcome: OutcomeView,
    workspace: WorkspaceView,
    platform: Platform,
)
    ensures
        output_size::output_len(
            output_size::finalized(command_tool::success(outcome, workspace, platform)),
        ) <= MAX_OUTPUT_BYTES,
{
    let fields = command_tool::ending_fields(outcome);
    let metadata = command_tool::run_fields(outcome, workspace, platform);
    let content = seq![ContentView::Json(fields)];
    lemma_ending_len(outcome);
    lemma_run_fields_len(outcome, workspace, platform);
    lemma_json_content_len(fields);
    lemma_cut_workspace_len(workspace.metadata());
    lemma_cut_metadata_len(metadata, 13);
    lemma_success_len(ContentView::Json(fields), output_size::cut_metadata(metadata));
    assert(fields.map_values(
        |field: (Seq<char>, FieldValueView)| (field.0, output_size::cut_list(field.1)),
    ) =~= fields);
    assert(content.map_values(|piece: ContentView| output_size::cut_content(piece)) =~= content);
}

proof fn lemma_matches_len(matches: Seq<MatchView>, count: int)
    requires
        0 <= count <= matches.len(),
    ensures
        output_size::items_len(
            matches.map_values(|found: MatchView| search_model::match_json_len(found)),
            count,
        ) == search_laws::total_json_len(matches.take(count)) + count,
    decreases count,
{
    if count > 0 {
        lemma_matches_len(matches, count - 1);
        assert(matches.take(count).drop_last() =~= matches.take(count - 1));
        assert(matches.take(count).last() == matches[count - 1]);
    }
}

proof fn lemma_found_len(results: ResultsView)
    requires
        search_laws::keeps_limits(results),
    ensures
        output_size::fields_len(seq![("matches"@, FieldValueView::Matches(results.matches))])
            <= MAX_TOOL_CONTENT_SERIALIZED_BYTES + 256,
{
    let none = Seq::<(Seq<char>, FieldValueView)>::empty();
    lemma_no_fields();
    reveal_strlit("matches");
    lemma_one_more(none, "matches"@, FieldValueView::Matches(results.matches));
    lemma_matches_len(results.matches, results.matches.len() as int);
    assert(results.matches.take(results.matches.len() as int) =~= results.matches);
    assert(none.push(("matches"@, FieldValueView::Matches(results.matches))) =~= seq![
        ("matches"@, FieldValueView::Matches(results.matches)),
    ]);
}

proof fn lemma_search_metadata_len(
    request: RequestView,
    results: ResultsView,
    directories_visited: u64,
    depth_truncated: bool,
    workspace: WorkspaceView,
)
    ensures
        output_size::fields_len(
            search::success(
                request,
                results,
                directories_visited,
                depth_truncated,
                workspace,
            )->Success_metadata,
        ) <= 2 * MAX_METADATA_TEXT_SERIALIZED_BYTES + 1280 + output_size::workspace_len(
            workspace.metadata(),
        ),
{
    let limit = MAX_METADATA_TEXT_SERIALIZED_BYTES as nat;
    let path = tool_support::json_prefix(request.path, limit);
    let query = tool_support::json_prefix(request.query, limit);
    tool_support::law_cut_texts_fit_their_limit(request.path, limit);
    tool_support::law_cut_texts_fit_their_limit(request.query, limit);
    lemma_number_len(vstd::utf8::encode_utf8(request.path).len() as u64 as int);
    lemma_number_len(vstd::utf8::encode_utf8(request.query).len() as u64 as int);
    lemma_number_len(results.matches.len() as u64 as int);
    lemma_number_len(results.bytes_searched as int);
    lemma_number_len(results.binary_files_skipped as int);
    lemma_number_len(directories_visited as int);
    lemma_number_len(results.lines_truncated as int);
    let none = Seq::<(Seq<char>, FieldValueView)>::empty();
    lemma_no_fields();
    let with_path = none.push(("path"@, FieldValueView::Text(path)));
    reveal_strlit("path");
    lemma_one_more(none, "path"@, FieldValueView::Text(path));
    let with_path_bytes = with_path.push(
        (
            "path_bytes"@,
            FieldValueView::Number(vstd::utf8::encode_utf8(request.path).len() as u64),
        ),
    );
    reveal_strlit("path_bytes");
    lemma_one_more(
        with_path,
        "path_bytes"@,
        FieldValueView::Number(vstd::utf8::encode_utf8(request.path).len() as u64),
    );
    let with_path_truncated = with_path_bytes.push(
        (
            "path_truncated"@,
            FieldValueView::Flag(tool_support::is_cut(request.path, limit)),
        ),
    );
    reveal_strlit("path_truncated");
    lemma_one_more(
        with_path_bytes,
        "path_truncated"@,
        FieldValueView::Flag(tool_support::is_cut(request.path, limit)),
    );
    let with_query = with_path_truncated.push(("query"@, FieldValueView::Text(query)));
    reveal_strlit("query");
    lemma_one_more(with_path_truncated, "query"@, FieldValueView::Text(query));
    let with_query_bytes = with_query.push(
        (
            "query_bytes"@,
            FieldValueView::Number(vstd::utf8::encode_utf8(request.query).len() as u64),
        ),
    );
    reveal_strlit("query_bytes");
    lemma_one_more(
        with_query,
        "query_bytes"@,
        FieldValueView::Number(vstd::utf8::encode_utf8(request.query).len() as u64),
    );
    let with_query_truncated = with_query_bytes.push(
        (
            "query_truncated"@,
            FieldValueView::Flag(tool_support::is_cut(request.query, limit)),
        ),
    );
    reveal_strlit("query_truncated");
    lemma_one_more(
        with_query_bytes,
        "query_truncated"@,
        FieldValueView::Flag(tool_support::is_cut(request.query, limit)),
    );
    let with_matches = with_query_truncated.push(
        (
            "matches"@,
            FieldValueView::Number(results.matches.len() as u64),
        ),
    );
    reveal_strlit("matches");
    lemma_one_more(
        with_query_truncated,
        "matches"@,
        FieldValueView::Number(results.matches.len() as u64),
    );
    let with_bytes_searched = with_matches.push(
        (
            "bytes_searched"@,
            FieldValueView::Number(results.bytes_searched),
        ),
    );
    reveal_strlit("bytes_searched");
    lemma_one_more(with_matches, "bytes_searched"@, FieldValueView::Number(results.bytes_searched));
    let with_binary_files_skipped = with_bytes_searched.push(
        (
            "binary_files_skipped"@,
            FieldValueView::Number(results.binary_files_skipped),
        ),
    );
    reveal_strlit("binary_files_skipped");
    lemma_one_more(
        with_bytes_searched,
        "binary_files_skipped"@,
        FieldValueView::Number(results.binary_files_skipped),
    );
    let with_directories_visited = with_binary_files_skipped.push(
        (
            "directories_visited"@,
            FieldValueView::Number(directories_visited),
        ),
    );
    reveal_strlit("directories_visited");
    lemma_one_more(
        with_binary_files_skipped,
        "directories_visited"@,
        FieldValueView::Number(directories_visited),
    );
    let with_lines_truncated = with_directories_visited.push(
        (
            "lines_truncated"@,
            FieldValueView::Number(results.lines_truncated),
        ),
    );
    reveal_strlit("lines_truncated");
    lemma_one_more(
        with_directories_visited,
        "lines_truncated"@,
        FieldValueView::Number(results.lines_truncated),
    );
    let with_truncated = with_lines_truncated.push(
        (
            "truncated"@,
            FieldValueView::Flag(results.truncated || depth_truncated),
        ),
    );
    reveal_strlit("truncated");
    lemma_one_more(
        with_lines_truncated,
        "truncated"@,
        FieldValueView::Flag(results.truncated || depth_truncated),
    );
    let with_workspace = with_truncated.push(
        (
            "workspace"@,
            FieldValueView::Workspace(workspace.metadata()),
        ),
    );
    reveal_strlit("workspace");
    lemma_one_more(with_truncated, "workspace"@, FieldValueView::Workspace(workspace.metadata()));
    assert(with_workspace =~= search::success(
        request,
        results,
        directories_visited,
        depth_truncated,
        workspace,
    )->Success_metadata);
}

/// The output of a search takes no more than 64 KiB in JSON.
pub proof fn law_search_outputs_fit(
    request: RequestView,
    results: ResultsView,
    directories_visited: u64,
    depth_truncated: bool,
    workspace: WorkspaceView,
)
    requires
        search_laws::keeps_limits(results),
    ensures
        output_size::output_len(
            output_size::finalized(
                search::success(
                    request,
                    results,
                    directories_visited,
                    depth_truncated,
                    workspace,
                ),
            ),
        ) <= MAX_OUTPUT_BYTES,
{
    let fields = seq![("matches"@, FieldValueView::Matches(results.matches))];
    let metadata = search::success(
        request,
        results,
        directories_visited,
        depth_truncated,
        workspace,
    )->Success_metadata;
    let content = seq![ContentView::Json(fields)];
    lemma_found_len(results);
    lemma_json_content_len(fields);
    lemma_search_metadata_len(request, results, directories_visited, depth_truncated, workspace);
    lemma_cut_workspace_len(workspace.metadata());
    lemma_cut_metadata_len(metadata, 12);
    lemma_success_len(ContentView::Json(fields), output_size::cut_metadata(metadata));
    assert(fields.map_values(
        |field: (Seq<char>, FieldValueView)| (field.0, output_size::cut_list(field.1)),
    ) =~= fields);
    assert(content.map_values(|piece: ContentView| output_size::cut_content(piece)) =~= content);
}

proof fn lemma_one_cut_text_len(texts: Seq<Seq<char>>)
    requires
        texts.len() <= 1,
    ensures
        output_size::value_len(output_size::cut_list(FieldValueView::Texts(texts)))
            <= MAX_METADATA_TEXT_SERIALIZED_BYTES + 2,
{
    let cut = texts.map_values(|shown: Seq<char>| output_size::cut_text(shown));
    let lengths = cut.map_values(|shown: Seq<char>| tool_support::json_string_len(shown));
    reveal_with_fuel(output_size::items_len, 2);
    if texts.len() == 1 {
        lemma_cut_text_len(texts[0]);
        assert(lengths[0] == tool_support::json_string_len(output_size::cut_text(texts[0])));
    }
}

/// What is said of a patch beside its files takes no more room than 1024 bytes,
/// besides what the workspace takes.
proof fn lemma_patch_metadata_len(result: PatchResultView, workspace: WorkspaceView)
    ensures
        output_size::fields_len(patch::success(result, workspace)->Success_metadata) <= 1024
            + output_size::workspace_len(workspace.metadata()),
{
    let none = Seq::<(Seq<char>, FieldValueView)>::empty();
    reveal_strlit("recovery_files");
    reveal_strlit("files_changed");
    reveal_strlit("recovery_policy");
    reveal_strlit("workspace");
    reveal_strlit("ignored_by_search_and_git_until_caller_removes");
    lemma_name_len("ignored_by_search_and_git_until_caller_removes"@);
    lemma_no_fields();
    let counted = FieldValueView::Number(result.changed_files.len() as u64);
    let kept_count = FieldValueView::Number(result.recovery_files.len() as u64);
    let policy = FieldValueView::Text("ignored_by_search_and_git_until_caller_removes"@);
    let place = FieldValueView::Workspace(workspace.metadata());
    let one = none.push(("files_changed"@, counted));
    let two = one.push(("recovery_files"@, kept_count));
    let three = two.push(("recovery_policy"@, policy));
    lemma_number_len(result.changed_files.len() as u64 as int);
    lemma_number_len(result.recovery_files.len() as u64 as int);
    lemma_one_more(none, "files_changed"@, counted);
    lemma_one_more(one, "recovery_files"@, kept_count);
    lemma_one_more(two, "recovery_policy"@, policy);
    lemma_one_more(three, "workspace"@, place);
    assert(three.push(("workspace"@, place)) =~= patch::success(
        result,
        workspace,
    )->Success_metadata);
}

/// The output of a patch that was published takes no more than 64 KiB in JSON.
pub proof fn law_patch_outputs_fit(
    path: Seq<char>,
    publication: PublicationView,
    workspace: WorkspaceView,
)
    ensures
        patch_model::publication_result(path, publication) matches Ok(result)
            ==> output_size::output_len(
            output_size::finalized(patch::success(result, workspace)),
        ) <= MAX_OUTPUT_BYTES,
{
    if let Ok(result) = patch_model::publication_result(path, publication) {
        let none = Seq::<(Seq<char>, FieldValueView)>::empty();
        let changed = output_size::cut_list(FieldValueView::Texts(result.changed_files));
        let kept = output_size::cut_list(FieldValueView::Texts(result.recovery_files));
        let first = none.push(("changed_files"@, changed));
        let fields = first.push(("recovery_files"@, kept));
        let output = patch::success(result, workspace);
        let metadata = output->Success_metadata;
        reveal_strlit("changed_files");
        reveal_strlit("recovery_files");
        lemma_no_fields();
        lemma_one_cut_text_len(result.changed_files);
        lemma_one_cut_text_len(result.recovery_files);
        lemma_one_more(none, "changed_files"@, changed);
        lemma_one_more(first, "recovery_files"@, kept);
        lemma_patch_metadata_len(result, workspace);
        lemma_cut_workspace_len(workspace.metadata());
        lemma_cut_metadata_len(metadata, 3);
        lemma_json_content_len(fields);
        lemma_success_len(ContentView::Json(fields), output_size::cut_metadata(metadata));
        assert(output->Success_content[0]->Json_0.map_values(
            |field: (Seq<char>, FieldValueView)| (field.0, output_size::cut_list(field.1)),
        ) =~= fields);
        assert(output->Success_content.map_values(
            |piece: ContentView| output_size::cut_content(piece),
        ) =~= seq![ContentView::Json(fields)]);
    }
}

} // verus!
