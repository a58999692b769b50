//! What the outputs of the tools say beside their content.

use crate::command_run::{OutcomeView, Platform};
use crate::command_tool;
use crate::json_laws;
use crate::patch;
use crate::patch_model::PatchResultView;
use crate::path;
use crate::read;
use crate::search;
use crate::search_model::ResultsView;
use crate::tool::{ContentView, FieldValueView, OutputView};
use crate::tool_support;
use crate::workspace::{WorkspaceMetadataView, WorkspaceView};
use vstd::prelude::*;

verus! {

/// Whether one of the fields has that name and that value.
pub open spec fn says(
    fields: Seq<(Seq<char>, FieldValueView)>,
    name: Seq<char>,
    value: FieldValueView,
) -> bool {
    exists|i: int| 0 <= i < fields.len() && #[trigger] fields[i] == (name, value)
}

/// Whether a text is shown as far as it takes no more than 2048 bytes as JSON.
pub open spec fn is_shown(whole: Seq<char>, kept: Seq<char>) -> bool {
    &&& kept.is_prefix_of(whole)
    &&& json_laws::bytes(json_laws::string_text(kept)) <= 2048
    &&& json_laws::bytes(json_laws::string_text(whole)) <= 2048 ==> kept == whole
    &&& kept.len() < whole.len() ==> json_laws::bytes(
        json_laws::string_text(whole.take(kept.len() as int + 1)),
    ) > 2048
}

/// Whether what is said of a workspace is true of it: its root, and its worktree where it
/// has one, which is linked where its own directory is another than the shared one.
pub open spec fn tells_of(said: WorkspaceMetadataView, workspace: WorkspaceView) -> bool {
    &&& said.root == workspace.root
    &&& said.git_worktree is Some <==> workspace.git_worktree is Some
    &&& said.git_worktree matches Some(told) ==> workspace.git_worktree matches Some(git) ==> {
        &&& told.worktree_root == git.worktree_root
        &&& told.git_dir == git.git_dir
        &&& told.common_dir == git.common_dir
        &&& git.git_dir == git.common_dir ==> !told.linked
        &&& told.linked <==> path::components(git.git_dir) != path::components(git.common_dir)
    }
}

proof fn lemma_shown(whole: Seq<char>)
    ensures
        is_shown(whole, tool_support::json_prefix(whole, 2048)),
        tool_support::is_cut(whole, 2048) <==> tool_support::json_prefix(whole, 2048) != whole,
{
    tool_support::law_cut_texts_fit_their_limit(whole, 2048);
    let kept = tool_support::json_prefix(whole, 2048);
    json_laws::law_json_strings_are_measured(whole);
    json_laws::law_json_strings_are_measured(kept);
    json_laws::law_json_strings_are_measured(whole.take(kept.len() as int + 1));
}

/// A search says which path and which text it was asked for, how many bytes they have
/// and whether all of them is shown, what it found and passed over, and where it was
/// made.
pub proof fn law_searches_say_what_they_did(
    request: search::RequestView,
    results: ResultsView,
    directories: u64,
    deep: bool,
    workspace: WorkspaceView,
)
    requires
        json_laws::bytes(request.path) <= u64::MAX,
        json_laws::bytes(request.query) <= u64::MAX,
        results.matches.len() <= u64::MAX,
    ensures
        search::success(request, results, directories, deep, workspace) matches OutputView::Success {
            metadata,
            ..
        } && {
            let shown_path = tool_support::json_prefix(request.path, 2048);
            let shown_query = tool_support::json_prefix(request.query, 2048);
            &&& is_shown(request.path, shown_path)
            &&& is_shown(request.query, shown_query)
            &&& says(metadata, "path"@, FieldValueView::Text(shown_path))
            &&& says(
                metadata,
                "path_bytes"@,
                FieldValueView::Number(json_laws::bytes(request.path) as u64),
            )
            &&& says(
                metadata,
                "path_truncated"@,
                FieldValueView::Flag(shown_path != request.path),
            )
            &&& says(metadata, "query"@, FieldValueView::Text(shown_query))
            &&& says(
                metadata,
                "query_bytes"@,
                FieldValueView::Number(json_laws::bytes(request.query) as u64),
            )
            &&& says(
                metadata,
                "query_truncated"@,
                FieldValueView::Flag(shown_query != request.query),
            )
            &&& says(
                metadata,
                "matches"@,
                FieldValueView::Number(results.matches.len() as u64),
            )
            &&& says(metadata, "bytes_searched"@, FieldValueView::Number(results.bytes_searched))
            &&& says(
                metadata,
                "binary_files_skipped"@,
                FieldValueView::Number(results.binary_files_skipped),
            )
            &&& says(metadata, "directories_visited"@, FieldValueView::Number(directories))
            &&& says(metadata, "lines_truncated"@, FieldValueView::Number(results.lines_truncated))
            &&& says(metadata, "truncated"@, FieldValueView::Flag(results.truncated || deep))
            &&& says(metadata, "workspace"@, FieldValueView::Workspace(workspace.metadata()))
            &&& tells_of(workspace.metadata(), workspace)
        },
{
    lemma_shown(request.path);
    lemma_shown(request.query);
    let metadata = search::success(
        request,
        results,
        directories,
        deep,
        workspace,
    )->Success_metadata;
    assert(metadata.len() == 13);
    assert(metadata[0].0 == "path"@ && metadata[1].0 == "path_bytes"@ && metadata[2].0
        == "path_truncated"@);
    assert(metadata[3].0 == "query"@ && metadata[4].0 == "query_bytes"@ && metadata[5].0
        == "query_truncated"@);
    assert(metadata[6].0 == "matches"@ && metadata[7].0 == "bytes_searched"@ && metadata[8].0
        == "binary_files_skipped"@);
    assert(metadata[9].0 == "directories_visited"@ && metadata[10].0 == "lines_truncated"@);
    assert(metadata[11].0 == "truncated"@ && metadata[12].0 == "workspace"@);
}

/// A command says where it ran, whether its output was read to the end, how its processes
/// are held together, and that none that detach themselves are. Only on Linux can it not
/// gain privileges.
pub proof fn law_commands_say_how_they_ran(
    outcome: OutcomeView,
    workspace: WorkspaceView,
    platform: Platform,
)
    ensures
        command_tool::success(outcome, workspace, platform) matches OutputView::Success {
            metadata,
            ..
        } && {
            let cwd = tool_support::json_prefix(workspace.root, 2048);
            &&& is_shown(workspace.root, cwd)
            &&& says(metadata, "cwd"@, FieldValueView::Text(cwd))
            &&& says(metadata, "cwd_truncated"@, FieldValueView::Flag(cwd != workspace.root))
            &&& says(
                metadata,
                "output_incomplete"@,
                FieldValueView::Flag(outcome.output_incomplete),
            )
            &&& says(metadata, "process_scope"@, FieldValueView::Text("process_group"@))
            &&& says(
                metadata,
                "residual_process_group_policy"@,
                FieldValueView::Text("kill_and_tracking_token_close_before_leader_reap"@),
            )
            &&& says(
                metadata,
                "background_process_policy"@,
                FieldValueView::Text("tracked_descendants_terminated_at_foreground_exit"@),
            )
            &&& says(
                metadata,
                "process_security_policy"@,
                FieldValueView::Text(
                    if platform == Platform::Linux {
                        "no_new_privs_and_group_termination"@
                    } else if platform == Platform::MacOs {
                        "group_termination_without_credential_lock"@
                    } else {
                        "unsupported"@
                    },
                ),
            )
            &&& says(
                metadata,
                "exec_privilege_gain_blocked"@,
                FieldValueView::Flag(platform == Platform::Linux),
            )
            &&& says(metadata, "detached_processes_tracked"@, FieldValueView::Flag(false))
            &&& says(metadata, "workspace"@, FieldValueView::Workspace(workspace.metadata()))
            &&& tells_of(workspace.metadata(), workspace)
        },
{
    lemma_shown(workspace.root);
    let metadata = command_tool::run_fields(outcome, workspace, platform);
    assert(metadata.len() == 14);
    assert(metadata[0].0 == "cwd"@ && metadata[1].0 == "cwd_truncated"@);
    assert(metadata[6].0 == "output_incomplete"@ && metadata[7].0 == "process_scope"@);
    assert(metadata[8].0 == "residual_process_group_policy"@ && metadata[9].0
        == "background_process_policy"@);
    assert(metadata[10].0 == "process_security_policy"@ && metadata[11].0
        == "exec_privilege_gain_blocked"@);
    assert(metadata[12].0 == "detached_processes_tracked"@ && metadata[13].0 == "workspace"@);
}

/// A patch that was published says which files it changed and which it kept for
/// recovery, and how many of each.
pub proof fn law_patches_say_what_they_changed(result: PatchResultView, workspace: WorkspaceView)
    requires
        result.changed_files.len() <= u64::MAX,
        result.recovery_files.len() <= u64::MAX,
    ensures
        patch::success(result, workspace) matches OutputView::Success { content, metadata, .. } && {
            &&& content.len() == 1
            &&& content[0] matches ContentView::Json(fields)
            &&& says(fields, "changed_files"@, FieldValueView::Texts(result.changed_files))
            &&& says(fields, "recovery_files"@, FieldValueView::Texts(result.recovery_files))
            &&& says(
                metadata,
                "files_changed"@,
                FieldValueView::Number(result.changed_files.len() as u64),
            )
            &&& says(
                metadata,
                "recovery_files"@,
                FieldValueView::Number(result.recovery_files.len() as u64),
            )
            &&& says(metadata, "workspace"@, FieldValueView::Workspace(workspace.metadata()))
            &&& tells_of(workspace.metadata(), workspace)
        },
{
    let output = patch::success(result, workspace);
    let metadata = output->Success_metadata;
    let fields = output->Success_content[0]->Json_0;
    assert(fields[0].0 == "changed_files"@ && fields[1].0 == "recovery_files"@);
    assert(metadata[0].0 == "files_changed"@ && metadata[1].0 == "recovery_files"@ && metadata[3].0
        == "workspace"@);
}

/// A read says which file it read, `.` for a path without steps, and where. Only where
/// something is missing does it say what the limit is.
pub proof fn law_reads_say_what_they_read(
    path: Seq<char>,
    file_length: u64,
    bytes: Seq<u8>,
    workspace: WorkspaceView,
)
    ensures
        read::read_result(path, file_length, bytes, workspace) matches OutputView::Success {
            metadata,
            ..
        } ==> {
            &&& says(
                metadata,
                "path"@,
                FieldValueView::Text(
                    if path.len() == 0 {
                        "."@
                    } else {
                        path
                    },
                ),
            )
            &&& says(metadata, "bytes"@, FieldValueView::Number(file_length))
            &&& says(metadata, "workspace"@, FieldValueView::Workspace(workspace.metadata()))
            &&& tells_of(workspace.metadata(), workspace)
            &&& metadata.len() == 5 || metadata.len() == 6
            &&& metadata.len() == 6 <==> metadata[3] == (
                "truncated"@,
                FieldValueView::Flag(true),
            )
            &&& metadata.len() == 6 ==> metadata[5] == (
                "truncation_limit_bytes"@,
                FieldValueView::Number(49152),
            )
        },
{
    let output = read::read_result(path, file_length, bytes, workspace);
    if let OutputView::Success { metadata, .. } = output {
        assert(metadata[0].0 == "path"@ && metadata[1].0 == "bytes"@ && metadata[4].0
            == "workspace"@);
    }
}

} // verus!
