//! The tools on concrete calls, in a workspace whose files are given by the
//! test.

use std::collections::BTreeMap;
use std::sync::atomic::AtomicBool;

use serde_json::Value;

use young_agent::cancellation::Cancellation;
use young_agent::command_control::ExitOutcome;
use young_agent::command_error::CommandError;
use young_agent::command_policy::{
    CommandApprovalPolicy, CommandPolicyDecision, PathAnswer, PolicyStep,
};
use young_agent::command_run::{CommandOutcome, Platform};
use young_agent::command_tool::{command_failure, command_output, parse_command_arguments};
use young_agent::io_failure::{ErrorKind, IoFailure};
use young_agent::output_size::finalize_output;
use young_agent::patch::{
    apply_hunks, apply_unified_patch, check_target_length, parse_patch, parse_patch_arguments,
    patch_success, Hunk, PatchError, PatchEvent, PatchLine, PatchResult, PatchRun, PatchTarget,
    Publication, PublishedRecovery,
};
use young_agent::read::{read_output, ReadEvent, ReadRun};
use young_agent::runtime::CallPolicy;
use young_agent::search::{parse_search_arguments, query_pattern};
use young_agent::search_run::{SearchPhase, SearchRun};
use young_agent::tool::{Field, FieldValue, ToolContent, ToolOutput};
use young_agent::tools::{
    call_policy, coding_manifest, refuse_call, register_builtin_coding_capability,
    BuiltinCodingTool, CodingCapabilityRegistrationError, ToolExecutionAuthorization,
    ToolRegistry, ToolSafetyClass,
};
use young_agent::walk::{DirectoryEntry, EntryKind};
use young_agent::workspace::{
    detect_git_worktree, CodingWorkspace, CodingWorkspaceError, ExistingProbe, FileIdentity,
    GitProbeOutput, GitWorktreeContext, RootProbe, WorkspaceContext, WorkspacePathError,
    WriteProbe,
};

fn text(value: &str) -> Value {
    Value::String(value.to_string())
}

fn object(members: &[(&str, Value)]) -> Value {
    Value::Object(
        members
            .iter()
            .map(|(name, value)| (name.to_string(), value.clone()))
            .collect(),
    )
}

fn arguments(members: &[(&str, &str)]) -> String {
    let members: Vec<(&str, Value)> = members
        .iter()
        .map(|(name, value)| (*name, text(value)))
        .collect();
    object(&members).to_string()
}

fn field_json(value: &FieldValue) -> Value {
    match value {
        FieldValue::Null => Value::Null,
        FieldValue::Flag(flag) => Value::Bool(*flag),
        FieldValue::Number(number) => Value::from(*number),
        FieldValue::Signed(number) => Value::from(*number),
        FieldValue::Text(value) => text(value),
        FieldValue::Texts(values) => Value::Array(values.iter().map(|value| text(value)).collect()),
        FieldValue::Matches(matches) => Value::Array(
            matches
                .iter()
                .map(|found| {
                    object(&[
                        ("path", text(&found.path)),
                        ("line", Value::from(found.line)),
                        ("text", text(&found.text)),
                    ])
                })
                .collect(),
        ),
        FieldValue::Workspace(metadata) => object(&[
            ("root", text(&metadata.root)),
            (
                "git_worktree",
                match &metadata.git_worktree {
                    None => Value::Null,
                    Some(git) => object(&[
                        ("worktree_root", text(&git.worktree_root)),
                        ("git_dir", text(&git.git_dir)),
                        ("common_dir", text(&git.common_dir)),
                        ("linked", Value::Bool(git.linked)),
                    ]),
                },
            ),
        ]),
    }
}

fn fields_json(fields: &[Field]) -> Value {
    let members: Vec<(&str, Value)> = fields
        .iter()
        .map(|field| (field.name.as_str(), field_json(&field.value)))
        .collect();
    object(&members)
}

fn success(output: ToolOutput) -> (Vec<ToolContent>, Value) {
    match output {
        ToolOutput::Success { content, metadata, extensions } => {
            assert!(extensions.is_empty());
            (content, fields_json(&metadata))
        }
        ToolOutput::Failure { error, .. } => panic!("the tool should succeed: {error:?}"),
    }
}

fn content_json(content: &[ToolContent]) -> Value {
    match content {
        [ToolContent::Json { fields }] => fields_json(fields),
        other => panic!("one structured piece is expected: {other:?}"),
    }
}

fn failure_code(output: ToolOutput) -> String {
    match output {
        ToolOutput::Failure { error, .. } => error.code,
        ToolOutput::Success { .. } => panic!("the tool should fail"),
    }
}

/// How long the output is as JSON.
fn serialized_length(output: &ToolOutput) -> usize {
    let (status, first, name, fields) = match output {
        ToolOutput::Success { content, metadata, extensions } => {
            assert!(extensions.is_empty());
            let pieces = content
                .iter()
                .map(|piece| match piece {
                    ToolContent::Text { text: shown } => {
                        object(&[("type", text("text")), ("text", text(shown))])
                    }
                    ToolContent::Json { fields } => {
                        object(&[("type", text("json")), ("value", fields_json(fields))])
                    }
                })
                .collect();
            ("success", ("content", Value::Array(pieces)), "metadata", metadata)
        }
        ToolOutput::Failure { error, extensions } => {
            let told = object(&[
                ("code", text(&error.code)),
                ("message", text(&error.message)),
                ("retryable", Value::Bool(error.retryable)),
            ]);
            ("failure", ("error", told), "extensions", extensions)
        }
    };
    let mut members = vec![("status", text(status)), first];
    if !fields.is_empty() {
        members.push((name, fields_json(fields)));
    }
    object(&members).to_string().len()
}

const KEPT: &str =
    ".young-agent-recovery/.young-agent-patch-displaced-00000000000000000000000000000000.tmp";

fn missing() -> IoFailure {
    IoFailure::new(ErrorKind::NotFound, "No such file or directory (os error 2)")
}

fn failed(message: &str) -> IoFailure {
    IoFailure::new(ErrorKind::Other, message)
}

/// A workspace of files, by their relative paths.
struct Files {
    workspace: CodingWorkspace,
    files: BTreeMap<String, Vec<u8>>,
}

impl Files {
    fn new(files: &[(&str, &[u8])]) -> Files {
        Files {
            workspace: CodingWorkspace::new(WorkspaceContext::new("/workspace".to_string(), None)),
            files: files
                .iter()
                .map(|(path, content)| (path.to_string(), content.to_vec()))
                .collect(),
        }
    }

    fn canonical(&self, requested: &str) -> Result<String, WorkspacePathError> {
        let relative = self.workspace.relative_request_path(requested)?;
        Ok(if relative == "." { String::new() } else { relative })
    }

    fn read(&self, call: &str, cancelled: &[bool]) -> ToolOutput {
        let context = self.workspace.context();
        let mut run = ReadRun::begin(call, cancelled[0]);
        loop {
            let event = match &run {
                ReadRun::Finished(_) => break,
                ReadRun::Resolving { requested } => {
                    ReadEvent::Resolved(match self.canonical(requested) {
                        Err(error) => Err(error),
                        Ok(path) => {
                            let probe = if self.files.contains_key(&path) {
                                ExistingProbe::Found(path)
                            } else {
                                ExistingProbe::Failed(missing())
                            };
                            self.workspace.resolve_existing(requested, probe)
                        }
                    })
                }
                ReadRun::Opening { path } => ReadEvent::Opened(Ok(self.files[path].len() as u64)),
                ReadRun::Reading { path, .. } => {
                    let bytes = &self.files[path];
                    ReadEvent::Bytes(Ok(bytes[..bytes.len().min(65536 + 4)].to_vec()))
                }
                ReadRun::Polling { .. } => ReadEvent::Cancellation(cancelled[1]),
            };
            run = run.advance(event, context);
        }
        match run {
            ReadRun::Finished(output) => output,
            _ => unreachable!(),
        }
    }

    fn read_target(&self, path: &str) -> Result<String, PatchError> {
        let bytes = &self.files[path];
        check_target_length(path, bytes.len() as u64)?;
        let mut target = PatchTarget::new(path);
        for chunk in bytes.chunks(8192) {
            target.feed(chunk)?;
        }
        target.finish()
    }

    fn apply(&mut self, call: &str, cancellation: &mut Cancellation) -> ToolOutput {
        let patch = match parse_patch_arguments(call) {
            Ok(patch) => patch,
            Err(output) => return output,
        };
        let mut run = apply_unified_patch(&patch, cancellation);
        loop {
            let event = match &run {
                PatchRun::Finished(_) => break,
                PatchRun::Resolving { path, .. } => {
                    PatchEvent::Resolved(match self.canonical(path) {
                        Err(error) => Err(error),
                        Ok(relative) => {
                            let probe = if self.files.contains_key(&relative) {
                                WriteProbe::Existing(ExistingProbe::Found(relative))
                            } else {
                                let parent = match relative.rsplit_once('/') {
                                    Some((parent, _)) => parent.to_string(),
                                    None => String::new(),
                                };
                                WriteProbe::Absent { inspected: missing(), parent: Ok(parent) }
                            };
                            self.workspace.resolve_for_write(path, probe)
                        }
                    })
                }
                PatchRun::Reading { path, .. } => PatchEvent::Read(self.read_target(path)),
                PatchRun::Polling { .. } => PatchEvent::Cancellation(cancellation.requested()),
                PatchRun::Publishing { path, content, replaces } => {
                    let before = self.files.insert(path.clone(), content.as_bytes().to_vec());
                    assert_eq!(before.is_some(), *replaces);
                    let recovery = before.map(|displaced| {
                        self.files.insert(KEPT.to_string(), displaced);
                        KEPT.to_string()
                    });
                    PatchEvent::Published(Publication::Done { recovery })
                }
            };
            run = run.advance(event, cancellation);
        }
        match run {
            PatchRun::Finished(Ok(result)) => patch_success(result, self.workspace.context()),
            PatchRun::Finished(Err(error)) => error.into_output(),
            _ => unreachable!(),
        }
    }

    fn patch(&mut self, patch: &str) -> ToolOutput {
        self.apply(&arguments(&[("patch", patch)]), &mut Cancellation::never())
    }

    fn content(&self, path: &str) -> &str {
        std::str::from_utf8(&self.files[path]).expect("the file is text")
    }

    fn entries(&self, directory: &str) -> Vec<DirectoryEntry> {
        let prefix = if directory.is_empty() || directory == "." {
            String::new()
        } else {
            format!("{directory}/")
        };
        let mut entries: Vec<DirectoryEntry> = Vec::new();
        for path in self.files.keys() {
            let Some(rest) = path.strip_prefix(&prefix) else {
                continue;
            };
            let (name, kind) = match rest.split_once('/') {
                Some((name, _)) => (name, EntryKind::Directory),
                None => (rest, EntryKind::File),
            };
            if !entries.iter().any(|entry| entry.name == name) {
                entries.insert(0, DirectoryEntry { name: name.to_string(), kind });
            }
        }
        entries
    }

    fn search(&self, call: &str, cancelled: bool) -> ToolOutput {
        let request = match parse_search_arguments(call) {
            Ok(request) => request,
            Err(output) => return output,
        };
        let root = match self.canonical(&request.path) {
            Ok(root) => root,
            Err(error) => return young_agent::tool_support::workspace_path_failure(&error),
        };
        let pattern = query_pattern(&request.query);
        let mut run = SearchRun::new(&request, self.workspace.context(), &pattern, &root);
        let mut unread: Vec<Vec<u8>> = Vec::new();
        loop {
            match run.phase().clone() {
                SearchPhase::OpenRoot => run.root_opened(!self.files.contains_key(&root)),
                SearchPhase::List(path) => run.listed(Ok(self.entries(&path))),
                SearchPhase::Poll => run.poll(cancelled),
                SearchPhase::OpenFile(path) => {
                    unread = self.files[&path].chunks(8191).rev().map(|c| c.to_vec()).collect();
                    run.opened(Ok(()));
                }
                SearchPhase::Read => run.read(Ok(unread.pop().unwrap_or_default())),
                SearchPhase::Done => break,
            }
        }
        run.into_output().expect("the search is over")
    }
}

fn extension(extensions: &[Field], name: &str) -> Value {
    fields_json(extensions)[name].clone()
}

fn patch_failure(error: PatchError) -> (String, Vec<Field>) {
    match error.into_output() {
        ToolOutput::Failure { error, extensions } => (error.code, extensions),
        ToolOutput::Success { .. } => panic!("a patch error must fail structurally"),
    }
}

const DISPLACED: &str =
    "src/.young-agent-recovery/.young-agent-patch-displaced-00000000000000000000000000000000.tmp";

#[test]
fn published_failure_exposes_nested_recovery_state_as_extensions() {
    let (code, extensions) = patch_failure(PatchError::Published {
        target: "src/target.txt".to_string(),
        recovery: PublishedRecovery::LocatedPolicyUnverified(DISPLACED.to_string()),
        source: failed("injected policy drift"),
    });
    assert_eq!(code, "patch_published_with_recovery");
    assert_eq!(
        extension(&extensions, "publication_state"),
        text("published_with_recovery")
    );
    assert_eq!(
        extension(&extensions, "changed_files"),
        Value::Array(vec![text("src/target.txt")])
    );
    assert_eq!(
        extension(&extensions, "recovery_files"),
        Value::Array(vec![text(DISPLACED)])
    );
    assert_eq!(
        extension(&extensions, "recovery_state"),
        text("located_policy_unverified")
    );
    assert_eq!(extension(&extensions, "recovery_policy"), text("unverified"));
}

#[test]
fn pre_publication_failure_exposes_preserved_recovery_as_extensions() {
    let (code, extensions) = patch_failure(PatchError::Preserved {
        target: "src/target.txt".to_string(),
        recovery: PublishedRecovery::LocatedVerified(DISPLACED.to_string()),
        source: failed("injected exchange failure"),
    });
    assert_eq!(code, "patch_not_published_with_recovery");
    assert_eq!(extension(&extensions, "publication_state"), text("not_published"));
    assert_eq!(extension(&extensions, "changed_files"), Value::Array(Vec::new()));
    assert_eq!(
        extension(&extensions, "recovery_files"),
        Value::Array(vec![text(DISPLACED)])
    );
    assert_eq!(extension(&extensions, "recovery_state"), text("located_verified"));
    assert_eq!(
        extension(&extensions, "recovery_policy"),
        text("verified_search_and_git_ignored")
    );
}

#[test]
fn published_failure_distinguishes_an_unlocated_recovery() {
    let (code, extensions) = patch_failure(PatchError::Published {
        target: "src/target.txt".to_string(),
        recovery: PublishedRecovery::Unlocated,
        source: failed("injected namespace identity loss"),
    });
    assert_eq!(code, "patch_published_recovery_unlocated");
    assert_eq!(
        extension(&extensions, "publication_state"),
        text("published_recovery_unlocated")
    );
    assert_eq!(extension(&extensions, "recovery_files"), Value::Array(Vec::new()));
    assert_eq!(extension(&extensions, "recovery_state"), text("unlocated"));
    assert_eq!(extension(&extensions, "recovery_policy"), text("unverified"));
}

#[test]
fn content_unverified_path_is_exposed_only_as_a_recovery_candidate() {
    let (code, extensions) = patch_failure(PatchError::Published {
        target: "src/target.txt".to_string(),
        recovery: PublishedRecovery::LocatedContentUnverified(DISPLACED.to_string()),
        source: failed("injected recovery inspection failure"),
    });
    assert_eq!(code, "patch_published_with_recovery_candidate");
    assert_eq!(
        extension(&extensions, "publication_state"),
        text("published_recovery_candidate")
    );
    assert_eq!(extension(&extensions, "recovery_files"), Value::Array(Vec::new()));
    assert_eq!(
        extension(&extensions, "recovery_candidates"),
        Value::Array(vec![text(DISPLACED)])
    );
    assert_eq!(
        extension(&extensions, "recovery_state"),
        text("located_content_unverified")
    );
}

#[test]
fn published_new_file_failure_reports_that_recovery_is_not_applicable() {
    let (code, extensions) = patch_failure(PatchError::Published {
        target: "src/created.txt".to_string(),
        recovery: PublishedRecovery::NotApplicableNewFile,
        source: failed("injected post-publication validation failure"),
    });
    assert_eq!(code, "patch_published_without_recovery");
    assert_eq!(
        extension(&extensions, "publication_state"),
        text("published_without_recovery")
    );
    assert_eq!(
        extension(&extensions, "changed_files"),
        Value::Array(vec![text("src/created.txt")])
    );
    assert_eq!(extension(&extensions, "recovery_files"), Value::Array(Vec::new()));
    assert_eq!(
        extension(&extensions, "recovery_state"),
        text("not_applicable_new_file")
    );
    assert_eq!(extension(&extensions, "recovery_policy"), text("not_applicable"));
}

#[test]
fn apply_patch_rejects_malformed_and_conflicting_unified_diffs() {
    let mut files = Files::new(&[("notes.txt", b"first\nsecond\n")]);
    let cases = [
        ("empty", "", "invalid_arguments"),
        (
            "no-file-header",
            "diff --git a/notes.txt b/notes.txt\n",
            "invalid_patch",
        ),
        ("missing-new-header", "--- a/notes.txt\n", "invalid_patch"),
        (
            "empty-path",
            "--- \n+++ b/notes.txt\n@@ -1 +1 @@\n-first\n+changed\n",
            "invalid_patch",
        ),
        (
            "rename",
            "--- a/notes.txt\n+++ b/renamed.txt\n@@ -1 +1 @@\n-first\n+changed\n",
            "invalid_patch",
        ),
        (
            "both-dev-null",
            "--- /dev/null\n+++ /dev/null\n@@ -0,0 +0,0 @@\n",
            "invalid_patch",
        ),
        (
            "missing-hunk",
            "--- a/notes.txt\n+++ b/notes.txt\n",
            "invalid_patch",
        ),
        (
            "invalid-hunk",
            "--- a/notes.txt\n+++ b/notes.txt\n@@ broken @@\n",
            "invalid_patch",
        ),
        (
            "missing-new-range",
            "--- a/notes.txt\n+++ b/notes.txt\n@@ -1 @@\n",
            "invalid_patch",
        ),
        (
            "extra-range",
            "--- a/notes.txt\n+++ b/notes.txt\n@@ -1 +1 +2 @@\n",
            "invalid_patch",
        ),
        (
            "invalid-range-start",
            "--- a/notes.txt\n+++ b/notes.txt\n@@ -x +1 @@\n",
            "invalid_patch",
        ),
        (
            "invalid-range-count",
            "--- a/notes.txt\n+++ b/notes.txt\n@@ -1,x +1 @@\n",
            "invalid_patch",
        ),
        (
            "early-hunk-end",
            "--- a/notes.txt\n+++ b/notes.txt\n@@ -1,2 +1,2 @@\n first\n",
            "invalid_patch",
        ),
        (
            "invalid-hunk-line",
            "--- a/notes.txt\n+++ b/notes.txt\n@@ -1 +1 @@\n?first\n",
            "invalid_patch",
        ),
        (
            "declared-count-overflow",
            "--- a/notes.txt\n+++ b/notes.txt\n@@ -1 +1,0 @@\n first\n",
            "invalid_patch",
        ),
        (
            "orphan-newline-marker",
            "--- a/notes.txt\n+++ b/notes.txt\n@@ -1 +1 @@\n\\ No newline at end of file\n",
            "invalid_patch",
        ),
        (
            "new-file-already-exists",
            "--- /dev/null\n+++ b/notes.txt\n@@ -0,0 +1 @@\n+changed\n",
            "patch_conflict",
        ),
        (
            "missing-source",
            "--- a/missing.txt\n+++ b/missing.txt\n@@ -1 +1 @@\n-old\n+new\n",
            "patch_conflict",
        ),
        (
            "hunk-outside-file",
            "--- a/notes.txt\n+++ b/notes.txt\n@@ -9 +9 @@\n-missing\n+changed\n",
            "patch_conflict",
        ),
        (
            "context-mismatch",
            "--- a/notes.txt\n+++ b/notes.txt\n@@ -1 +1 @@\n missing\n",
            "patch_conflict",
        ),
        (
            "out-of-order-hunks",
            "--- a/notes.txt\n+++ b/notes.txt\n@@ -2 +2 @@\n second\n@@ -1 +1 @@\n first\n",
            "patch_conflict",
        ),
    ];

    for (name, patch, expected_code) in cases {
        assert_eq!(failure_code(files.patch(patch)), expected_code, "case {name}");
        assert_eq!(
            files.content("notes.txt"),
            "first\nsecond\n",
            "case {name} must not mutate the target"
        );
    }
}

#[test]
fn apply_patch_enforces_cancellation_and_target_resource_limits() {
    let oversized = vec![0u8; 32 * 1024 * 1024 + 1];
    let line_heavy = "\n".repeat(1_000_001);
    let mut files = Files::new(&[
        ("invalid.txt", &[0xff, 0xfe]),
        ("oversized.txt", &oversized),
        ("too-many-lines.txt", line_heavy.as_bytes()),
    ]);

    let flag = AtomicBool::new(true);
    let call = arguments(&[(
        "patch",
        "--- a/invalid.txt\n+++ b/invalid.txt\n@@ -1 +1 @@\n-old\n+new\n",
    )]);
    let cancelled = files.apply(&call, &mut Cancellation::watching(&flag));
    assert_eq!(failure_code(cancelled), "tool_cancelled");

    assert_eq!(
        failure_code(files.patch(&"\n".repeat(200_001))),
        "patch_too_large"
    );

    for (name, expected_code) in [
        ("invalid.txt", "workspace_io_error"),
        ("oversized.txt", "patch_too_large"),
        ("too-many-lines.txt", "patch_too_large"),
    ] {
        let output =
            files.patch(&format!("--- a/{name}\n+++ b/{name}\n@@ -1 +1 @@\n-old\n+new\n"));
        assert_eq!(failure_code(output), expected_code, "target {name}");
    }
}

#[test]
fn apply_patch_accepts_standard_diff_metadata_without_publishing_it() {
    let mut files = Files::new(&[("notes.txt", b"old\n")]);
    let output = files.patch(
        "diff --git a/notes.txt b/notes.txt\nindex 1111111..2222222 100644\n\
         old mode 100644\nnew mode 100644\n--- a/notes.txt\n+++ b/notes.txt\n\
         @@ -1 +1 @@\n-old\n+new\n",
    );
    assert!(matches!(output, ToolOutput::Success { .. }));
    assert_eq!(files.content("notes.txt"), "new\n");
}

#[test]
fn apply_patch_updates_a_workspace_file_after_approval() {
    let mut files = Files::new(&[("notes.txt", b"first\nold value\nlast\n")]);
    let output = files.patch(
        "--- a/notes.txt\n+++ b/notes.txt\n@@ -1,3 +1,3 @@\n first\n-old value\n+new value\n last\n",
    );
    let (content, metadata) = success(output);
    assert_eq!(files.content("notes.txt"), "first\nnew value\nlast\n");
    let value = content_json(&content);
    assert_eq!(value["changed_files"], Value::Array(vec![text("notes.txt")]));
    let recovery_files = value["recovery_files"].as_array().expect("a list of files");
    assert_eq!(recovery_files.len(), 1);
    let recovery = recovery_files[0].as_str().expect("a path");
    assert!(recovery.starts_with(".young-agent-recovery/.young-agent-patch-displaced-"));
    assert_eq!(files.content(recovery), "first\nold value\nlast\n");
    assert_eq!(metadata["files_changed"], Value::from(1));
    assert_eq!(metadata["recovery_files"], Value::from(1));
    assert_eq!(
        metadata["recovery_policy"],
        text("ignored_by_search_and_git_until_caller_removes")
    );

    let (found, _) = success(files.search(&arguments(&[("query", "old value")]), false));
    assert_eq!(
        found,
        vec![ToolContent::Json {
            fields: vec![Field {
                name: "matches".to_string(),
                value: FieldValue::Matches(Vec::new()),
            }],
        }]
    );
}

#[test]
fn apply_patch_creates_a_new_file_without_recovery_artifacts() {
    let mut files = Files::new(&[]);
    let output = files
        .patch("--- /dev/null\n+++ b/new.txt\n@@ -0,0 +1,2 @@\n+first line\n+second line\n");
    let (content, metadata) = success(output);
    assert_eq!(files.content("new.txt"), "first line\nsecond line\n");
    let value = content_json(&content);
    assert_eq!(value["changed_files"], Value::Array(vec![text("new.txt")]));
    assert_eq!(value["recovery_files"], Value::Array(Vec::new()));
    assert_eq!(metadata["files_changed"], Value::from(1));
    assert_eq!(metadata["recovery_files"], Value::from(0));
}

#[test]
fn apply_patch_rejects_a_target_outside_the_selected_workspace() {
    let mut files = Files::new(&[]);
    let output = files.patch("--- a/../secret.txt\n+++ b/../secret.txt\n@@ -1 +1 @@\n-a\n+b\n");
    assert_eq!(failure_code(output), "outside_workspace");
}

#[test]
fn apply_patch_rejects_multi_file_edits_without_mutating_any_file() {
    let mut files = Files::new(&[("old.txt", b"obsolete\n")]);
    let output = files.patch(
        "--- /dev/null\n+++ b/new.txt\n@@ -0,0 +1,2 @@\n+created\n+file\n--- a/old.txt\n\
         +++ /dev/null\n@@ -1 +0,0 @@\n-obsolete\n",
    );
    assert_eq!(failure_code(output), "invalid_patch");
    assert!(!files.files.contains_key("new.txt"));
    assert_eq!(files.content("old.txt"), "obsolete\n");
}

#[test]
fn apply_patch_rejects_delete_file_edits_without_mutating_the_file() {
    let mut files = Files::new(&[("obsolete.txt", b"obsolete\n")]);
    let output = files.patch("--- a/obsolete.txt\n+++ /dev/null\n@@ -1 +0,0 @@\n-obsolete\n");
    assert_eq!(failure_code(output), "invalid_patch");
    assert_eq!(files.content("obsolete.txt"), "obsolete\n");
}

#[test]
fn apply_patch_rejects_oversized_input_before_parsing_it() {
    let mut files = Files::new(&[]);
    let output = files.patch(&"x".repeat(4 * 1024 * 1024 + 1));
    assert_eq!(failure_code(output), "patch_too_large");
}

#[test]
fn apply_patch_handles_files_without_a_trailing_newline() {
    let mut files = Files::new(&[("notes.txt", b"old")]);
    let output = files.patch(
        "--- a/notes.txt\n+++ b/notes.txt\n@@ -1 +1 @@\n-old\n\\ No newline at end of file\n\
         +new\n\\ No newline at end of file\n",
    );
    assert!(matches!(output, ToolOutput::Success { .. }));
    assert_eq!(files.content("notes.txt"), "new");
}

#[test]
fn apply_patch_rejects_unaccounted_content_instead_of_silently_ignoring_it() {
    let mut files = Files::new(&[("notes.txt", b"old\n")]);
    let output = files.patch(
        "--- a/notes.txt\n+++ b/notes.txt\n@@ -1 +1 @@\n-old\n+new\n+not-declared-in-hunk\n",
    );
    assert_eq!(failure_code(output), "invalid_patch");
    assert_eq!(files.content("notes.txt"), "old\n");
}

#[test]
fn hunks_of_context_change_nothing() {
    let mut never = Cancellation::never();
    let files = parse_patch(
        "--- a/n\n+++ b/n\n@@ -2,2 +2,2 @@\n two\n three\n@@ -5 +5 @@\n five\n",
        &mut never,
    )
    .expect("the patch is well formed");
    let original = "one\ntwo\nthree\nfour\nfive\nsix";
    assert_eq!(
        apply_hunks(original, &files[0].hunks, &mut never).expect("the hunks fit"),
        original
    );
}

#[test]
fn several_hunks_replace_only_their_lines() {
    let mut never = Cancellation::never();
    let files = parse_patch(
        "--- a/n\n+++ b/n\n@@ -1,2 +1,1 @@\n-one\n two\n@@ -4,1 +3,3 @@\n four\n+4a\n+4b\n",
        &mut never,
    )
    .expect("the patch is well formed");
    assert_eq!(
        files[0]
            .prepare_change(Some("one\ntwo\nthree\nfour\nfive\n"), &mut never)
            .expect("the hunks fit"),
        "two\nthree\nfour\n4a\n4b\nfive\n"
    );
    let conflict = files[0]
        .prepare_change(Some("one\nzwei\nthree\nfour\n"), &mut never)
        .expect_err("the second line differs");
    assert_eq!(conflict.code(), "patch_conflict");
    assert!(!conflict.retryable());
    assert_eq!(
        conflict.message(),
        "patch conflict: patch context mismatch at old line 2: expected \"two\\n\", found \"zwei\\n\""
    );
}

#[test]
fn publications_that_fail_tell_how_far_they_came() {
    let mut never = Cancellation::never();
    let mut publish = |publication: Publication| {
        let run = apply_unified_patch(
            "--- a/n.txt\n+++ b/n.txt\n@@ -1 +1 @@\n-a\n+b\n",
            &mut never,
        );
        let workspace =
            CodingWorkspace::new(WorkspaceContext::new("/workspace".to_string(), None));
        let found = workspace.resolve_for_write(
            "n.txt",
            WriteProbe::Existing(ExistingProbe::Found("n.txt".to_string())),
        );
        let run = run.advance(PatchEvent::Resolved(found), &mut never);
        let run = run.advance(PatchEvent::Read(Ok("a\n".to_string())), &mut never);
        let run = run.advance(PatchEvent::Cancellation(false), &mut never);
        match run.advance(PatchEvent::Published(publication), &mut never) {
            PatchRun::Finished(Err(error)) => error.code().to_string(),
            other => panic!("the publication failed: {other:?}"),
        }
    };
    assert_eq!(
        publish(Publication::BeforePublication { source: failed("full"), recovery: None }),
        "workspace_io_error"
    );
    assert_eq!(
        publish(Publication::BeforePublication {
            source: failed("full"),
            recovery: Some(PublishedRecovery::LocatedVerified(DISPLACED.to_string())),
        }),
        "patch_not_published_with_recovery"
    );
    assert_eq!(
        publish(Publication::Published {
            source: failed("lost"),
            target: "n.txt".to_string(),
            recovery: PublishedRecovery::Unlocated,
        }),
        "patch_published_recovery_unlocated"
    );
}

const CHANGE: &str = "--- a/n.txt\n+++ b/n.txt\n@@ -1 +1 @@\n-a\n+b\n";

fn polling(cancellation: &mut Cancellation) -> PatchRun {
    let workspace = CodingWorkspace::new(WorkspaceContext::new("/workspace".to_string(), None));
    let found = workspace.resolve_for_write(
        "n.txt",
        WriteProbe::Existing(ExistingProbe::Found("n.txt".to_string())),
    );
    apply_unified_patch(CHANGE, cancellation)
        .advance(PatchEvent::Resolved(found), cancellation)
        .advance(PatchEvent::Read(Ok("a\n".to_string())), cancellation)
}

#[test]
fn a_last_look_decides_whether_a_patch_is_published() {
    let mut never = Cancellation::never();
    let waiting = polling(&mut never);
    assert_eq!(
        waiting,
        PatchRun::Polling {
            path: "n.txt".to_string(),
            content: "b\n".to_string(),
            replaces: true,
        }
    );
    assert_eq!(
        waiting.advance(PatchEvent::Cancellation(true), &mut never),
        PatchRun::Finished(Err(PatchError::Cancelled))
    );
    assert_eq!(
        polling(&mut never).advance(PatchEvent::Cancellation(false), &mut never),
        PatchRun::Publishing {
            path: "n.txt".to_string(),
            content: "b\n".to_string(),
            replaces: true,
        }
    );
}

#[test]
fn a_publication_is_not_cancelled() {
    let mut never = Cancellation::never();
    let mut always = Cancellation::settled(true);
    let publishing = polling(&mut never).advance(PatchEvent::Cancellation(false), &mut never);
    let done = publishing.advance(
        PatchEvent::Published(Publication::Done { recovery: None }),
        &mut always,
    );
    let expected = PatchRun::Finished(Ok(PatchResult {
        changed_files: vec!["n.txt".to_string()],
        recovery_files: Vec::new(),
    }));
    assert_eq!(done, expected);
    assert_eq!(done.advance(PatchEvent::Cancellation(true), &mut always), expected);
}

#[test]
fn a_look_stops_a_patch_only_where_one_is_taken() {
    let mut always = Cancellation::settled(true);
    assert_eq!(
        apply_unified_patch(CHANGE, &mut always),
        PatchRun::Finished(Err(PatchError::Cancelled))
    );
    let refused = |run: PatchRun| match run {
        PatchRun::Finished(Err(error)) => error.code().to_string(),
        other => panic!("the patch is refused: {other:?}"),
    };
    assert_eq!(refused(apply_unified_patch("", &mut always)), "invalid_patch");

    let mut never = Cancellation::never();
    let run = apply_unified_patch(CHANGE, &mut never);
    let workspace = CodingWorkspace::new(WorkspaceContext::new("/workspace".to_string(), None));
    let absent = workspace.resolve_for_write(
        "n.txt",
        WriteProbe::Absent { inspected: missing(), parent: Ok(String::new()) },
    );
    assert_eq!(
        refused(run.advance(PatchEvent::Resolved(absent), &mut always)),
        "patch_conflict"
    );

    let mut files = Files::new(&[("n.txt", b"a\n")]);
    let call = arguments(&[("patch", CHANGE)]);
    let stopped = files.apply(&call, &mut Cancellation::settled(true));
    assert_eq!(failure_code(stopped), "tool_cancelled");
    assert_eq!(files.content("n.txt"), "a\n");
    assert_eq!(files.files.len(), 1);
}

#[test]
fn a_patch_changes_its_target_alone() {
    let mut files = Files::new(&[("n.txt", b"a\n"), ("other.txt", b"a\n")]);
    success(files.patch(CHANGE));
    assert_eq!(files.content("n.txt"), "b\n");
    assert_eq!(files.content("other.txt"), "a\n");
    assert_eq!(failure_code(files.patch(CHANGE)), "patch_conflict");
    assert_eq!(files.content("n.txt"), "b\n");
}

#[test]
fn a_patch_result_counts_its_files() {
    let context = WorkspaceContext::new("/workspace".to_string(), None);
    let result = PatchResult {
        changed_files: vec!["a".to_string(), "b".to_string()],
        recovery_files: Vec::new(),
    };
    let (_, metadata) = success(patch_success(result, &context));
    assert_eq!(metadata["files_changed"], Value::from(2));
    assert_eq!(metadata["workspace"]["root"], text("/workspace"));
}

#[test]
fn read_file_runs_through_the_tool_runtime_and_exposes_workspace_metadata() {
    let files = Files::new(&[("README.md", b"# test workspace\n")]);
    let call = arguments(&[("path", "README.md")]);
    let (content, metadata) = success(files.read(&call, &[false, false]));
    assert_eq!(
        content,
        vec![ToolContent::Text { text: "# test workspace\n".to_string() }]
    );
    assert_eq!(metadata["path"], text("README.md"));
    assert_eq!(metadata["bytes"], Value::from(17));
    assert_eq!(metadata["truncated"], Value::Bool(false));
    assert_eq!(metadata["workspace"]["root"], text("/workspace"));
    assert!(metadata["workspace"]["git_worktree"].is_null());

    assert_eq!(failure_code(files.read(&call, &[true, true])), "tool_cancelled");
    assert_eq!(failure_code(files.read(&call, &[false, true])), "tool_cancelled");
}

#[test]
fn read_file_metadata_exposes_the_detected_git_worktree_context() {
    let git = GitWorktreeContext::new(
        "/workspace".to_string(),
        "/workspace/.git".to_string(),
        "/workspace/.git".to_string(),
    );
    let mut files = Files::new(&[("README.md", b"workspace\n")]);
    files.workspace =
        CodingWorkspace::new(WorkspaceContext::new("/workspace".to_string(), Some(git)));
    let call = arguments(&[("path", "README.md")]);
    let (_, metadata) = success(files.read(&call, &[false, false]));
    assert_eq!(
        metadata["workspace"]["git_worktree"],
        object(&[
            ("worktree_root", text("/workspace")),
            ("git_dir", text("/workspace/.git")),
            ("common_dir", text("/workspace/.git")),
            ("linked", Value::Bool(false)),
        ])
    );
}

#[test]
fn read_file_rejects_path_traversal_outside_the_selected_workspace() {
    let files = Files::new(&[]);
    let output = files.read(&arguments(&[("path", "../secret.txt")]), &[false, false]);
    let ToolOutput::Failure { error, extensions } = output else {
        panic!("path traversal must fail");
    };
    assert_eq!(error.code, "outside_workspace");
    assert!(!error.retryable);
    assert!(extensions.is_empty());
}

#[test]
fn read_file_rejects_an_oversized_path_before_resolving_it() {
    let files = Files::new(&[]);
    let call = arguments(&[("path", &"x".repeat(8 * 1024 + 1))]);
    let ToolOutput::Failure { error, .. } = files.read(&call, &[false, false]) else {
        panic!("oversized read path must fail");
    };
    assert_eq!(error.code, "invalid_arguments");
    assert_eq!(error.message, "argument 'path' exceeds 8192 bytes");
    assert!(!error.retryable);
}

#[test]
fn read_file_rejects_a_symlink_that_escapes_the_selected_workspace() {
    let workspace = CodingWorkspace::new(WorkspaceContext::new("/workspace".to_string(), None));
    let escape = IoFailure::new(
        ErrorKind::PermissionDenied,
        "a path led outside of the filesystem",
    );
    let error = workspace
        .resolve_existing("escape.txt", ExistingProbe::Failed(escape))
        .expect_err("symlink escape must fail");
    assert_eq!(error.code(), "outside_workspace");
    assert!(!error.retryable());
}

#[test]
fn read_file_truncates_at_a_valid_utf8_boundary() {
    let mut content = "a".repeat(64 * 1024 - 1);
    content.push('\u{754c}');
    content.push_str("tail");
    let files = Files::new(&[("large.txt", content.as_bytes())]);
    let call = arguments(&[("path", "large.txt")]);
    let (content, metadata) = success(files.read(&call, &[false, false]));
    let [ToolContent::Text { text: shown }] = content.as_slice() else {
        panic!("read_file should return text");
    };
    assert_eq!(shown.len(), 48 * 1024 - 2);
    assert_eq!(metadata["bytes"], Value::from(64 * 1024 + 6));
    assert_eq!(metadata["returned_bytes"], Value::from(48 * 1024 - 2));
    assert_eq!(metadata["truncated"], Value::Bool(true));
    assert_eq!(metadata["truncation_limit_bytes"], Value::from(48 * 1024));
}

#[test]
fn read_file_bounds_the_complete_serialized_output() {
    let files = Files::new(&[("control-bytes.txt", &[0u8; 70_000])]);
    let call = arguments(&[("path", "control-bytes.txt")]);
    let output = files.read(&call, &[false, false]);
    let length = serialized_length(&output);
    assert!(matches!(output, ToolOutput::Success { .. }));
    assert!(length <= 64 * 1024, "serialized output is bounded");
}

fn far_away() -> WorkspaceContext {
    let far = |name: &str| format!("/{}/{name}", "d".repeat(6_000));
    WorkspaceContext::new(
        far("root"),
        Some(GitWorktreeContext::new(far("root"), far("git"), far("common"))),
    )
}

#[test]
fn paths_are_cut_only_where_the_output_would_be_too_long() {
    let context = far_away();
    let short = read_output("n.txt", 2, b"a\n", &context);
    let (_, metadata) = success(short);
    assert_eq!(metadata["workspace"]["root"].as_str().unwrap(), context.root());

    let bytes = vec![b'a'; 60_000];
    let long = read_output(&"p".repeat(9_000), 60_000, &bytes, &context);
    assert!(serialized_length(&long) <= 64 * 1024, "serialized output is bounded");
    let (content, metadata) = success(long);
    assert_eq!(
        content,
        vec![ToolContent::Text { text: "a".repeat(48 * 1024 - 2) }]
    );
    assert_eq!(metadata["path"].as_str().unwrap().len(), 2 * 1024 - 2);
    assert_eq!(metadata["workspace"]["root"].as_str().unwrap().len(), 2 * 1024 - 2);
    let git = &metadata["workspace"]["git_worktree"];
    assert_eq!(git["git_dir"], git["common_dir"]);
    assert_eq!(git["linked"], Value::Bool(true));
    assert_eq!(metadata["bytes"], Value::from(60_000));
}

#[test]
fn patch_outputs_with_long_paths_are_cut() {
    let path = "p".repeat(40_000);
    let result = PatchResult {
        changed_files: vec![path.clone()],
        recovery_files: vec![path],
    };
    let output = patch_success(result, &far_away());
    assert!(serialized_length(&output) <= 64 * 1024, "serialized output is bounded");
    let (content, metadata) = success(output);
    let value = content_json(&content);
    assert_eq!(value["changed_files"][0].as_str().unwrap().len(), 2 * 1024 - 2);
    assert_eq!(value["recovery_files"][0].as_str().unwrap().len(), 2 * 1024 - 2);
    assert_eq!(metadata["files_changed"], Value::from(1));
}

#[test]
fn failures_are_handed_out_as_they_are() {
    let failed = young_agent::tool_support::failure("code", "message", true);
    assert_eq!(finalize_output(failed.clone()), failed);
}

#[test]
fn reads_that_fail_say_why() {
    let context = WorkspaceContext::new("/workspace".to_string(), None);
    let opening = || ReadRun::Opening { path: "a".to_string() };
    let not_file = IoFailure::new(ErrorKind::InvalidInput, "not a regular file");
    let interrupted = IoFailure::new(ErrorKind::Interrupted, "interrupted");
    for (run, event, code, message, retryable) in [
        (
            opening(),
            ReadEvent::Opened(Err(not_file)),
            "path_is_not_file",
            "'a' is not a file",
            false,
        ),
        (
            opening(),
            ReadEvent::Opened(Err(interrupted)),
            "workspace_io_error",
            "failed to open 'a': interrupted",
            true,
        ),
        (
            ReadRun::Reading { path: "a".to_string(), file_length: 3 },
            ReadEvent::Bytes(Err(failed("gone"))),
            "workspace_io_error",
            "failed to read 'a': gone",
            false,
        ),
        (
            ReadRun::Polling { path: "a".to_string(), file_length: 2, bytes: vec![b'a', 0xff] },
            ReadEvent::Cancellation(false),
            "file_not_utf8",
            "file content is not valid UTF-8: invalid utf-8 sequence of 1 bytes from index 1",
            false,
        ),
        (
            ReadRun::Polling { path: "a".to_string(), file_length: 2, bytes: vec![b'a', 0xe7] },
            ReadEvent::Cancellation(false),
            "file_not_utf8",
            "file content is not valid UTF-8: incomplete utf-8 byte sequence from index 1",
            false,
        ),
    ] {
        let ReadRun::Finished(ToolOutput::Failure { error, .. }) = run.advance(event, &context)
        else {
            panic!("the read should fail: {message}");
        };
        assert_eq!(error.code, code);
        assert_eq!(error.message, message);
        assert_eq!(error.retryable, retryable);
    }
}

#[test]
fn search_files_returns_structured_matches_through_the_tool_runtime() {
    let files = Files::new(&[
        ("src/lib.rs", b"pub fn first() {}\n// agent kernel marker\n"),
        ("src/main.rs", b"// agent kernel marker\nfn main() {}\n"),
    ]);
    let call = arguments(&[("query", "agent kernel"), ("path", "src")]);
    let (content, metadata) = success(files.search(&call, false));
    let found = |path: &str, line: u64| {
        object(&[
            ("path", text(path)),
            ("line", Value::from(line)),
            ("text", text("// agent kernel marker")),
        ])
    };
    assert_eq!(
        content_json(&content)["matches"],
        Value::Array(vec![found("src/lib.rs", 2), found("src/main.rs", 1)])
    );
    assert_eq!(metadata["matches"], Value::from(2));
    assert_eq!(metadata["truncated"], Value::Bool(false));
    assert_eq!(metadata["query"], text("agent kernel"));
}

#[test]
fn search_files_rejects_an_oversized_path_before_scanning() {
    let files = Files::new(&[("match.txt", b"needle\n")]);
    let call = arguments(&[("query", "needle"), ("path", &"./".repeat(4_097))]);
    let ToolOutput::Failure { error, .. } = files.search(&call, false) else {
        panic!("oversized search path must fail");
    };
    assert_eq!(error.code, "invalid_arguments");
    assert!(error.message.contains("exceeds 8192 bytes"));
}

#[test]
fn search_files_bounds_path_metadata_before_serialization() {
    let files = Files::new(&[("match.txt", b"needle\n")]);
    let call = arguments(&[("query", "needle"), ("path", &"./".repeat(3_000))]);
    let (_, metadata) = success(files.search(&call, false));
    assert_eq!(metadata["path_bytes"], Value::from(6_000));
    assert_eq!(metadata["path_truncated"], Value::Bool(true));
    assert!(metadata["path"].as_str().expect("path is a string").len() < 6_000);
}

#[test]
fn search_files_marks_results_truncated_at_the_directory_depth_limit() {
    let path = format!("{}match.txt", "d/".repeat(257));
    let files = Files::new(&[(&path, b"deep needle\n")]);
    let (content, metadata) = success(files.search(&arguments(&[("query", "needle")]), false));
    assert_eq!(content_json(&content)["matches"], Value::Array(Vec::new()));
    assert_eq!(metadata["truncated"], Value::Bool(true));
    assert_eq!(metadata["directories_visited"], Value::from(256));
}

#[test]
fn search_files_marks_a_truncated_matching_line() {
    let long_line = format!("needle{}\n", "x".repeat(9_000));
    let files = Files::new(&[("large.txt", long_line.as_bytes())]);
    let (content, metadata) = success(files.search(&arguments(&[("query", "needle")]), false));
    let value = content_json(&content);
    assert_eq!(value["matches"][0]["text"].as_str().unwrap().len(), 8 * 1024);
    assert_eq!(metadata["truncated"], Value::Bool(true));
}

#[test]
fn a_search_passes_over_recovery_and_git_directories() {
    let files = Files::new(&[
        (".young-agent-recovery/kept.tmp", b"needle\n"),
        (".young-agent-recovery/deep/kept.tmp", b"needle\n"),
        ("src/.young-agent-recovery/kept.tmp", b"needle\n"),
        ("src/.git/kept.tmp", b"needle\n"),
        ("src/.young-agent-recovery.txt", b"needle\n"),
    ]);
    let (content, _) = success(files.search(&arguments(&[("query", "needle")]), false));
    assert_eq!(
        content_json(&content)["matches"],
        Value::Array(vec![object(&[
            ("path", text("src/.young-agent-recovery.txt")),
            ("line", Value::from(1)),
            ("text", text("needle")),
        ])])
    );
}

#[test]
fn search_files_does_not_reserve_patch_staging_prefixes_globally() {
    let files = Files::new(&[
        (".young-agent-patch-notes.md", b"visible needle\n"),
        (".young-agent-patch-notes/real.rs", b"visible needle\n"),
    ]);
    let call = arguments(&[("query", "visible needle")]);
    let (content, _) = success(files.search(&call, false));
    assert_eq!(content_json(&content)["matches"].as_array().unwrap().len(), 2);
}

#[test]
fn search_files_finds_a_match_beyond_its_bounded_line_preview() {
    let mut long_line = "x".repeat(2 * 1024 * 1024);
    long_line.push_str("needle\n");
    let files = Files::new(&[("large.txt", long_line.as_bytes())]);
    let (content, metadata) = success(files.search(&arguments(&[("query", "needle")]), false));
    let value = content_json(&content);
    assert_eq!(value["matches"][0]["line"], Value::from(1));
    assert_eq!(value["matches"][0]["text"].as_str().unwrap().len(), 8 * 1024);
    assert_eq!(metadata["lines_truncated"], Value::from(1));
    assert_eq!(metadata["truncated"], Value::Bool(true));
}

#[test]
fn search_files_skips_an_entire_file_when_late_bytes_are_not_utf8() {
    let files = Files::new(&[
        ("a-binary.txt", b"needle before invalid bytes\n\xff\n"),
        ("b-valid.txt", b"needle in valid file\n"),
    ]);
    let (content, metadata) = success(files.search(&arguments(&[("query", "needle")]), false));
    assert_eq!(
        content_json(&content)["matches"],
        Value::Array(vec![object(&[
            ("path", text("b-valid.txt")),
            ("line", Value::from(1)),
            ("text", text("needle in valid file")),
        ])])
    );
    assert_eq!(metadata["binary_files_skipped"], Value::from(1));
}

#[test]
fn search_files_returns_a_deterministic_subset_at_the_match_limit() {
    let paths: Vec<String> = (0..205).map(|index| format!("files/{index:03}.txt")).collect();
    let entries: Vec<(&str, &[u8])> =
        paths.iter().map(|path| (path.as_str(), &b"needle\n"[..])).collect();
    let files = Files::new(&entries);
    let call = arguments(&[("query", "needle"), ("path", "files")]);
    let (content, metadata) = success(files.search(&call, false));
    let value = content_json(&content);
    let matches = value["matches"].as_array().expect("matches are an array");
    assert_eq!(matches.len(), 200);
    assert_eq!(matches.first().unwrap()["path"], text("files/000.txt"));
    assert_eq!(matches.last().unwrap()["path"], text("files/199.txt"));
    assert_eq!(metadata["truncated"], Value::Bool(true));
}

#[test]
fn search_files_bounds_the_complete_serialized_output() {
    let query = "\0".repeat(8 * 1024);
    let files = Files::new(&[("control-bytes.txt", format!("{query}\n").as_bytes())]);
    let output = files.search(&arguments(&[("query", &query)]), false);
    assert!(serialized_length(&output) <= 64 * 1024, "serialized output is bounded");
    let (_, metadata) = success(output);
    assert_eq!(metadata["query_truncated"], Value::Bool(true));
    assert_eq!(metadata["query_bytes"], Value::from(8 * 1024));
}

#[test]
fn a_search_of_one_file_shows_its_path() {
    let files = Files::new(&[("notes.txt", b"one\nneedle two\nthree needle"), ("other", b"needle")]);
    let call = arguments(&[("query", "needle"), ("path", "notes.txt")]);
    let (content, metadata) = success(files.search(&call, false));
    let value = content_json(&content);
    assert_eq!(value["matches"][0]["line"], Value::from(2));
    assert_eq!(value["matches"][1]["line"], Value::from(3));
    assert_eq!(value["matches"][1]["text"], text("three needle"));
    assert_eq!(metadata["matches"], Value::from(2));
    assert_eq!(metadata["bytes_searched"], Value::from(27));
    assert_eq!(failure_code(files.search(&call, true)), "tool_cancelled");
}

#[test]
fn builtin_tools_reject_malformed_argument_envelopes_consistently() {
    let mut files = Files::new(&[]);
    let cases = [
        ("read_file", "\"README.md\""),
        ("read_file", "{\"path\":\"README.md\",\"extra\":true}"),
        ("read_file", "{}"),
        ("read_file", "{\"path\":7}"),
        ("search_files", "{\"query\":\"needle\",\"path\":\"\"}"),
        ("search_files", "{\"query\":\"needle\",\"path\":false}"),
        ("search_files", "{\"query\":\"\"}"),
        ("apply_patch", "{\"patch\":null}"),
    ];
    for (tool_name, call) in cases {
        let output = match tool_name {
            "read_file" => files.read(call, &[false, false]),
            "search_files" => files.search(call, false),
            _ => files.apply(call, &mut Cancellation::never()),
        };
        let ToolOutput::Failure { error, extensions } = output else {
            panic!("{tool_name} malformed arguments must fail");
        };
        assert_eq!(error.code, "invalid_arguments");
        assert!(!error.retryable);
        assert!(extensions.is_empty());
    }
}

/// What becomes of a command before it is run.
fn refused(command: &str, authorization: &ToolExecutionAuthorization) -> Option<ToolOutput> {
    let workspace = CodingWorkspace::new(WorkspaceContext::new("/workspace".to_string(), None));
    let call = arguments(&[("command", command)]);
    let mut answers = Vec::new();
    let decision = loop {
        match CommandApprovalPolicy.classify_call(&workspace, &call, &answers) {
            PolicyStep::Decided(decision) => break decision,
            PolicyStep::Lookup(_) => answers.push(PathAnswer::Failed(ErrorKind::NotFound)),
        }
    };
    let policy = call_policy(BuiltinCodingTool::RunCommand, decision);
    refuse_call(&policy, authorization, "call-1")
}

#[test]
fn run_command_rejects_oversized_input_before_spawning_it() {
    let command = format!(
        "printf spawned > oversized-command-ran #{}",
        "x".repeat(64 * 1024)
    );
    let granted = ToolExecutionAuthorization::ApprovalGranted { call_id: "call-1".to_string() };
    let Some(ToolOutput::Failure { error, .. }) = refused(&command, &granted) else {
        panic!("oversized command must fail");
    };
    assert_eq!(error.code, "tool_rejected");
    assert!(error.message.contains("65536 bytes"));
    assert!(!error.retryable);
}

#[test]
fn run_command_requires_approval_for_workspace_mutation() {
    let not_required = ToolExecutionAuthorization::NotRequired;
    let Some(ToolOutput::Failure { error, .. }) = refused("touch marker.txt", &not_required)
    else {
        panic!("unapproved command must fail");
    };
    assert_eq!(error.code, "approval_required");
    assert_eq!(error.message, "command may mutate workspace files");
}

#[test]
fn an_approval_opens_only_its_own_call() {
    let other = ToolExecutionAuthorization::ApprovalGranted { call_id: "call-2".to_string() };
    assert!(refused("touch marker.txt", &other).is_some());
    let own = ToolExecutionAuthorization::ApprovalGranted { call_id: "call-1".to_string() };
    assert!(refused("touch marker.txt", &own).is_none());
    assert!(refused("pwd", &ToolExecutionAuthorization::NotRequired).is_none());
}

#[test]
fn apply_patch_cannot_mutate_a_file_without_approval() {
    let policy = call_policy(BuiltinCodingTool::ApplyPatch, CommandPolicyDecision::Allow);
    assert!(matches!(policy, CallPolicy::RequiresApproval { .. }));
    let refusal = refuse_call(&policy, &ToolExecutionAuthorization::NotRequired, "call-1");
    assert_eq!(failure_code(refusal.expect("the call is refused")), "approval_required");
}

fn outcome(stdout: String, stdout_bytes: u64, stdout_truncated: bool) -> CommandOutcome {
    CommandOutcome {
        status: ExitOutcome { code: Some(0) },
        stdout,
        stderr: String::new(),
        stdout_bytes,
        stderr_bytes: 0,
        stdout_truncated,
        stderr_truncated: false,
        output_incomplete: false,
    }
}

#[test]
fn run_command_truncates_large_output_without_losing_the_total_size() {
    let context = WorkspaceContext::new("/workspace".to_string(), None);
    let large = outcome("x".repeat(65536), 70_000, true);
    let (content, metadata) = success(command_output(&large, &context, Platform::Linux));
    let value = content_json(&content);
    assert_eq!(value["stdout"].as_str().unwrap().len(), 24 * 1024 - 2);
    assert_eq!(value["success"], Value::Bool(true));
    assert_eq!(value["exit_code"], Value::from(0));
    assert_eq!(metadata["stdout_bytes"], Value::from(70_000));
    assert_eq!(metadata["stdout_truncated"], Value::Bool(true));
    assert_eq!(metadata["output_incomplete"], Value::Bool(false));
}

#[test]
fn run_command_bounds_json_escaped_output() {
    let context = WorkspaceContext::new("/workspace".to_string(), None);
    let zeros = outcome("\0".repeat(65536), 70_000, true);
    let output = command_output(&zeros, &context, Platform::Linux);
    assert!(serialized_length(&output) <= 64 * 1024, "serialized output is bounded");
    let (_, metadata) = success(output);
    assert_eq!(metadata["stdout_bytes"], Value::from(70_000));
    assert_eq!(metadata["stdout_truncated"], Value::Bool(true));
}

#[test]
fn run_command_preserves_signal_termination_status() {
    let context = WorkspaceContext::new("/workspace".to_string(), None);
    let mut killed = outcome(String::new(), 0, false);
    killed.status = ExitOutcome { code: None };
    let (content, metadata) = success(command_output(&killed, &context, Platform::MacOs));
    let value = content_json(&content);
    assert_eq!(value["success"], Value::Bool(false));
    assert!(value["exit_code"].is_null());
    assert_eq!(metadata["exec_privilege_gain_blocked"], Value::Bool(false));
}

#[test]
fn command_errors_become_failures() {
    let ToolOutput::Failure { error, .. } = command_failure(&CommandError::Cancelled) else {
        panic!("an error must fail");
    };
    assert_eq!(error.code, CommandError::Cancelled.code());
    assert_eq!(error.message, CommandError::Cancelled.message());
    let spawn = CommandError::Spawn(failed("no shell"));
    let ToolOutput::Failure { error, .. } = command_failure(&spawn) else {
        panic!("an error must fail");
    };
    assert!(error.message.contains("no shell"), "{}", error.message);
}

#[test]
fn command_arguments_are_checked() {
    assert_eq!(
        parse_command_arguments("{\"command\":\"pwd\"}"),
        Ok("pwd".to_string())
    );
    let long = arguments(&[("command", &"x".repeat(64 * 1024 + 1))]);
    assert_eq!(
        failure_code(parse_command_arguments(&long).expect_err("too long")),
        "command_too_large"
    );
    assert_eq!(
        failure_code(parse_command_arguments("{\"command\":\"\"}").expect_err("empty")),
        "invalid_arguments"
    );
}

#[test]
fn coding_capability_loads_its_embedded_builtin_manifest() {
    let manifest = coding_manifest();

    assert_eq!(manifest.schema_version, 1);
    assert_eq!(manifest.id, "coding");
    assert_eq!(manifest.version, "0.1.0");
    assert_eq!(manifest.name, "Coding Capability");
    assert_eq!(
        manifest
            .tools
            .iter()
            .map(|tool| tool.name.as_str())
            .collect::<Vec<_>>(),
        ["read_file", "search_files", "apply_patch", "run_command"]
    );
    assert_eq!(manifest.tools[0].safety_class, ToolSafetyClass::AlwaysAllow);
    assert_eq!(
        manifest.tools[2].safety_class,
        ToolSafetyClass::RequiresApproval
    );
    assert_eq!(
        manifest.tools[3].safety_class,
        ToolSafetyClass::CallDependent
    );
}

#[test]
fn coding_capability_registers_implementations_for_a_selected_workspace() {
    let mut registry = ToolRegistry::new();
    register_builtin_coding_capability(&mut registry).expect("capability registers");

    assert_eq!(registry.len(), 4);
    for name in ["read_file", "search_files", "apply_patch", "run_command"] {
        assert!(registry.is_registered(name), "missing definition: {name}");
    }

    let files = Files::new(&[("Cargo.toml", b"name = \"young-capability-coding\"\n")]);
    let output = files.read(&arguments(&[("path", "Cargo.toml")]), &[false, false]);
    let (content, _) = success(output);
    let [ToolContent::Text { text: shown }] = content.as_slice() else {
        panic!("read_file should return one text content item");
    };
    assert!(shown.contains("name = \"young-capability-coding\""));
}

#[test]
fn a_second_registration_changes_nothing() {
    let mut registry = ToolRegistry::new();
    register_builtin_coding_capability(&mut registry).expect("capability registers");
    assert_eq!(
        register_builtin_coding_capability(&mut registry),
        Err(CodingCapabilityRegistrationError::DuplicateTool { name: "read_file".to_string() })
    );
    assert_eq!(registry.len(), 4);
}

#[test]
fn registration_errors_preserve_their_context_and_sources() {
    let cases = vec![
        (
            CodingCapabilityRegistrationError::Manifest {
                message: "invalid tool".to_string(),
            },
            "coding capability manifest failed: invalid built-in capability manifest: invalid tool",
            true,
        ),
        (
            CodingCapabilityRegistrationError::UnsupportedManifestTool {
                name: "unknown_tool".to_string(),
            },
            "coding capability manifest declares unsupported tool 'unknown_tool'",
            false,
        ),
        (
            CodingCapabilityRegistrationError::DuplicateTool {
                name: "read_file".to_string(),
            },
            "coding capability registration failed: tool 'read_file' is already registered",
            true,
        ),
    ];

    for (error, expected, has_source) in cases {
        assert_eq!(error.message(), expected);
        assert_eq!(error.has_source(), has_source);
    }
}

#[test]
fn workspace_resolves_the_selected_root_and_records_git_context() {
    let stdout = b"/canonical/root\n/canonical/root/.git\n/canonical/root/.git\n".to_vec();
    let workspace = CodingWorkspace::resolve(
        "root",
        RootProbe::Opened {
            root: "/canonical/root".to_string(),
            git: Ok(GitProbeOutput { success: true, stdout }),
        },
    )
    .expect("the root resolves");
    assert_eq!(workspace.context().root(), "/canonical/root");
    let git = workspace.context().git_worktree().expect("a worktree is found");
    assert_eq!(git.worktree_root(), "/canonical/root");
    assert_eq!(git.git_dir(), "/canonical/root/.git");
    assert_eq!(git.common_dir(), "/canonical/root/.git");
    assert!(!git.is_linked_worktree());
}

#[test]
fn workspace_distinguishes_a_linked_git_worktree_from_the_common_git_dir() {
    let stdout = b"/linked\n/main/.git/worktrees/linked\n/main/.git\n".to_vec();
    let git = detect_git_worktree(GitProbeOutput { success: true, stdout })
        .expect("the output is read")
        .expect("a worktree is found");
    assert!(git.is_linked_worktree());
    assert_eq!(git.common_dir(), "/main/.git");
}

#[test]
fn workspaces_that_cannot_be_opened_say_why() {
    let resolve = |probe: RootProbe| match CodingWorkspace::resolve("selected", probe) {
        Ok(_) => panic!("the root must be refused"),
        Err(error) => error,
    };
    let unresolved = resolve(RootProbe::Unresolved(failed("gone")));
    assert!(matches!(unresolved, CodingWorkspaceError::ResolveRoot { .. }));
    assert!(unresolved.message().contains("selected"));
    let file = resolve(RootProbe::NotDirectory { root: "/file".to_string() });
    assert!(matches!(file, CodingWorkspaceError::RootIsNotDirectory { .. }));
    let unopened = resolve(RootProbe::Unopened {
        root: "/root".to_string(),
        source: failed("denied"),
    });
    assert!(matches!(unopened, CodingWorkspaceError::OpenRoot { .. }));
    let git = resolve(RootProbe::Opened {
        root: "/root".to_string(),
        git: Err(failed("no git")),
    });
    assert!(matches!(git, CodingWorkspaceError::StartGitProbe(_)));
    let binary = resolve(RootProbe::Opened {
        root: "/root".to_string(),
        git: Ok(GitProbeOutput { success: true, stdout: vec![0xff] }),
    });
    assert!(matches!(binary, CodingWorkspaceError::GitOutputUtf8 { .. }));
    let short = resolve(RootProbe::Opened {
        root: "/root".to_string(),
        git: Ok(GitProbeOutput { success: true, stdout: b"/root\n".to_vec() }),
    });
    assert!(matches!(short, CodingWorkspaceError::UnexpectedGitOutput { .. }));
    let outside = CodingWorkspace::resolve(
        "selected",
        RootProbe::Opened {
            root: "/root".to_string(),
            git: Ok(GitProbeOutput { success: false, stdout: Vec::new() }),
        },
    )
    .expect("a directory outside of Git is a workspace");
    assert!(outside.context().git_worktree().is_none());
}

#[test]
fn commands_run_only_in_the_directory_that_was_opened() {
    let workspace = CodingWorkspace::new(WorkspaceContext::new("/workspace".to_string(), None));
    let opened = FileIdentity { device: 1, inode: 2 };
    assert_eq!(
        workspace.command_working_directory(opened, opened),
        Ok("/workspace".to_string())
    );
    let replaced = FileIdentity { device: 1, inode: 3 };
    assert!(workspace.command_working_directory(opened, replaced).is_err());
}

#[test]
fn swapped_hunks_take_a_patch_back() {
    let mut never = Cancellation::never();
    let before = "one\ntwo\nthree\nfour";
    let files = parse_patch(
        "--- a/n\n+++ b/n\n@@ -1,3 +1,3 @@\n one\n-two\n+zwei\n three\n",
        &mut never,
    )
    .expect("the patch is well formed");
    let after = apply_hunks(before, &files[0].hunks, &mut never).expect("the hunk fits");
    assert_eq!(after, "one\nzwei\nthree\nfour");
    let back = Hunk {
        old_start: files[0].hunks[0].old_start,
        old_count: files[0].hunks[0].new_count,
        new_count: files[0].hunks[0].old_count,
        lines: files[0].hunks[0]
            .lines
            .iter()
            .map(|line| match line {
                PatchLine::Context(line) => PatchLine::Context(line.clone()),
                PatchLine::Remove(line) => PatchLine::Add(line.clone()),
                PatchLine::Add(line) => PatchLine::Remove(line.clone()),
            })
            .collect(),
    };
    assert_eq!(
        apply_hunks(&after, &vec![back], &mut never).expect("the swapped hunk fits"),
        before
    );
}

#[test]
fn requests_that_leave_the_workspace_name_where_they_lead() {
    let workspace = CodingWorkspace::new(WorkspaceContext::new("/workspace".to_string(), None));
    let expected = WorkspacePathError::OutsideWorkspace {
        path: "/secret".to_string(),
        root: "/workspace".to_string(),
    };
    let read = workspace
        .resolve_existing("src/../../secret", ExistingProbe::Found("secret".to_string()))
        .expect_err("the request leaves the workspace");
    let written = workspace
        .resolve_for_write(
            "src/../../secret",
            WriteProbe::Existing(ExistingProbe::Found("secret".to_string())),
        )
        .expect_err("the request leaves the workspace");
    assert_eq!(read, expected);
    assert_eq!(written, expected);
}
