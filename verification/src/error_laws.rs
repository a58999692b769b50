//! What errors say: which path or tool they are about, and what went wrong.

use crate::command_error::CommandErrorView;
use crate::fake_provider::ProviderErrorView;
use crate::io_failure::{ErrorKind, IoFailureView};
use crate::json_laws;
use crate::patch_model::PatchErrorView;
use crate::read;
use crate::state::StateErrorView;
use crate::text;
use crate::tool::OutputView;
use crate::tool_support;
use crate::tools::RegistrationErrorView;
use crate::workspace::{PathErrorView, WorkspaceErrorView};
use vstd::prelude::*;

verus! {

/// Whether a message holds a text between single quotes.
pub open spec fn quotes(message: Seq<char>, quoted: Seq<char>) -> bool {
    exists|at: int| #[trigger]
        text::stands_at(message, quoted, at) && 0 < at && at + quoted.len() < message.len()
            && message[at - 1] == '\'' && message[at + quoted.len()] == '\''
}

/// Whether a message ends with a reason, behind what was attempted.
pub open spec fn explains(message: Seq<char>, reason: Seq<char>) -> bool {
    message.len() > reason.len() + 1 && reason.is_suffix_of(message) && message[message.len()
        - reason.len() - 1] == ' '
}

proof fn lemma_quotes(front: Seq<char>, quoted: Seq<char>, tail: Seq<char>)
    requires
        front.len() > 0,
        front.last() == '\'',
        tail.len() > 0,
        tail[0] == '\'',
    ensures
        quotes(front + quoted + tail, quoted),
{
    let message = front + quoted + tail;
    let at = front.len() as int;
    assert(message.subrange(at, at + quoted.len()) =~= quoted);
    assert(text::stands_at(message, quoted, at));
    assert(message[at - 1] == front[at - 1]);
    assert(message[at + quoted.len()] == tail[0]);
}

proof fn lemma_explains(front: Seq<char>, reason: Seq<char>)
    requires
        front.len() > 1,
        front.last() == ' ',
    ensures
        explains(front + reason, reason),
{
    let message = front + reason;
    assert(message.subrange(message.len() - reason.len(), message.len() as int) =~= reason);
    assert(message[front.len() - 1] == front[front.len() - 1]);
}

/// An error about a path names it between quotes, and says where its boundary is or what
/// went wrong.
pub proof fn law_path_errors_name_their_path(error: PathErrorView)
    ensures
        match error {
            PathErrorView::OutsideWorkspace { path, root } => quotes(error.message(), path) && quotes(error.message(), root),
            PathErrorView::Access { path, source } => quotes(error.message(), path) && explains(error.message(), source.message),
        },
{
    match error {
        PathErrorView::OutsideWorkspace { path, root } => {
            reveal_strlit("path '");
            reveal_strlit("' escapes workspace boundary '");
            reveal_strlit("'");
            assert(error.message() =~= ("path '"@) + path + ("' escapes workspace boundary '"@ + root + "'"@));
            lemma_quotes("path '"@, path, "' escapes workspace boundary '"@ + root + "'"@);
            assert(error.message() =~= ("path '"@ + path + "' escapes workspace boundary '"@) + root + ("'"@));
            lemma_quotes("path '"@ + path + "' escapes workspace boundary '"@, root, "'"@);
        },
        PathErrorView::Access { path, source } => {
            reveal_strlit("failed to access '");
            reveal_strlit("': ");
            assert(error.message() =~= ("failed to access '"@) + path + ("': "@ + source.message));
            lemma_quotes("failed to access '"@, path, "': "@ + source.message);
            assert(error.message() =~= ("failed to access '"@ + path + "': "@) + source.message);
            lemma_explains("failed to access '"@ + path + "': "@, source.message);
        },
    }
}

/// An error about a workspace names its root between quotes, and says what went wrong.
pub proof fn law_workspace_errors_name_their_path(error: WorkspaceErrorView)
    ensures
        match error {
            WorkspaceErrorView::ResolveRoot { path, source } => quotes(error.message(), path) && explains(error.message(), source.message),
            WorkspaceErrorView::RootIsNotDirectory { path } => quotes(error.message(), path),
            WorkspaceErrorView::OpenRoot { path, source } => quotes(error.message(), path) && explains(error.message(), source.message),
            WorkspaceErrorView::StartGitProbe(source) => explains(error.message(), source.message),
            WorkspaceErrorView::GitOutputUtf8 { message } => explains(error.message(), message),
            WorkspaceErrorView::UnexpectedGitOutput { stdout } => explains(error.message(), text::debug_text(stdout)),
        },
{
    match error {
        WorkspaceErrorView::ResolveRoot { path, source } => {
            reveal_strlit("failed to resolve workspace '");
            reveal_strlit("': ");
            assert(error.message() =~= ("failed to resolve workspace '"@) + path + ("': "@ + source.message));
            lemma_quotes("failed to resolve workspace '"@, path, "': "@ + source.message);
            assert(error.message() =~= ("failed to resolve workspace '"@ + path + "': "@) + source.message);
            lemma_explains("failed to resolve workspace '"@ + path + "': "@, source.message);
        },
        WorkspaceErrorView::RootIsNotDirectory { path } => {
            reveal_strlit("workspace root '");
            reveal_strlit("' is not a directory");
            assert(error.message() =~= ("workspace root '"@) + path + ("' is not a directory"@));
            lemma_quotes("workspace root '"@, path, "' is not a directory"@);
        },
        WorkspaceErrorView::OpenRoot { path, source } => {
            reveal_strlit("failed to open workspace root '");
            reveal_strlit("': ");
            assert(error.message() =~= ("failed to open workspace root '"@) + path + ("': "@ + source.message));
            lemma_quotes("failed to open workspace root '"@, path, "': "@ + source.message);
            assert(error.message() =~= ("failed to open workspace root '"@ + path + "': "@) + source.message);
            lemma_explains("failed to open workspace root '"@ + path + "': "@, source.message);
        },
        WorkspaceErrorView::StartGitProbe(source) => {
            reveal_strlit("failed to start git worktree probe: ");
            assert(error.message() =~= ("failed to start git worktree probe: "@) + source.message);
            lemma_explains("failed to start git worktree probe: "@, source.message);
        },
        WorkspaceErrorView::GitOutputUtf8 { message } => {
            reveal_strlit("git worktree probe returned invalid UTF-8: ");
            assert(error.message() =~= ("git worktree probe returned invalid UTF-8: "@) + message);
            lemma_explains("git worktree probe returned invalid UTF-8: "@, message);
        },
        WorkspaceErrorView::UnexpectedGitOutput { stdout } => {
            reveal_strlit("git worktree probe returned unexpected output: ");
            assert(error.message() =~= ("git worktree probe returned unexpected output: "@) + text::debug_text(stdout));
            lemma_explains("git worktree probe returned unexpected output: "@, text::debug_text(stdout));
        },
    }
}

/// An error about the state of the program names its directory or its file between quotes,
/// and says what went wrong.
pub proof fn law_state_errors_name_their_path(error: StateErrorView)
    ensures
        match error {
            StateErrorView::CurrentDirectory(source) => explains(error.message(), source.message),
            StateErrorView::CreateEventLogDirectory { path, source } => quotes(error.message(), path) && explains(error.message(), source.message),
            StateErrorView::InvalidEventLogPath { path } => quotes(error.message(), path),
            StateErrorView::Io { path, source } => quotes(error.message(), path) && explains(error.message(), source.message),
            StateErrorView::UntrustedDirectory { path, message } => quotes(error.message(), path) && explains(error.message(), message),
            StateErrorView::CreateEventLog(source) => explains(error.message(), source.message),
            StateErrorView::InvalidStateDirectory { variable, path } => quotes(error.message(), path),
            _ => true,
        },
{
    match error {
        StateErrorView::CurrentDirectory(source) => {
            reveal_strlit("failed to resolve current directory: ");
            assert(error.message() =~= ("failed to resolve current directory: "@) + source.message);
            lemma_explains("failed to resolve current directory: "@, source.message);
        },
        StateErrorView::CreateEventLogDirectory { path, source } => {
            reveal_strlit("failed to create Event Log directory '");
            reveal_strlit("': ");
            assert(error.message() =~= ("failed to create Event Log directory '"@) + path + ("': "@ + source.message));
            lemma_quotes("failed to create Event Log directory '"@, path, "': "@ + source.message);
            assert(error.message() =~= ("failed to create Event Log directory '"@ + path + "': "@) + source.message);
            lemma_explains("failed to create Event Log directory '"@ + path + "': "@, source.message);
        },
        StateErrorView::InvalidEventLogPath { path } => {
            reveal_strlit("Event Log path '");
            reveal_strlit("' has no parent directory");
            assert(error.message() =~= ("Event Log path '"@) + path + ("' has no parent directory"@));
            lemma_quotes("Event Log path '"@, path, "' has no parent directory"@);
        },
        StateErrorView::Io { path, source } => {
            reveal_strlit("failed to prepare private state directory '");
            reveal_strlit("': ");
            assert(error.message() =~= ("failed to prepare private state directory '"@) + path + ("': "@ + source.message));
            lemma_quotes("failed to prepare private state directory '"@, path, "': "@ + source.message);
            assert(error.message() =~= ("failed to prepare private state directory '"@ + path + "': "@) + source.message);
            lemma_explains("failed to prepare private state directory '"@ + path + "': "@, source.message);
        },
        StateErrorView::UntrustedDirectory { path, message } => {
            reveal_strlit("refusing untrusted state directory '");
            reveal_strlit("': ");
            assert(error.message() =~= ("refusing untrusted state directory '"@) + path + ("': "@ + message));
            lemma_quotes("refusing untrusted state directory '"@, path, "': "@ + message);
            assert(error.message() =~= ("refusing untrusted state directory '"@ + path + "': "@) + message);
            lemma_explains("refusing untrusted state directory '"@ + path + "': "@, message);
        },
        StateErrorView::CreateEventLog(source) => {
            reveal_strlit("failed to reserve new Event Log: ");
            assert(error.message() =~= ("failed to reserve new Event Log: "@) + source.message);
            lemma_explains("failed to reserve new Event Log: "@, source.message);
        },
        StateErrorView::InvalidStateDirectory { variable, path } => {
            reveal_strlit(" must be an absolute state directory, got '");
            reveal_strlit("'");
            assert(error.message() =~= (variable + " must be an absolute state directory, got '"@) + path + ("'"@));
            lemma_quotes(variable + " must be an absolute state directory, got '"@, path, "'"@);
        },
        _ => {},
    }
}

/// An error about a pack of tools names the tool between quotes, or says what is wrong with
/// the pack.
pub proof fn law_registration_errors_name_their_tool(error: RegistrationErrorView)
    ensures
        match error {
            RegistrationErrorView::Manifest { message } => explains(error.message(), message),
            RegistrationErrorView::UnsupportedManifestTool { name } => quotes(error.message(), name),
            RegistrationErrorView::DuplicateTool { name } => quotes(error.message(), name),
        },
{
    match error {
        RegistrationErrorView::Manifest { message } => {
            reveal_strlit("coding capability manifest failed: invalid built-in capability manifest: ");
            assert(error.message() =~= ("coding capability manifest failed: invalid built-in capability manifest: "@) + message);
            lemma_explains("coding capability manifest failed: invalid built-in capability manifest: "@, message);
        },
        RegistrationErrorView::UnsupportedManifestTool { name } => {
            reveal_strlit("coding capability manifest declares unsupported tool '");
            reveal_strlit("'");
            assert(error.message() =~= ("coding capability manifest declares unsupported tool '"@) + name + ("'"@));
            lemma_quotes("coding capability manifest declares unsupported tool '"@, name, "'"@);
        },
        RegistrationErrorView::DuplicateTool { name } => {
            reveal_strlit("coding capability registration failed: tool '");
            reveal_strlit("' is already registered");
            assert(error.message() =~= ("coding capability registration failed: tool '"@) + name + ("' is already registered"@));
            lemma_quotes("coding capability registration failed: tool '"@, name, "' is already registered"@);
        },
    }
}

/// An error about a script names it between quotes, and says what went wrong.
pub proof fn law_script_errors_name_their_script(error: ProviderErrorView)
    ensures
        match error {
            ProviderErrorView::Read { path, source } => quotes(error.message(), path) && explains(error.message(), source.message),
            ProviderErrorView::Decode { path, message } => quotes(error.message(), path) && explains(error.message(), message),
            ProviderErrorView::Empty { path } => quotes(error.message(), path),
            ProviderErrorView::Limit { path, message } => quotes(error.message(), path) && explains(error.message(), message),
        },
{
    match error {
        ProviderErrorView::Read { path, source } => {
            reveal_strlit("failed to read fake-provider script '");
            reveal_strlit("': ");
            assert(error.message() =~= ("failed to read fake-provider script '"@) + path + ("': "@ + source.message));
            lemma_quotes("failed to read fake-provider script '"@, path, "': "@ + source.message);
            assert(error.message() =~= ("failed to read fake-provider script '"@ + path + "': "@) + source.message);
            lemma_explains("failed to read fake-provider script '"@ + path + "': "@, source.message);
        },
        ProviderErrorView::Decode { path, message } => {
            reveal_strlit("failed to decode fake-provider script '");
            reveal_strlit("': ");
            assert(error.message() =~= ("failed to decode fake-provider script '"@) + path + ("': "@ + message));
            lemma_quotes("failed to decode fake-provider script '"@, path, "': "@ + message);
            assert(error.message() =~= ("failed to decode fake-provider script '"@ + path + "': "@) + message);
            lemma_explains("failed to decode fake-provider script '"@ + path + "': "@, message);
        },
        ProviderErrorView::Empty { path } => {
            reveal_strlit("fake-provider script '");
            reveal_strlit("' must contain at least one turn");
            assert(error.message() =~= ("fake-provider script '"@) + path + ("' must contain at least one turn"@));
            lemma_quotes("fake-provider script '"@, path, "' must contain at least one turn"@);
        },
        ProviderErrorView::Limit { path, message } => {
            reveal_strlit("fake-provider script '");
            reveal_strlit("' is too large: ");
            assert(error.message() =~= ("fake-provider script '"@) + path + ("' is too large: "@ + message));
            lemma_quotes("fake-provider script '"@, path, "' is too large: "@ + message);
            assert(error.message() =~= ("fake-provider script '"@ + path + "' is too large: "@) + message);
            lemma_explains("fake-provider script '"@ + path + "' is too large: "@, message);
        },
    }
}

/// An error about a patch names its target between quotes where it has one, and says what
/// went wrong.
pub proof fn law_patch_errors_name_their_target(error: PatchErrorView)
    ensures
        match error {
            PatchErrorView::InvalidPatch(message) => explains(error.message(), message),
            PatchErrorView::Limit(message) => explains(error.message(), message),
            PatchErrorView::Conflict(message) => explains(error.message(), message),
            PatchErrorView::Io { path, source } => quotes(error.message(), path) && explains(error.message(), source.message),
            PatchErrorView::Preserved { target, source, .. } => quotes(error.message(), target) && explains(error.message(), source.message),
            PatchErrorView::Published { target, source, .. } => quotes(error.message(), target) && explains(error.message(), source.message),
            _ => true,
        },
{
    match error {
        PatchErrorView::InvalidPatch(message) => {
            reveal_strlit("invalid patch: ");
            assert(error.message() =~= ("invalid patch: "@) + message);
            lemma_explains("invalid patch: "@, message);
        },
        PatchErrorView::Limit(message) => {
            reveal_strlit("patch limit exceeded: ");
            assert(error.message() =~= ("patch limit exceeded: "@) + message);
            lemma_explains("patch limit exceeded: "@, message);
        },
        PatchErrorView::Conflict(message) => {
            reveal_strlit("patch conflict: ");
            assert(error.message() =~= ("patch conflict: "@) + message);
            lemma_explains("patch conflict: "@, message);
        },
        PatchErrorView::Io { path, source } => {
            reveal_strlit("failed to update '");
            reveal_strlit("': ");
            assert(error.message() =~= ("failed to update '"@) + path + ("': "@ + source.message));
            lemma_quotes("failed to update '"@, path, "': "@ + source.message);
            assert(error.message() =~= ("failed to update '"@ + path + "': "@) + source.message);
            lemma_explains("failed to update '"@ + path + "': "@, source.message);
        },
        PatchErrorView::Preserved { target, source, .. } => {
            reveal_strlit("patch was not published at '");
            reveal_strlit("', and staged data was preserved: ");
            assert(error.message() =~= ("patch was not published at '"@) + target + ("', and staged data was preserved: "@ + source.message));
            lemma_quotes("patch was not published at '"@, target, "', and staged data was preserved: "@ + source.message);
            assert(error.message() =~= ("patch was not published at '"@ + target + "', and staged data was preserved: "@) + source.message);
            lemma_explains("patch was not published at '"@ + target + "', and staged data was preserved: "@, source.message);
        },
        PatchErrorView::Published { target, source, .. } => {
            reveal_strlit("patch was published at '");
            reveal_strlit("', but commit validation failed: ");
            assert(error.message() =~= ("patch was published at '"@) + target + ("', but commit validation failed: "@ + source.message));
            lemma_quotes("patch was published at '"@, target, "', but commit validation failed: "@ + source.message);
            assert(error.message() =~= ("patch was published at '"@ + target + "', but commit validation failed: "@) + source.message);
            lemma_explains("patch was published at '"@ + target + "', but commit validation failed: "@, source.message);
        },
        _ => {},
    }
}

/// An error about a command that comes from a failure says what went wrong.
pub proof fn law_command_errors_say_what_went_wrong(error: CommandErrorView)
    ensures
        match error {
            CommandErrorView::Spawn(source) => explains(error.message(), source.message),
            CommandErrorView::SupervisorUnavailable(source) => explains(error.message(), source.message),
            CommandErrorView::WorkspaceChanged(source) => explains(error.message(), source.message),
            CommandErrorView::ConfigureOutput(source) => explains(error.message(), source.message),
            CommandErrorView::Kill(source) => explains(error.message(), source.message),
            CommandErrorView::Wait(source) => explains(error.message(), source.message),
            CommandErrorView::ReadOutput(source) => explains(error.message(), source.message),
            _ => true,
        },
{
    match error {
        CommandErrorView::Spawn(source) => {
            reveal_strlit("failed to start command: ");
            assert(error.message() =~= ("failed to start command: "@) + source.message);
            lemma_explains("failed to start command: "@, source.message);
        },
        CommandErrorView::SupervisorUnavailable(source) => {
            reveal_strlit("command supervisor is unavailable; no command was started: ");
            assert(error.message() =~= ("command supervisor is unavailable; no command was started: "@) + source.message);
            lemma_explains("command supervisor is unavailable; no command was started: "@, source.message);
        },
        CommandErrorView::WorkspaceChanged(source) => {
            reveal_strlit("selected workspace is no longer available: ");
            assert(error.message() =~= ("selected workspace is no longer available: "@) + source.message);
            lemma_explains("selected workspace is no longer available: "@, source.message);
        },
        CommandErrorView::ConfigureOutput(source) => {
            reveal_strlit("failed to configure command output capture: ");
            assert(error.message() =~= ("failed to configure command output capture: "@) + source.message);
            lemma_explains("failed to configure command output capture: "@, source.message);
        },
        CommandErrorView::Kill(source) => {
            reveal_strlit("failed to terminate command group: ");
            assert(error.message() =~= ("failed to terminate command group: "@) + source.message);
            lemma_explains("failed to terminate command group: "@, source.message);
        },
        CommandErrorView::Wait(source) => {
            reveal_strlit("failed to wait for command: ");
            assert(error.message() =~= ("failed to wait for command: "@) + source.message);
            lemma_explains("failed to wait for command: "@, source.message);
        },
        CommandErrorView::ReadOutput(source) => {
            reveal_strlit("failed to capture command output: ");
            assert(error.message() =~= ("failed to capture command output: "@) + source.message);
            lemma_explains("failed to capture command output: "@, source.message);
        },
        _ => {},
    }
}

/// What an error about a command is an error of: errors with different subjects have
/// different codes.
pub open spec fn subject(error: CommandErrorView) -> nat {
    match error {
        CommandErrorView::Spawn(_) => 0,
        CommandErrorView::SupervisorUnavailable(_) => 1,
        CommandErrorView::SupervisorDegraded => 2,
        CommandErrorView::SupervisorAtCapacity => 3,
        CommandErrorView::WorkspaceChanged(_) => 4,
        CommandErrorView::ConfigureOutput(_) => 5,
        CommandErrorView::Kill(_) => 5,
        CommandErrorView::Wait(_) => 5,
        CommandErrorView::ReadOutput(_) => 5,
        CommandErrorView::Cancelled => 6,
        CommandErrorView::OutputIncomplete => 7,
        CommandErrorView::TerminationUnverified => 8,
        CommandErrorView::TerminationSupervised(_) => 8,
        CommandErrorView::UnsupportedProcessTracking => 9,
    }
}

/// Errors about commands are told apart by their codes: that a command was not started,
/// that reading or waiting failed, that it was cancelled, that its output is not
/// complete, and that it may still run each have their own.
pub proof fn law_command_errors_are_told_apart(first: CommandErrorView, second: CommandErrorView)
    ensures
        first.code() == second.code() <==> subject(first) == subject(second),
{
    reveal_strlit("command_spawn_failed");
    reveal_strlit("command_supervisor_unavailable");
    reveal_strlit("command_supervisor_degraded");
    reveal_strlit("command_supervisor_pressure");
    reveal_strlit("workspace_changed");
    reveal_strlit("command_io_error");
    reveal_strlit("tool_cancelled");
    reveal_strlit("command_output_incomplete");
    reveal_strlit("command_termination_unverified");
    reveal_strlit("command_process_tracking_unsupported");
    assert("command_spawn_failed"@.len() == 20);
    assert("command_supervisor_unavailable"@.len() == 30);
    assert("command_supervisor_degraded"@.len() == 27);
    assert("command_supervisor_pressure"@.len() == 27);
    assert("workspace_changed"@.len() == 17);
    assert("command_io_error"@.len() == 16);
    assert("tool_cancelled"@.len() == 14);
    assert("command_output_incomplete"@.len() == 25);
    assert("command_termination_unverified"@.len() == 30);
    assert("command_process_tracking_unsupported"@.len() == 36);
    assert("command_supervisor_unavailable"@[8] != "command_termination_unverified"@[8]);
    assert("command_supervisor_degraded"@[19] != "command_supervisor_pressure"@[19]);
}

/// Whether an error about a command comes from a failure that passes, or was reported
/// before any command was started and for want of room.
pub open spec fn passes(error: CommandErrorView) -> bool {
    match error {
        CommandErrorView::ConfigureOutput(source) => source.kind == ErrorKind::Interrupted,
        CommandErrorView::Kill(source) => source.kind == ErrorKind::Interrupted,
        CommandErrorView::Wait(source) => source.kind == ErrorKind::Interrupted,
        CommandErrorView::ReadOutput(source) => source.kind == ErrorKind::Interrupted,
        CommandErrorView::SupervisorUnavailable(_) => true,
        CommandErrorView::SupervisorAtCapacity => true,
        _ => false,
    }
}

/// A call is worth making again exactly where its error passes: where an operation was
/// interrupted, or where no command was started for want of room. One that was
/// cancelled, or may still run, is not.
pub proof fn law_errors_that_pass_are_retryable(
    command: CommandErrorView,
    path: PathErrorView,
    change: PatchErrorView,
)
    ensures
        command.retryable() <==> passes(command),
        command is Cancelled || command is TerminationUnverified || command is OutputIncomplete
            ==> !command.retryable(),
        path.retryable() <==> (path matches PathErrorView::Access { source, .. } && source.kind
            == ErrorKind::Interrupted),
        change.retryable() ==> change is Io || change is Workspace,
        change matches PatchErrorView::Io { source, .. } ==> (change.retryable() <==> source.kind
            == ErrorKind::Interrupted),
        change matches PatchErrorView::Workspace(error) ==> {
            &&& change.retryable() == error.retryable()
            &&& change.code() == error.code()
            &&& change.message() == error.message()
        },
{
}

/// A path that leads out of the workspace, one that is not there and one that cannot be
/// reached are told apart by their codes.
pub proof fn law_path_errors_are_told_apart(error: PathErrorView)
    ensures
        error.code() == "outside_workspace"@ <==> error is OutsideWorkspace,
        error.code() == "path_not_found"@ <==> (error matches PathErrorView::Access { source, .. }
            && source.kind == ErrorKind::NotFound),
        error.code() == "workspace_io_error"@ <==> (error matches PathErrorView::Access {
            source,
            ..
        } && source.kind != ErrorKind::NotFound),
{
    reveal_strlit("outside_workspace");
    reveal_strlit("path_not_found");
    reveal_strlit("workspace_io_error");
    assert("outside_workspace"@.len() == 17 && "path_not_found"@.len() == 14
        && "workspace_io_error"@.len() == 18);
}

/// What is reported as a failure is the beginning of its message: all of it where it
/// takes no more than 8192 bytes as JSON.
pub proof fn law_failures_are_reported(code: Seq<char>, message: Seq<char>, retryable: bool)
    ensures
        tool_support::failure_view(code, message, retryable) matches OutputView::Failure {
            error,
            extensions,
        } && {
            &&& error.code == code
            &&& error.retryable == retryable
            &&& error.message.is_prefix_of(message)
            &&& json_laws::bytes(json_laws::string_text(message)) <= 8192 ==> error.message == message
            &&& json_laws::bytes(json_laws::string_text(error.message)) <= 8192
            &&& extensions.len() == 0
        },
{
    tool_support::law_cut_texts_fit_their_limit(message, 8192);
    json_laws::law_json_strings_are_measured(message);
    json_laws::law_json_strings_are_measured(tool_support::json_prefix(message, 8192));
}

/// A read of what is no file is told apart from one whose file cannot be opened. Both,
/// and a read that broke off, are worth making again only where they were interrupted.
pub proof fn law_failed_reads_are_told_apart(path: Seq<char>, source: IoFailureView)
    ensures
        read::open_failure(path, source) matches OutputView::Failure { error, .. } && {
            &&& error.code == "path_is_not_file"@ <==> source.kind == ErrorKind::InvalidInput
            &&& error.code == "workspace_io_error"@ <==> source.kind != ErrorKind::InvalidInput
            &&& error.retryable <==> source.kind == ErrorKind::Interrupted
        },
        read::broken_off(path, source) matches OutputView::Failure { error, .. } && {
            &&& error.code == "workspace_io_error"@
            &&& error.retryable <==> source.kind == ErrorKind::Interrupted
        },
        json_laws::bytes(
            json_laws::string_text("failed to read '"@ + path + "': "@ + source.message),
        ) <= 8192 ==> (read::broken_off(path, source) matches OutputView::Failure { error, .. }
            && quotes(error.message, path) && explains(error.message, source.message)),
{
    reveal_strlit("path_is_not_file");
    reveal_strlit("workspace_io_error");
    assert("path_is_not_file"@.len() == 16 && "workspace_io_error"@.len() == 18);
    reveal_strlit("failed to read '");
    reveal_strlit("': ");
    let message = "failed to read '"@ + path + "': "@ + source.message;
    law_failures_are_reported(
        "workspace_io_error"@,
        message,
        source.kind == ErrorKind::Interrupted,
    );
    lemma_quotes("failed to read '"@, path, "': "@ + source.message);
    assert(message =~= "failed to read '"@ + path + ("': "@ + source.message));
    lemma_explains("failed to read '"@ + path + "': "@, source.message);
}

} // verus!
