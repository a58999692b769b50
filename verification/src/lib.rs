//! A verified agent kernel: command policy, patching, searching, and the run
//! state machine of a coding agent.

pub mod access_laws;
pub mod agent_run;
pub mod approval;
pub mod approval_laws;
pub mod args;
pub mod args_laws;
pub mod cancellation;
pub mod capture;
pub mod cli;
pub mod command_cleanup;
pub mod command_control;
pub mod command_error;
pub mod command_group;
pub mod command_input;
pub mod command_laws;
pub mod command_policy;
pub mod command_run;
pub mod command_seal;
pub mod command_supervisor;
pub mod command_tool;
mod command_rules;
pub mod control_laws;
pub mod conversation_laws;
pub mod error_laws;
pub mod fake_provider;
pub mod git_environment;
pub mod history_laws;
pub mod io_failure;
pub mod json_laws;
pub mod literal_pattern;
pub mod metadata_laws;
pub mod model;
pub mod outcome_laws;
pub mod output_laws;
pub mod output_size;
pub mod patch;
pub mod patch_laws;
pub mod patch_model;
pub mod patch_text_laws;
pub mod path;
pub mod path_laws;
pub mod path_text_laws;
pub mod policy_composition;
pub mod policy_laws;
pub mod policy_model;
pub mod policy_path_laws;
pub mod policy_reason_laws;
pub mod policy_word_laws;
pub mod policy_wrapper_laws;
pub mod read;
pub mod read_laws;
pub mod run;
pub mod run_control;
pub mod run_laws;
pub mod runtime;
pub mod runtime_model;
pub mod seal_laws;
pub mod search;
pub mod search_laws;
pub mod search_line;
pub mod search_model;
pub mod search_run;
pub mod search_run_laws;
pub mod search_text_laws;
pub mod shell;
pub mod shell_laws;
pub mod shell_word_laws;
pub mod state;
pub mod state_laws;
pub mod stop;
pub mod target_laws;
pub mod terminal;
pub mod terminal_laws;
pub mod text;
pub mod text_laws;
pub mod tool;
pub mod tool_laws;
pub mod tool_support;
pub mod tools;
pub mod utf8;
pub mod walk;
pub mod walk_laws;
pub mod windows_laws;
pub mod workspace;
pub mod workspace_laws;

pub use crate::agent_run::AgentRun;
pub use crate::cli::{CliError, CliExitStatus};
pub use crate::command_policy::{CommandApprovalPolicy, CommandPolicyDecision};
pub use crate::run::{
    AgentError, AgentEvent, ApprovalDecision, ApprovalRequest, RunId, RunStatus,
    TerminalRunStatus,
};
pub use crate::run_control::{AgentEventSink, RunControl};
pub use crate::runtime::{AgentRuntime, AgentRuntimeError, RunOutcome, RunRequest};
pub use crate::stop::{RunControlFlow, RunStopToken};
pub use crate::tools::{
    coding_manifest, register_builtin_coding_capability, CodingCapabilityRegistrationError,
};
pub use crate::workspace::{
    CodingWorkspace, CodingWorkspaceError, GitWorktreeContext, WorkspaceContext,
};
