//! The built-in tools: which there are, and which calls of them may be made.

use crate::command_policy::CommandPolicyDecision;
use crate::policy_model;
use crate::runtime::{CallPolicy, CallPolicyView};
use crate::text;
use crate::text::{concat2, concat3, same_text};
use crate::tool::{OutputView, ToolOutput};
use crate::tool_support;
use crate::tool_support::failure;
use vstd::prelude::*;

verus! {

/// How safe a tool is.
#[derive(Clone, Copy, Debug, PartialEq, Eq, Structural)]
pub enum ToolSafetyClass {
    AlwaysAllow,
    RequiresApproval,
    CallDependent,
}

/// A tool as its pack declares it.
#[derive(Clone, Debug, PartialEq, Eq)]
pub struct ToolManifest {
    pub name: String,
    pub safety_class: ToolSafetyClass,
}

/// The mathematical value of a [`ToolManifest`].
pub struct ToolManifestView {
    pub name: Seq<char>,
    pub safety_class: ToolSafetyClass,
}

impl View for ToolManifest {
    type V = ToolManifestView;

    open spec fn view(&self) -> ToolManifestView {
        ToolManifestView { name: self.name@, safety_class: self.safety_class }
    }
}

/// A pack of tools.
#[derive(Clone, Debug, PartialEq, Eq)]
pub struct CapabilityManifest {
    pub schema_version: u32,
    pub id: String,
    pub version: String,
    pub name: String,
    pub tools: Vec<ToolManifest>,
}

/// The values of a sequence of tools.
pub open spec fn tool_views(tools: Seq<ToolManifest>) -> Seq<ToolManifestView> {
    tools.map_values(|tool: ToolManifest| tool@)
}

/// The names of the built-in tools.
pub open spec fn builtin_tool_names() -> Seq<Seq<char>> {
    seq!["read_file"@, "search_files"@, "apply_patch"@, "run_command"@]
}

/// The built-in tools.
pub open spec fn builtin_tools() -> Seq<ToolManifestView> {
    seq![
        ToolManifestView { name: "read_file"@, safety_class: ToolSafetyClass::AlwaysAllow },
        ToolManifestView { name: "search_files"@, safety_class: ToolSafetyClass::AlwaysAllow },
        ToolManifestView { name: "apply_patch"@, safety_class: ToolSafetyClass::RequiresApproval },
        ToolManifestView { name: "run_command"@, safety_class: ToolSafetyClass::CallDependent },
    ]
}

fn declared(name: &str, safety_class: ToolSafetyClass) -> (tool: ToolManifest)
    ensures
        tool@ == (ToolManifestView { name: name@, safety_class }),
{
    ToolManifest { name: name.to_owned(), safety_class }
}

/// The pack of the built-in tools.
pub fn coding_manifest() -> (manifest: CapabilityManifest)
    ensures
        manifest.schema_version == 1,
        manifest.id@ == "coding"@,
        manifest.version@ == "0.1.0"@,
        manifest.name@ == "Coding Capability"@,
        tool_views(manifest.tools@) == builtin_tools(),
{
    let mut tools: Vec<ToolManifest> = Vec::new();
    tools.push(declared("read_file", ToolSafetyClass::AlwaysAllow));
    tools.push(declared("search_files", ToolSafetyClass::AlwaysAllow));
    tools.push(declared("apply_patch", ToolSafetyClass::RequiresApproval));
    tools.push(declared("run_command", ToolSafetyClass::CallDependent));
    assert(tool_views(tools@) =~= builtin_tools());
    CapabilityManifest {
        schema_version: 1,
        id: "coding".to_owned(),
        version: "0.1.0".to_owned(),
        name: "Coding Capability".to_owned(),
        tools,
    }
}

/// A built-in tool.
#[derive(Clone, Copy, Debug, PartialEq, Eq, Structural)]
pub enum BuiltinCodingTool {
    ReadFile,
    SearchFiles,
    ApplyPatch,
    RunCommand,
}

impl BuiltinCodingTool {
    /// The name of the tool.
    pub open spec fn tool_name(self) -> Seq<char> {
        match self {
            BuiltinCodingTool::ReadFile => "read_file"@,
            BuiltinCodingTool::SearchFiles => "search_files"@,
            BuiltinCodingTool::ApplyPatch => "apply_patch"@,
            BuiltinCodingTool::RunCommand => "run_command"@,
        }
    }

    /// The tool of that name, where there is one.
    pub fn new(name: &str) -> (tool: Option<BuiltinCodingTool>)
        ensures
            match tool {
                Some(found) => found.tool_name() == name@,
                None => !builtin_tool_names().contains(name@),
            },
    {
        let ghost names = builtin_tool_names();
        proof {
            assert(names[0] == "read_file"@);
            assert(names[1] == "search_files"@);
            assert(names[2] == "apply_patch"@);
            assert(names[3] == "run_command"@);
        }
        if same_text(name, "read_file") {
            Some(BuiltinCodingTool::ReadFile)
        } else if same_text(name, "search_files") {
            Some(BuiltinCodingTool::SearchFiles)
        } else if same_text(name, "apply_patch") {
            Some(BuiltinCodingTool::ApplyPatch)
        } else if same_text(name, "run_command") {
            Some(BuiltinCodingTool::RunCommand)
        } else {
            None
        }
    }
}

/// Why the built-in tools could not be registered.
#[derive(Clone, Debug, PartialEq, Eq)]
pub enum CodingCapabilityRegistrationError {
    /// The pack could not be read.
    Manifest { message: String },
    /// The pack declares a tool that there is not.
    UnsupportedManifestTool { name: String },
    /// A tool of that name is registered already.
    DuplicateTool { name: String },
}

/// The mathematical value of a [`CodingCapabilityRegistrationError`].
pub enum RegistrationErrorView {
    Manifest { message: Seq<char> },
    UnsupportedManifestTool { name: Seq<char> },
    DuplicateTool { name: Seq<char> },
}

impl View for CodingCapabilityRegistrationError {
    type V = RegistrationErrorView;

    open spec fn view(&self) -> RegistrationErrorView {
        match *self {
            CodingCapabilityRegistrationError::Manifest { message } => {
                RegistrationErrorView::Manifest { message: message@ }
            },
            CodingCapabilityRegistrationError::UnsupportedManifestTool { name } => {
                RegistrationErrorView::UnsupportedManifestTool { name: name@ }
            },
            CodingCapabilityRegistrationError::DuplicateTool { name } => {
                RegistrationErrorView::DuplicateTool { name: name@ }
            },
        }
    }
}

impl RegistrationErrorView {
    pub open spec fn message(self) -> Seq<char> {
        match self {
            RegistrationErrorView::Manifest { message } => {
                "coding capability manifest failed: invalid built-in capability manifest: "@
                    + message
            },
            RegistrationErrorView::UnsupportedManifestTool { name } => {
                "coding capability manifest declares unsupported tool '"@ + name + "'"@
            },
            RegistrationErrorView::DuplicateTool { name } => {
                "coding capability registration failed: tool '"@ + name
                    + "' is already registered"@
            },
        }
    }
}

impl CodingCapabilityRegistrationError {
    /// The error in words.
    pub fn message(&self) -> (message: String)
        ensures
            message@ == self@.message(),
    {
        match self {
            CodingCapabilityRegistrationError::Manifest { message } => concat2(
                "coding capability manifest failed: invalid built-in capability manifest: ",
                message.as_str(),
            ),
            CodingCapabilityRegistrationError::UnsupportedManifestTool { name } => concat3(
                "coding capability manifest declares unsupported tool '",
                name.as_str(),
                "'",
            ),
            CodingCapabilityRegistrationError::DuplicateTool { name } => concat3(
                "coding capability registration failed: tool '",
                name.as_str(),
                "' is already registered",
            ),
        }
    }

    /// Whether the error stands for one of the tool runtime.
    pub fn has_source(&self) -> (result: bool)
        ensures
            result == !(self@ is UnsupportedManifestTool),
    {
        !matches!(self, CodingCapabilityRegistrationError::UnsupportedManifestTool { .. })
    }
}

/// The names of the tools that are registered.
#[derive(Clone, Debug)]
pub struct ToolRegistry {
    names: Vec<String>,
}

impl View for ToolRegistry {
    type V = Seq<Seq<char>>;

    closed spec fn view(&self) -> Seq<Seq<char>> {
        text::texts(self.names@)
    }
}

/// The names that a pack declares.
pub open spec fn declared_names(tools: Seq<ToolManifestView>) -> Seq<Seq<char>> {
    tools.map_values(|tool: ToolManifestView| tool.name)
}

/// The first reason, from the tool `at` on, for which a pack is not registered.
pub open spec fn preflight_error(
    tools: Seq<ToolManifestView>,
    registered: Seq<Seq<char>>,
    at: int,
) -> Option<RegistrationErrorView>
    decreases tools.len() - at,
{
    if at < 0 || at >= tools.len() {
        None
    } else if !builtin_tool_names().contains(tools[at].name) {
        Some(RegistrationErrorView::UnsupportedManifestTool { name: tools[at].name })
    } else if registered.contains(tools[at].name) {
        Some(RegistrationErrorView::DuplicateTool { name: tools[at].name })
    } else {
        preflight_error(tools, registered, at + 1)
    }
}

proof fn lemma_names_are_known(tool: BuiltinCodingTool)
    ensures
        builtin_tool_names().contains(tool.tool_name()),
{
    let names = builtin_tool_names();
    assert(names[0] == "read_file"@);
    assert(names[1] == "search_files"@);
    assert(names[2] == "apply_patch"@);
    assert(names[3] == "run_command"@);
}

impl ToolRegistry {
    /// No tools.
    pub fn new() -> (registry: ToolRegistry)
        ensures
            registry@ == Seq::<Seq<char>>::empty(),
    {
        let registry = ToolRegistry { names: Vec::new() };
        assert(registry@ =~= Seq::<Seq<char>>::empty());
        registry
    }

    /// How many tools are registered.
    pub fn len(&self) -> (count: usize)
        ensures
            count == self@.len(),
    {
        self.names.len()
    }

    /// Whether a tool of that name is registered.
    pub fn is_registered(&self, name: &str) -> (result: bool)
        ensures
            result == self@.contains(name@),
    {
        let length: usize = self.names.len();
        let mut index: usize = 0;
        while index < length
            invariant
                index <= length,
                length == self.names@.len(),
                forall|at: int| 0 <= at < index ==> (#[trigger] self@[at]) != name@,
            decreases length - index,
        {
            assert(self@[index as int] == self.names@[index as int]@);
            if same_text(self.names[index].as_str(), name) {
                return true;
            }
            index = index + 1;
        }
        false
    }

    fn push(&mut self, name: &str)
        ensures
            final(self)@ == old(self)@.push(name@),
    {
        self.names.push(name.to_owned());
        assert(self@ =~= old(self)@.push(name@));
    }

    /// The first reason for which a pack is not registered.
    pub fn preflight(&self, tools: &Vec<ToolManifest>) -> (result: Result<
        (),
        CodingCapabilityRegistrationError,
    >)
        ensures
            match result {
                Ok(()) => preflight_error(tool_views(tools@), self@, 0) is None,
                Err(error) => preflight_error(tool_views(tools@), self@, 0) == Some(error@),
            },
    {
        let ghost views = tool_views(tools@);
        let length: usize = tools.len();
        let mut index: usize = 0;
        while index < length
            invariant
                index <= length,
                length == tools@.len(),
                views == tool_views(tools@),
                preflight_error(views, self@, 0) == preflight_error(views, self@, index as int),
            decreases length - index,
        {
            assert(views[index as int] == tools@[index as int]@);
            let name = tools[index].name.as_str();
            match BuiltinCodingTool::new(name) {
                Some(tool) => {
                    proof {
                        lemma_names_are_known(tool);
                    }
                },
                None => {
                    return Err(
                        CodingCapabilityRegistrationError::UnsupportedManifestTool {
                            name: name.to_owned(),
                        },
                    );
                },
            }
            if self.is_registered(name) {
                return Err(
                    CodingCapabilityRegistrationError::DuplicateTool { name: name.to_owned() },
                );
            }
            index = index + 1;
        }
        assert(views.len() == tools@.len());
        Ok(())
    }

    /// Registers a pack: all of it, or nothing.
    pub fn register_pack(&mut self, tools: &Vec<ToolManifest>) -> (result: Result<
        (),
        CodingCapabilityRegistrationError,
    >)
        ensures
            match result {
                Ok(()) => preflight_error(tool_views(tools@), old(self)@, 0) is None
                    && final(self)@ == old(self)@ + declared_names(tool_views(tools@)),
                Err(error) => preflight_error(tool_views(tools@), old(self)@, 0) == Some(error@)
                    && final(self)@ == old(self)@,
            },
    {
        if let Err(error) = self.preflight(tools) {
            return Err(error);
        }
        let ghost names = declared_names(tool_views(tools@));
        let length: usize = tools.len();
        let mut index: usize = 0;
        assert(self@ =~= old(self)@ + names.take(0));
        while index < length
            invariant
                index <= length,
                length == tools@.len(),
                names == declared_names(tool_views(tools@)),
                names.len() == tools@.len(),
                self@ == old(self)@ + names.take(index as int),
            decreases length - index,
        {
            assert(names[index as int] == tools@[index as int].name@);
            self.push(tools[index].name.as_str());
            index = index + 1;
            assert(self@ =~= old(self)@ + names.take(index as int));
        }
        assert(names.take(length as int) =~= names);
        Ok(())
    }
}

/// Registers the built-in tools: all of them, or none.
pub fn register_builtin_coding_capability(registry: &mut ToolRegistry) -> (result: Result<
    (),
    CodingCapabilityRegistrationError,
>)
    ensures
        match result {
            Ok(()) => preflight_error(builtin_tools(), old(registry)@, 0) is None
                && final(registry)@ == old(registry)@ + builtin_tool_names(),
            Err(error) => preflight_error(builtin_tools(), old(registry)@, 0) == Some(error@)
                && final(registry)@ == old(registry)@,
        },
{
    let manifest = coding_manifest();
    assert(declared_names(builtin_tools()) =~= builtin_tool_names());
    registry.register_pack(&manifest.tools)
}

/// What the tools say about a call: the first two may always be made, a patch
/// needs an approval, and a command goes by its own policy.
pub open spec fn call_policy_view(
    tool: BuiltinCodingTool,
    command: policy_model::DecisionView,
) -> CallPolicyView {
    match tool {
        BuiltinCodingTool::ReadFile => CallPolicyView::Allow,
        BuiltinCodingTool::SearchFiles => CallPolicyView::Allow,
        BuiltinCodingTool::ApplyPatch => CallPolicyView::RequiresApproval {
            reason: "apply_patch mutates workspace files"@,
        },
        BuiltinCodingTool::RunCommand => match command {
            policy_model::DecisionView::Allow => CallPolicyView::Allow,
            policy_model::DecisionView::RequiresApproval(reason) => {
                CallPolicyView::RequiresApproval { reason }
            },
            policy_model::DecisionView::Reject(reason) => CallPolicyView::Reject { reason },
        },
    }
}

/// Executable form of [`call_policy_view`]. `command` is what the policy of
/// commands decided, and counts only for a command.
pub fn call_policy(tool: BuiltinCodingTool, command: CommandPolicyDecision) -> (policy: CallPolicy)
    ensures
        policy@ == call_policy_view(tool, command@),
{
    match tool {
        BuiltinCodingTool::ReadFile => CallPolicy::Allow,
        BuiltinCodingTool::SearchFiles => CallPolicy::Allow,
        BuiltinCodingTool::ApplyPatch => CallPolicy::RequiresApproval {
            reason: "apply_patch mutates workspace files".to_owned(),
        },
        BuiltinCodingTool::RunCommand => match command {
            CommandPolicyDecision::Allow => CallPolicy::Allow,
            CommandPolicyDecision::RequiresApproval { reason } => CallPolicy::RequiresApproval {
                reason,
            },
            CommandPolicyDecision::Reject { reason } => CallPolicy::Reject { reason },
        },
    }
}

/// What a caller brings along for a call.
#[derive(Clone, Debug, PartialEq, Eq)]
pub enum ToolExecutionAuthorization {
    NotRequired,
    /// A person approved the call of that name.
    ApprovalGranted { call_id: String },
}

/// Whether a caller brings along an approval for exactly this call.
pub open spec fn is_granted(authorization: ToolExecutionAuthorization, call_id: Seq<char>) -> bool {
    match authorization {
        ToolExecutionAuthorization::NotRequired => false,
        ToolExecutionAuthorization::ApprovalGranted { call_id: granted } => granted@ == call_id,
    }
}

/// The output of a call that must not be made, where it must not.
pub open spec fn refusal(policy: CallPolicyView, granted: bool) -> Option<OutputView> {
    match policy {
        CallPolicyView::Allow => None,
        CallPolicyView::RequiresApproval { reason } => if granted {
            None
        } else {
            Some(tool_support::failure_view("approval_required"@, reason, false))
        },
        CallPolicyView::Reject { reason } => Some(
            tool_support::failure_view("tool_rejected"@, reason, false),
        ),
    }
}

/// The output of a call that must not be made, where it must not: a rejected
/// call never, and one that needs an approval only with its own.
pub fn refuse_call(
    policy: &CallPolicy,
    authorization: &ToolExecutionAuthorization,
    call_id: &str,
) -> (output: Option<ToolOutput>)
    ensures
        match output {
            Some(found) => refusal(policy@, is_granted(*authorization, call_id@)) == Some(found@),
            None => refusal(policy@, is_granted(*authorization, call_id@)) is None,
        },
{
    let granted = match authorization {
        ToolExecutionAuthorization::NotRequired => false,
        ToolExecutionAuthorization::ApprovalGranted { call_id: named } => same_text(
            named.as_str(),
            call_id,
        ),
    };
    match policy {
        CallPolicy::Allow => None,
        CallPolicy::RequiresApproval { reason } => if granted {
            None
        } else {
            Some(failure("approval_required", reason.as_str(), false))
        },
        CallPolicy::Reject { reason } => Some(failure("tool_rejected", reason.as_str(), false)),
    }
}

/// An approval opens only the call that it names, and opens no call that is
/// rejected.
pub proof fn law_approvals_open_only_their_call(
    reason: Seq<char>,
    authorization: ToolExecutionAuthorization,
    call_id: Seq<char>,
)
    ensures
        refusal(CallPolicyView::Reject { reason }, is_granted(authorization, call_id)) is Some,
        refusal(
            CallPolicyView::RequiresApproval { reason },
            is_granted(authorization, call_id),
        ) is None ==> (authorization matches ToolExecutionAuthorization::ApprovalGranted {
            call_id: granted,
        } && granted@ == call_id),
{
}

} // verus!
