//! The approval policy for local commands. It never touches the file system
//! itself: where a decision hangs on what stands at a path, it names the lookup
//! that it needs, and is asked again with the answer.

use crate::command_input::{
    command_from_members, parse_run_command_arguments, validate_run_command_text,
};
use crate::command_rules::{
    hard_rule, named_paths, reason_after_paths, reason_before_paths, HardRule,
};
use crate::io_failure::ErrorKind;
use crate::path;
use crate::path::{
    join_path, path_components_below, path_has_parent_step, path_is_absolute, path_is_within,
    PathComponent,
};
use crate::policy_model;
use crate::policy_model::{
    AnswerView, DecisionView, InspectionView, Probe, ProbeState, RequestView, Verdict,
    MAX_PATH_PROBE_CANDIDATES, MAX_WORKSPACE_PATH_INSPECTIONS,
};
use crate::shell;
use crate::shell::{ParsedShellCommand, ShellParseError};
use crate::text;
use crate::text::begins_with_char;
use crate::tool_support;
use crate::tool_support::Members;
use crate::workspace::CodingWorkspace;
use vstd::hash_map::StringHashMap;
use vstd::prelude::*;
use vstd::slice::slice_subrange;

verus! {

/// Result of classifying one concrete command.
#[derive(Clone, Debug, PartialEq, Eq)]
pub enum CommandPolicyDecision {
    Allow,
    RequiresApproval { reason: String },
    Reject { reason: String },
}

impl View for CommandPolicyDecision {
    type V = DecisionView;

    open spec fn view(&self) -> DecisionView {
        match self {
            CommandPolicyDecision::Allow => DecisionView::Allow,
            CommandPolicyDecision::RequiresApproval { reason } => {
                DecisionView::RequiresApproval(reason@)
            },
            CommandPolicyDecision::Reject { reason } => DecisionView::Reject(reason@),
        }
    }
}

/// A lookup that the policy asks for.
#[derive(Clone, Debug, PartialEq, Eq)]
pub enum PathRequest {
    /// What stands at the path, links not followed.
    Inspect(String),
    /// Where the link at the path leads.
    Follow(String),
}

impl View for PathRequest {
    type V = RequestView;

    open spec fn view(&self) -> RequestView {
        match self {
            PathRequest::Inspect(path) => RequestView::Inspect(path@),
            PathRequest::Follow(path) => RequestView::Follow(path@),
        }
    }
}

/// What a lookup came to.
#[derive(Clone, Debug, PartialEq, Eq)]
pub enum PathAnswer {
    /// A link stands there.
    Symlink,
    /// Something else stands there.
    Present,
    /// It could not be inspected.
    Failed(ErrorKind),
    /// The link leads to this canonical path.
    Resolved(String),
    /// The link could not be followed.
    Unresolved,
}

impl View for PathAnswer {
    type V = AnswerView;

    open spec fn view(&self) -> AnswerView {
        match self {
            PathAnswer::Symlink => AnswerView::Symlink,
            PathAnswer::Present => AnswerView::Present,
            PathAnswer::Failed(kind) => AnswerView::Failed(*kind),
            PathAnswer::Resolved(path) => AnswerView::Resolved(path@),
            PathAnswer::Unresolved => AnswerView::Unresolved,
        }
    }
}

/// The values of a sequence of answers.
pub open spec fn answer_views(answers: Seq<PathAnswer>) -> Seq<AnswerView> {
    answers.map_values(|answer: PathAnswer| answer@)
}

/// What is known of a path.
#[derive(Clone, Debug, PartialEq, Eq)]
pub enum PathInspection {
    Missing,
    Existing,
    Symlink(String),
    Inaccessible,
}

impl View for PathInspection {
    type V = InspectionView;

    open spec fn view(&self) -> InspectionView {
        match self {
            PathInspection::Missing => InspectionView::Missing,
            PathInspection::Existing => InspectionView::Existing,
            PathInspection::Symlink(target) => InspectionView::Symlink(target@),
            PathInspection::Inaccessible => InspectionView::Inaccessible,
        }
    }
}

/// Where a classification stands after the answers so far.
#[derive(Clone, Debug, PartialEq, Eq)]
pub enum PolicyStep {
    /// It is decided.
    Decided(CommandPolicyDecision),
    /// It needs one more lookup.
    Lookup(PathRequest),
}

impl View for PolicyStep {
    type V = Verdict;

    open spec fn view(&self) -> Verdict {
        match self {
            PolicyStep::Decided(decision) => Verdict::Decided(decision@),
            PolicyStep::Lookup(request) => Verdict::Pending(request@),
        }
    }
}

/// The outcome of a part of the policy that may need a lookup.
pub enum Outcome<T> {
    Known(T),
    Exhausted,
    Pending(PathRequest),
}

/// Whether an outcome that carries a plain value is the one of the model.
pub open spec fn is_outcome(outcome: Outcome<bool>, probe: Probe<bool>) -> bool {
    match outcome {
        Outcome::Known(value) => probe == Probe::Known(value),
        Outcome::Exhausted => probe == Probe::<bool>::Exhausted,
        Outcome::Pending(request) => probe == Probe::<bool>::Pending(request@),
    }
}

fn requires_approval(reason: &str) -> (decision: CommandPolicyDecision)
    ensures
        decision@ == DecisionView::RequiresApproval(reason@),
{
    CommandPolicyDecision::RequiresApproval { reason: reason.to_owned() }
}

fn reject(reason: &str) -> (decision: CommandPolicyDecision)
    ensures
        decision@ == DecisionView::Reject(reason@),
{
    CommandPolicyDecision::Reject { reason: reason.to_owned() }
}

/// What one command line may still look at, and what it has learned.
pub struct PathProbeBudget {
    remaining_candidates: usize,
    remaining_inspections: usize,
    cached: StringHashMap<bool>,
    used_answers: usize,
}

impl View for PathProbeBudget {
    type V = ProbeState;

    closed spec fn view(&self) -> ProbeState {
        ProbeState {
            candidates: self.remaining_candidates as nat,
            inspections: self.remaining_inspections as nat,
            cached: self.cached@,
            used: self.used_answers as nat,
        }
    }
}

impl PathProbeBudget {
    /// The budget of a line before its first lookup.
    pub fn new() -> (budget: PathProbeBudget)
        ensures
            budget@ == ProbeState::initial(),
    {
        PathProbeBudget {
            remaining_candidates: MAX_PATH_PROBE_CANDIDATES,
            remaining_inspections: MAX_WORKSPACE_PATH_INSPECTIONS,
            cached: StringHashMap::new(),
            used_answers: 0,
        }
    }

    /// What stands at `path`.
    pub fn inspect_workspace_path(&mut self, path: &str, answers: &[PathAnswer]) -> (outcome:
        Outcome<PathInspection>)
        ensures
            policy_model::inspect(old(self)@, path@, answer_views(answers@)) == (
                final(self)@,
                match outcome {
                    Outcome::Known(found) => Probe::Known(found@),
                    Outcome::Exhausted => Probe::Exhausted,
                    Outcome::Pending(request) => Probe::Pending(request@),
                },
            ),
    {
        let ghost views = answer_views(answers@);
        assert(views.len() == answers@.len());
        if self.remaining_inspections == 0 {
            return Outcome::Exhausted;
        }
        if self.used_answers >= answers.len() {
            return Outcome::Pending(PathRequest::Inspect(path.to_owned()));
        }
        assert(views[self.used_answers as int] == answers@[self.used_answers as int]@);
        let inspected = &answers[self.used_answers];
        self.remaining_inspections -= 1;
        self.used_answers += 1;
        match inspected {
            PathAnswer::Symlink => {
                if self.remaining_inspections == 0 {
                    return Outcome::Exhausted;
                }
                if self.used_answers >= answers.len() {
                    return Outcome::Pending(PathRequest::Follow(path.to_owned()));
                }
                assert(views[self.used_answers as int] == answers@[self.used_answers as int]@);
                let followed = &answers[self.used_answers];
                self.remaining_inspections -= 1;
                self.used_answers += 1;
                match followed {
                    PathAnswer::Resolved(target) => Outcome::Known(
                        PathInspection::Symlink(target.as_str().to_owned()),
                    ),
                    _ => Outcome::Known(PathInspection::Inaccessible),
                }
            },
            PathAnswer::Present => Outcome::Known(PathInspection::Existing),
            PathAnswer::Failed(kind) => if *kind == ErrorKind::NotFound || *kind
                == ErrorKind::NotADirectory {
                Outcome::Known(PathInspection::Missing)
            } else {
                Outcome::Known(PathInspection::Inaccessible)
            },
            _ => Outcome::Known(PathInspection::Inaccessible),
        }
    }

    /// Whether the path `resolved` leads out of `root`.
    pub fn path_escapes_workspace(
        &mut self,
        root: &str,
        resolved: &str,
        answers: &[PathAnswer],
    ) -> (outcome: Outcome<bool>)
        ensures
            ({
                let (state, probe) = policy_model::path_escapes(
                    root@,
                    resolved@,
                    old(self)@,
                    answer_views(answers@),
                );
                final(self)@ == state && is_outcome(outcome, probe)
            }),
    {
        let parts = match path_components_below(resolved, root) {
            Some(parts) => parts,
            None => {
                return Outcome::Known(true);
            },
        };
        let ghost views = path::component_views(parts@);
        let ghost known = answer_views(answers@);
        let ghost expected = policy_model::walk_escapes(root@, views, 0, root@, self@, known);
        let mut current = root.to_owned();
        let mut index: usize = 0;
        while index < parts.len()
            invariant
                index <= parts@.len(),
                views == path::component_views(parts@),
                known == answer_views(answers@),
                expected == policy_model::walk_escapes(
                    root@,
                    views,
                    index as int,
                    current@,
                    self@,
                    known,
                ),
                expected == policy_model::path_escapes(root@, resolved@, old(self)@, known),
            decreases parts@.len() - index,
        {
            assert(views[index as int] == parts@[index as int]@);
            match &parts[index] {
                PathComponent::CurDir => {},
                PathComponent::Normal(name) => {
                    let entered = join_path(current.as_str(), name.as_str());
                    match self.inspect_workspace_path(entered.as_str(), answers) {
                        Outcome::Exhausted => {
                            return Outcome::Exhausted;
                        },
                        Outcome::Pending(request) => {
                            return Outcome::Pending(request);
                        },
                        Outcome::Known(PathInspection::Missing) => {
                            return Outcome::Known(false);
                        },
                        Outcome::Known(PathInspection::Existing) => {
                            current = entered;
                        },
                        Outcome::Known(PathInspection::Symlink(target)) => {
                            if !path_is_within(target.as_str(), root) {
                                return Outcome::Known(true);
                            }
                            current = target;
                        },
                        Outcome::Known(PathInspection::Inaccessible) => {
                            return Outcome::Known(true);
                        },
                    }
                },
                _ => {
                    return Outcome::Known(true);
                },
            }
            index += 1;
        }
        assert(views.len() == parts@.len());
        Outcome::Known(false)
    }

    /// Whether `candidate` leads out of the workspace.
    fn escapes_workspace(&mut self, root: &str, candidate: &str, answers: &[PathAnswer]) -> (outcome:
        Outcome<bool>)
        ensures
            ({
                let (state, probe) = policy_model::escapes_workspace(
                    root@,
                    candidate@,
                    old(self)@,
                    answer_views(answers@),
                );
                final(self)@ == state && is_outcome(outcome, probe)
            }),
    {
        if begins_with_char(candidate, '~') || path_has_parent_step(candidate) || path_is_absolute(
            candidate,
        ) && !path_is_within(candidate, root) {
            return Outcome::Known(true);
        }
        let resolved = join_path(root, candidate);
        self.path_escapes_workspace(root, resolved.as_str(), answers)
    }

    /// Whether `candidate` leads out of the workspace, each path being looked
    /// at once.
    pub fn classify(&mut self, root: &str, candidate: &str, answers: &[PathAnswer]) -> (outcome:
        Outcome<bool>)
        ensures
            ({
                let (state, probe) = policy_model::classify_candidate(
                    root@,
                    candidate@,
                    old(self)@,
                    answer_views(answers@),
                );
                final(self)@ == state && is_outcome(outcome, probe)
            }),
    {
        if let Some(escapes) = self.cached.get(candidate) {
            return Outcome::Known(*escapes);
        }
        if self.remaining_candidates == 0 {
            return Outcome::Exhausted;
        }
        self.remaining_candidates -= 1;
        let outcome = self.escapes_workspace(root, candidate, answers);
        if let Outcome::Known(escapes) = &outcome {
            self.cached.insert(candidate.to_owned(), *escapes);
        }
        outcome
    }

    fn classify_all(&mut self, root: &str, candidates: &Vec<String>, answers: &[PathAnswer]) -> (
    outcome: Outcome<bool>)
        ensures
            ({
                let (state, probe) = policy_model::classify_candidates(
                    root@,
                    text::texts(candidates@),
                    0,
                    old(self)@,
                    answer_views(answers@),
                );
                final(self)@ == state && is_outcome(outcome, probe)
            }),
    {
        let ghost views = text::texts(candidates@);
        let ghost known = answer_views(answers@);
        let ghost expected = policy_model::classify_candidates(root@, views, 0, self@, known);
        let mut index: usize = 0;
        while index < candidates.len()
            invariant
                index <= candidates@.len(),
                views == text::texts(candidates@),
                known == answer_views(answers@),
                expected == policy_model::classify_candidates(
                    root@,
                    views,
                    index as int,
                    self@,
                    known,
                ),
                expected == policy_model::classify_candidates(root@, views, 0, old(self)@, known),
            decreases candidates@.len() - index,
        {
            assert(views[index as int] == candidates@[index as int]@);
            match self.classify(root, candidates[index].as_str(), answers) {
                Outcome::Known(false) => {},
                outcome => {
                    return outcome;
                },
            }
            index += 1;
        }
        assert(views.len() == candidates@.len());
        Outcome::Known(false)
    }
}

/// What a part of the policy came to: nothing that stands in the way, or a step.
enum PartStep {
    Pass,
    Step(PolicyStep),
}

impl View for PartStep {
    type V = Verdict;

    closed spec fn view(&self) -> Verdict {
        match self {
            PartStep::Pass => Verdict::Pass,
            PartStep::Step(step) => step@,
        }
    }
}

fn decided(decision: CommandPolicyDecision) -> (step: PartStep)
    ensures
        step@ == Verdict::Decided(decision@),
{
    PartStep::Step(PolicyStep::Decided(decision))
}

fn pending(request: PathRequest) -> (step: PartStep)
    ensures
        step@ == Verdict::Pending(request@),
{
    PartStep::Step(PolicyStep::Lookup(request))
}

fn budget_decision() -> (step: PartStep)
    ensures
        step@ == Verdict::Decided(policy_model::budget_decision()),
{
    decided(requires_approval("command exceeds the workspace path inspection budget"))
}

/// What the hard rules decide on a simple command.
fn classify_hard_rejection(
    root: &str,
    words: &[String],
    budget: &mut PathProbeBudget,
    answers: &[PathAnswer],
) -> (step: PartStep)
    ensures
        policy_model::hard_verdict(
            root@,
            text::texts(words@),
            old(budget)@,
            answer_views(answers@),
        ) == (final(budget)@, step@),
{
    match hard_rule(words) {
        HardRule::Reject(reason) => decided(reject(reason)),
        HardRule::Pass => PartStep::Pass,
        HardRule::ChangeDirectory(directory) => match budget.classify(
            root,
            directory.as_str(),
            answers,
        ) {
            Outcome::Known(false) => PartStep::Pass,
            Outcome::Known(true) => decided(
                reject("command changes its working directory outside the workspace"),
            ),
            Outcome::Exhausted => budget_decision(),
            Outcome::Pending(request) => pending(request),
        },
    }
}

/// What the rules decide on a simple command.
fn classify_simple_command(
    root: &str,
    words: &[String],
    budget: &mut PathProbeBudget,
    answers: &[PathAnswer],
) -> (step: PartStep)
    ensures
        policy_model::simple_verdict(
            root@,
            text::texts(words@),
            old(budget)@,
            answer_views(answers@),
        ) == (final(budget)@, step@),
{
    assert(text::texts(words@).len() == words@.len());
    if words.len() == 0 {
        return decided(reject("command contains malformed shell syntax"));
    }
    let program = words[0].as_str();
    let arguments = slice_subrange(words, 1, words.len());
    assert(text::texts(words@)[0] == program@);
    assert(text::texts(arguments@) == text::texts(words@).skip(1));
    if let Some(reason) = reason_before_paths(program, arguments) {
        return decided(requires_approval(reason));
    }
    let candidates = named_paths(program, arguments);
    match budget.classify_all(root, &candidates, answers) {
        Outcome::Pending(request) => pending(request),
        Outcome::Exhausted => budget_decision(),
        Outcome::Known(true) => decided(
            requires_approval("command may access a path outside the workspace"),
        ),
        Outcome::Known(false) => match reason_after_paths(program, arguments) {
            Some(reason) => decided(requires_approval(reason)),
            None => PartStep::Pass,
        },
    }
}

fn classify_hard_rejections(
    root: &str,
    commands: &Vec<Vec<String>>,
    budget: &mut PathProbeBudget,
    answers: &[PathAnswer],
) -> (step: PartStep)
    ensures
        policy_model::hard_verdicts(
            root@,
            shell::command_texts(commands@),
            0,
            old(budget)@,
            answer_views(answers@),
        ) == (final(budget)@, step@),
{
    let ghost views = shell::command_texts(commands@);
    let ghost known = answer_views(answers@);
    let ghost expected = policy_model::hard_verdicts(root@, views, 0, budget@, known);
    let mut index: usize = 0;
    while index < commands.len()
        invariant
            index <= commands@.len(),
            views == shell::command_texts(commands@),
            known == answer_views(answers@),
            expected == policy_model::hard_verdicts(root@, views, index as int, budget@, known),
            expected == policy_model::hard_verdicts(root@, views, 0, old(budget)@, known),
        decreases commands@.len() - index,
    {
        assert(views[index as int] == text::texts(commands@[index as int]@));
        match classify_hard_rejection(root, commands[index].as_slice(), budget, answers) {
            PartStep::Pass => {},
            step => {
                return step;
            },
        }
        index += 1;
    }
    assert(views.len() == commands@.len());
    PartStep::Pass
}

fn classify_simple_commands(
    root: &str,
    commands: &Vec<Vec<String>>,
    budget: &mut PathProbeBudget,
    answers: &[PathAnswer],
) -> (step: PartStep)
    ensures
        policy_model::simple_verdicts(
            root@,
            shell::command_texts(commands@),
            0,
            old(budget)@,
            answer_views(answers@),
        ) == (final(budget)@, step@),
{
    let ghost views = shell::command_texts(commands@);
    let ghost known = answer_views(answers@);
    let ghost expected = policy_model::simple_verdicts(root@, views, 0, budget@, known);
    let mut index: usize = 0;
    while index < commands.len()
        invariant
            index <= commands@.len(),
            views == shell::command_texts(commands@),
            known == answer_views(answers@),
            expected == policy_model::simple_verdicts(root@, views, index as int, budget@, known),
            expected == policy_model::simple_verdicts(root@, views, 0, old(budget)@, known),
        decreases commands@.len() - index,
    {
        assert(views[index as int] == text::texts(commands@[index as int]@));
        match classify_simple_command(root, commands[index].as_slice(), budget, answers) {
            PartStep::Pass => {},
            step => {
                return step;
            },
        }
        index += 1;
    }
    assert(views.len() == commands@.len());
    PartStep::Pass
}

fn syntax_reason(parsed: &ParsedShellCommand) -> (reason: Option<&'static str>)
    ensures
        match reason {
            Some(found) => policy_model::syntax_reason(parsed@) == Some(found@),
            None => policy_model::syntax_reason(parsed@) is None,
        },
{
    if parsed.has_background {
        Some("command starts or manages a background process")
    } else if parsed.has_redirection {
        Some("command redirects input or output")
    } else if parsed.has_dynamic_expansion || parsed.has_pathname_expansion {
        Some("command uses dynamic shell expansion")
    } else if parsed.has_comment || parsed.has_unclassified_syntax {
        Some("command contains shell syntax that is not classified as low-risk")
    } else {
        None
    }
}

/// Conservative policy for local command execution.
#[derive(Clone, Copy, Debug)]
pub struct CommandApprovalPolicy;

impl CommandApprovalPolicy {
    /// Classifies the command of a call, given the JSON text of its arguments
    /// and the answers to the lookups so far.
    pub fn classify_call(
        &self,
        workspace: &CodingWorkspace,
        arguments: &str,
        answers: &[PathAnswer],
    ) -> (step: PolicyStep)
        ensures
            step@ == policy_model::call_verdict(
                workspace@.root,
                tool_support::json_object_members(arguments@),
                answer_views(answers@),
            ),
    {
        match parse_run_command_arguments(arguments) {
            Ok(command) => self.classify_validated(workspace, command.as_str(), answers),
            Err(error) => PolicyStep::Decided(reject(error.reason())),
        }
    }

    /// Classifies the command of a call, given the members of its arguments and
    /// the answers to the lookups so far.
    pub fn classify_members(
        &self,
        workspace: &CodingWorkspace,
        members: Option<Members>,
        answers: &[PathAnswer],
    ) -> (step: PolicyStep)
        ensures
            step@ == policy_model::call_verdict(
                workspace@.root,
                tool_support::optional_member_views(members),
                answer_views(answers@),
            ),
    {
        match command_from_members(members) {
            Ok(command) => self.classify_validated(workspace, command.as_str(), answers),
            Err(error) => PolicyStep::Decided(reject(error.reason())),
        }
    }

    /// Classifies a command, given the answers to the lookups so far.
    pub fn classify(&self, workspace: &CodingWorkspace, command: &str, answers: &[PathAnswer]) -> (
    step: PolicyStep)
        ensures
            step@ == policy_model::verdict(workspace@.root, command@, answer_views(answers@)),
    {
        match validate_run_command_text(command) {
            Ok(()) => self.classify_validated(workspace, command, answers),
            Err(error) => PolicyStep::Decided(reject(error.reason())),
        }
    }

    fn classify_validated(
        &self,
        workspace: &CodingWorkspace,
        command: &str,
        answers: &[PathAnswer],
    ) -> (step: PolicyStep)
        ensures
            step@ == policy_model::line_verdict(
                workspace@.root,
                command@,
                answer_views(answers@),
            ),
    {
        let parsed = match ParsedShellCommand::parse(command) {
            Ok(parsed) => parsed,
            Err(ShellParseError::Malformed) => {
                return PolicyStep::Decided(reject("command contains malformed shell syntax"));
            },
            Err(ShellParseError::TooComplex) => {
                return PolicyStep::Decided(
                    reject("command is too complex for the first-phase approval policy"),
                );
            },
        };
        let root = workspace.context().root();
        let mut budget = PathProbeBudget::new();
        match classify_hard_rejections(root, &parsed.commands, &mut budget, answers) {
            PartStep::Pass => {},
            PartStep::Step(step) => {
                return step;
            },
        }
        if let Some(reason) = syntax_reason(&parsed) {
            return PolicyStep::Decided(requires_approval(reason));
        }
        match classify_simple_commands(root, &parsed.commands, &mut budget, answers) {
            PartStep::Pass => PolicyStep::Decided(CommandPolicyDecision::Allow),
            PartStep::Step(step) => step,
        }
    }
}

} // verus!
