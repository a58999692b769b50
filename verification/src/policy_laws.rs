//! What the policy of commands promises as a whole.

use crate::command_input;
use crate::path;
use crate::path::ComponentView;
use crate::policy_model;
use crate::policy_model::{
    AnswerView, DecisionView, HardRule, InspectionView, Probe, ProbeState, Verdict,
    MAX_WORKSPACE_PATH_INSPECTIONS,
};
use crate::shell;
use vstd::prelude::*;

verus! {

/// What holds of the budget of a line: every answer was paid for, and no path
/// is held to stay inside that leaves by its text.
pub open spec fn is_accounted(root: Seq<char>, state: ProbeState) -> bool {
    &&& state.used + state.inspections == MAX_WORKSPACE_PATH_INSPECTIONS
    &&& forall|candidate: Seq<char>|
        #[trigger] state.cached.contains_key(candidate) && !state.cached[candidate]
            ==> !policy_model::escapes_by_text(root, candidate)
}

/// A lookup is asked for only where the budget has room for it and its answer is
/// not there yet.
pub open spec fn is_affordable(state: ProbeState, answers: Seq<AnswerView>) -> bool {
    state.inspections > 0 && state.used >= answers.len()
}

pub proof fn lemma_inspect(
    root: Seq<char>,
    state: ProbeState,
    entered: Seq<char>,
    answers: Seq<AnswerView>,
    extra: Seq<AnswerView>,
)
    requires
        is_accounted(root, state),
    ensures
        ({
            let (next, found) = policy_model::inspect(state, entered, answers);
            &&& is_accounted(root, next)
            &&& found is Pending ==> is_affordable(next, answers)
            &&& !(found is Pending) ==> policy_model::inspect(state, entered, answers + extra) == (
            next, found)
        }),
{
    assert(forall|at: int| 0 <= at < answers.len() ==> (answers + extra)[at] == answers[at]);
}

pub proof fn lemma_walk(
    root: Seq<char>,
    parts: Seq<ComponentView>,
    at: int,
    current: Seq<char>,
    state: ProbeState,
    answers: Seq<AnswerView>,
    extra: Seq<AnswerView>,
)
    requires
        is_accounted(root, state),
    ensures
        ({
            let (next, found) = policy_model::walk_escapes(
                root,
                parts,
                at,
                current,
                state,
                answers,
            );
            &&& is_accounted(root, next)
            &&& found is Pending ==> is_affordable(next, answers)
            &&& !(found is Pending) ==> policy_model::walk_escapes(
                root,
                parts,
                at,
                current,
                state,
                answers + extra,
            ) == (next, found)
        }),
    decreases parts.len() - at,
{
    if 0 <= at < parts.len() {
        match parts[at] {
            ComponentView::CurDir => {
                lemma_walk(root, parts, at + 1, current, state, answers, extra);
            },
            ComponentView::Normal(name) => {
                let entered = path::joined(current, name);
                lemma_inspect(root, state, entered, answers, extra);
                let (next, found) = policy_model::inspect(state, entered, answers);
                match found {
                    Probe::Known(InspectionView::Existing) => {
                        lemma_walk(root, parts, at + 1, entered, next, answers, extra);
                    },
                    Probe::Known(InspectionView::Symlink(target)) => {
                        lemma_walk(root, parts, at + 1, target, next, answers, extra);
                    },
                    _ => {},
                }
            },
            _ => {},
        }
    }
}

pub proof fn lemma_candidate(
    root: Seq<char>,
    candidate: Seq<char>,
    state: ProbeState,
    answers: Seq<AnswerView>,
    extra: Seq<AnswerView>,
)
    requires
        is_accounted(root, state),
    ensures
        ({
            let (next, found) = policy_model::classify_candidate(root, candidate, state, answers);
            &&& is_accounted(root, next)
            &&& found is Pending ==> is_affordable(next, answers)
            &&& found == Probe::Known(false) ==> !policy_model::escapes_by_text(root, candidate)
            &&& !(found is Pending) ==> policy_model::classify_candidate(
                root,
                candidate,
                state,
                answers + extra,
            ) == (next, found)
        }),
{
    if !state.cached.contains_key(candidate) && state.candidates > 0 {
        let begun = ProbeState { candidates: (state.candidates - 1) as nat, ..state };
        assert(is_accounted(root, begun));
        let resolved = path::joined(root, candidate);
        if !policy_model::escapes_by_text(root, candidate) && path::components_below(
            resolved,
            root,
        ) is Some {
            lemma_walk(
                root,
                path::components_below(resolved, root)->Some_0,
                0,
                root,
                begun,
                answers,
                extra,
            );
        }
    }
}

pub proof fn lemma_candidates(
    root: Seq<char>,
    candidates: Seq<Seq<char>>,
    at: int,
    state: ProbeState,
    answers: Seq<AnswerView>,
    extra: Seq<AnswerView>,
)
    requires
        is_accounted(root, state),
        0 <= at <= candidates.len(),
    ensures
        ({
            let (next, found) = policy_model::classify_candidates(
                root,
                candidates,
                at,
                state,
                answers,
            );
            &&& is_accounted(root, next)
            &&& found is Pending ==> is_affordable(next, answers)
            &&& found == Probe::Known(false) ==> forall|i: int|
                at <= i < candidates.len() ==> !policy_model::escapes_by_text(
                    root,
                    #[trigger] candidates[i],
                )
            &&& !(found is Pending) ==> policy_model::classify_candidates(
                root,
                candidates,
                at,
                state,
                answers + extra,
            ) == (next, found)
        }),
    decreases candidates.len() - at,
{
    if at < candidates.len() {
        lemma_candidate(root, candidates[at], state, answers, extra);
        let (next, found) = policy_model::classify_candidate(root, candidates[at], state, answers);
        if found == Probe::Known(false) {
            lemma_candidates(root, candidates, at + 1, next, answers, extra);
        }
    }
}

/// Whether a simple command is low-risk: no hard rule rejects it, no reason asks
/// for an approval, and none of the paths that it names leaves the workspace by
/// its text.
pub open spec fn is_low_risk(root: Seq<char>, words: Seq<Seq<char>>) -> bool {
    &&& words.len() > 0
    &&& policy_model::reason_before_paths(words[0], words.skip(1)) is None
    &&& policy_model::reason_after_paths(words[0], words.skip(1)) is None
    &&& policy_model::is_low_risk_builtin(words[0], words.skip(1))
        || policy_model::is_low_risk_external_command(words[0], words.skip(1))
    &&& forall|i: int|
        0 <= i < policy_model::named_paths(words[0], words.skip(1)).len()
            ==> !policy_model::escapes_by_text(
            root,
            #[trigger] policy_model::named_paths(words[0], words.skip(1))[i],
        )
}

pub proof fn lemma_hard_verdicts(
    root: Seq<char>,
    commands: Seq<Seq<Seq<char>>>,
    at: int,
    state: ProbeState,
    answers: Seq<AnswerView>,
    extra: Seq<AnswerView>,
)
    requires
        is_accounted(root, state),
        0 <= at <= commands.len(),
    ensures
        ({
            let (next, verdict) = policy_model::hard_verdicts(root, commands, at, state, answers);
            &&& is_accounted(root, next)
            &&& verdict is Pending ==> is_affordable(next, answers)
            &&& verdict != Verdict::Decided(DecisionView::Allow)
            &&& verdict is Pass ==> forall|i: int|
                at <= i < commands.len() ==> !(policy_model::hard_rule(
                    #[trigger] commands[i],
                ) is Reject)
            &&& !(verdict is Pending) ==> policy_model::hard_verdicts(
                root,
                commands,
                at,
                state,
                answers + extra,
            ) == (next, verdict)
        }),
    decreases commands.len() - at,
{
    if at < commands.len() {
        if let HardRule::ChangeDirectory(directory) = policy_model::hard_rule(commands[at]) {
            lemma_candidate(root, directory, state, answers, extra);
        }
        let (next, verdict) = policy_model::hard_verdict(root, commands[at], state, answers);
        if verdict is Pass {
            lemma_hard_verdicts(root, commands, at + 1, next, answers, extra);
        }
    }
}

pub proof fn lemma_simple_verdicts(
    root: Seq<char>,
    commands: Seq<Seq<Seq<char>>>,
    at: int,
    state: ProbeState,
    answers: Seq<AnswerView>,
    extra: Seq<AnswerView>,
)
    requires
        is_accounted(root, state),
        0 <= at <= commands.len(),
    ensures
        ({
            let (next, verdict) = policy_model::simple_verdicts(root, commands, at, state, answers);
            &&& is_accounted(root, next)
            &&& verdict is Pending ==> is_affordable(next, answers)
            &&& verdict != Verdict::Decided(DecisionView::Allow)
            &&& verdict is Pass ==> forall|i: int|
                at <= i < commands.len() ==> is_low_risk(root, #[trigger] commands[i])
            &&& !(verdict is Pending) ==> policy_model::simple_verdicts(
                root,
                commands,
                at,
                state,
                answers + extra,
            ) == (next, verdict)
        }),
    decreases commands.len() - at,
{
    if at < commands.len() {
        let words = commands[at];
        if words.len() > 0 {
            lemma_candidates(
                root,
                policy_model::named_paths(words[0], words.skip(1)),
                0,
                state,
                answers,
                extra,
            );
        }
        let (next, verdict) = policy_model::simple_verdict(root, words, state, answers);
        if verdict is Pass {
            assert(is_low_risk(root, words));
            lemma_simple_verdicts(root, commands, at + 1, next, answers, extra);
        }
    }
}

proof fn lemma_line(
    root: Seq<char>,
    line: Seq<char>,
    answers: Seq<AnswerView>,
    extra: Seq<AnswerView>,
)
    ensures
        !(policy_model::line_verdict(root, line, answers) is Pass),
        policy_model::line_verdict(root, line, answers) is Pending ==> answers.len()
            < MAX_WORKSPACE_PATH_INSPECTIONS,
        !(policy_model::line_verdict(root, line, answers) is Pending)
            ==> policy_model::line_verdict(root, line, answers + extra)
            == policy_model::line_verdict(root, line, answers),
        policy_model::line_verdict(root, line, answers) == Verdict::Decided(DecisionView::Allow)
            ==> {
            &&& shell::parse(line) is Ok
            &&& policy_model::syntax_reason(shell::parse(line)->Ok_0) is None
            &&& forall|i: int|
                0 <= i < shell::parse(line)->Ok_0.commands.len() ==> is_low_risk(
                    root,
                    #[trigger] shell::parse(line)->Ok_0.commands[i],
                ) && !(policy_model::hard_rule(shell::parse(line)->Ok_0.commands[i]) is Reject)
        },
{
    if let Ok(parsed) = shell::parse(line) {
        let start = ProbeState::initial();
        assert(is_accounted(root, start));
        lemma_hard_verdicts(root, parsed.commands, 0, start, answers, extra);
        let (state, hard) = policy_model::hard_verdicts(root, parsed.commands, 0, start, answers);
        if hard is Pass {
            lemma_simple_verdicts(root, parsed.commands, 0, state, answers, extra);
        }
    }
}

/// A command is allowed without an approval only where it can be read as simple
/// commands without any syntax that needs one, and every one of them is
/// low-risk: no hard rule rejects it, no reason asks for an approval, and none of
/// the paths that it names leaves the workspace by its text. So no composition
/// hides a risky command.
pub proof fn law_allowed_commands_are_low_risk(
    root: Seq<char>,
    command: Seq<char>,
    answers: Seq<AnswerView>,
    at: int,
)
    requires
        policy_model::verdict(root, command, answers) == Verdict::Decided(DecisionView::Allow),
        shell::parse(command) is Ok ==> 0 <= at < shell::parse(command)->Ok_0.commands.len(),
    ensures
        command_input::text_error(command) is None,
        shell::parse(command) is Ok,
        policy_model::syntax_reason(shell::parse(command)->Ok_0) is None,
        is_low_risk(root, shell::parse(command)->Ok_0.commands[at]),
        !(policy_model::hard_rule(shell::parse(command)->Ok_0.commands[at]) is Reject),
{
    lemma_line(root, command, answers, Seq::empty());
}

/// The policy asks for no more lookups than a line may cost: with that many
/// answers it decides.
pub proof fn law_lookups_are_bounded(
    root: Seq<char>,
    command: Seq<char>,
    answers: Seq<AnswerView>,
)
    requires
        answers.len() >= MAX_WORKSPACE_PATH_INSPECTIONS,
    ensures
        policy_model::verdict(root, command, answers) is Decided,
{
    lemma_line(root, command, answers, Seq::empty());
}

/// The policy decides on every command, or asks for a lookup first.
pub proof fn law_verdicts_decide_or_ask(
    root: Seq<char>,
    command: Seq<char>,
    answers: Seq<AnswerView>,
)
    ensures
        policy_model::verdict(root, command, answers) is Decided || policy_model::verdict(
            root,
            command,
            answers,
        ) is Pending,
{
    lemma_line(root, command, answers, Seq::empty());
}

/// A decision stands, whatever else is looked up.
pub proof fn law_decisions_are_final(
    root: Seq<char>,
    command: Seq<char>,
    answers: Seq<AnswerView>,
    extra: Seq<AnswerView>,
)
    requires
        policy_model::verdict(root, command, answers) is Decided,
    ensures
        policy_model::verdict(root, command, answers + extra) == policy_model::verdict(
            root,
            command,
            answers,
        ),
{
    lemma_line(root, command, answers, extra);
}

proof fn lemma_first_rejection(
    root: Seq<char>,
    commands: Seq<Seq<Seq<char>>>,
    at: int,
    rejected: int,
    state: ProbeState,
    answers: Seq<AnswerView>,
)
    requires
        0 <= at <= rejected < commands.len(),
        forall|i: int|
            at <= i < rejected ==> policy_model::hard_rule(#[trigger] commands[i]) is Pass,
        policy_model::hard_rule(commands[rejected]) is Reject,
    ensures
        policy_model::hard_verdicts(root, commands, at, state, answers).1 == Verdict::Decided(
            DecisionView::Reject(policy_model::hard_rule(commands[rejected])->Reject_0),
        ),
    decreases rejected - at,
{
    if at < rejected {
        assert(policy_model::hard_rule(commands[at]) is Pass);
        lemma_first_rejection(root, commands, at + 1, rejected, state, answers);
    }
}

/// A command that a hard rule rejects is rejected wherever it stands in a line
/// behind commands that the hard rules do not concern: no syntax, lookup or
/// approval opens it.
pub proof fn law_hard_rules_reject(
    root: Seq<char>,
    command: Seq<char>,
    answers: Seq<AnswerView>,
    rejected: int,
)
    requires
        command_input::text_error(command) is None,
        shell::parse(command) is Ok,
        0 <= rejected < shell::parse(command)->Ok_0.commands.len(),
        forall|i: int|
            0 <= i < rejected ==> policy_model::hard_rule(
                #[trigger] shell::parse(command)->Ok_0.commands[i],
            ) is Pass,
        policy_model::hard_rule(shell::parse(command)->Ok_0.commands[rejected]) is Reject,
    ensures
        policy_model::verdict(root, command, answers) == Verdict::Decided(
            DecisionView::Reject(
                policy_model::hard_rule(
                    shell::parse(command)->Ok_0.commands[rejected],
                )->Reject_0,
            ),
        ),
{
    lemma_first_rejection(
        root,
        shell::parse(command)->Ok_0.commands,
        0,
        rejected,
        ProbeState::initial(),
        answers,
    );
}

/// No command in which a hard rule rejects anything is ever allowed.
pub proof fn law_rejected_commands_are_never_allowed(
    root: Seq<char>,
    command: Seq<char>,
    answers: Seq<AnswerView>,
    rejected: int,
)
    requires
        shell::parse(command) is Ok,
        0 <= rejected < shell::parse(command)->Ok_0.commands.len(),
        policy_model::hard_rule(shell::parse(command)->Ok_0.commands[rejected]) is Reject,
    ensures
        policy_model::verdict(root, command, answers) != Verdict::Decided(DecisionView::Allow),
{
    lemma_line(root, command, answers, Seq::empty());
}

} // verus!
