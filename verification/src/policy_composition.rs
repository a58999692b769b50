//! What the policy decides where the files stay as they are, and what follows
//! for a line that is made of two others.

use crate::command_input;
use crate::path;
use crate::path::ComponentView;
use crate::policy_laws;
use crate::policy_model;
use crate::policy_model::{
    AnswerView, DecisionView, HardRule, InspectionView, Probe, ProbeState, RequestView, Verdict,
    MAX_WORKSPACE_PATH_INSPECTIONS,
};
use crate::shell;
use crate::shell::{ParsedView, Quote, ShellState};
use crate::shell_laws;
use crate::text;
use vstd::prelude::*;

verus! {

/// Files that stay as they are: each lookup has one answer.
pub type Files = spec_fn(RequestView) -> AnswerView;

/// What the policy comes to when each lookup that it asks for is answered by the
/// files, some answers being there already.
pub open spec fn settled_from(
    root: Seq<char>,
    command: Seq<char>,
    files: Files,
    answers: Seq<AnswerView>,
) -> Verdict
    decreases MAX_WORKSPACE_PATH_INSPECTIONS - answers.len(),
{
    match policy_model::verdict(root, command, answers) {
        Verdict::Pending(request) => if answers.len() < MAX_WORKSPACE_PATH_INSPECTIONS {
            settled_from(root, command, files, answers.push(files(request)))
        } else {
            Verdict::Pending(request)
        },
        verdict => verdict,
    }
}

/// What the policy comes to when each lookup that it asks for is answered by the
/// files.
pub open spec fn settled(root: Seq<char>, command: Seq<char>, files: Files) -> Verdict {
    settled_from(root, command, files, Seq::empty())
}

/// What stands at a path, and the lookups that tell.
spec fn seen(path: Seq<char>, files: Files) -> (InspectionView, Seq<RequestView>) {
    let first = seq![RequestView::Inspect(path)];
    match files(RequestView::Inspect(path)) {
        AnswerView::Symlink => (
            match files(RequestView::Follow(path)) {
                AnswerView::Resolved(target) => InspectionView::Symlink(target),
                _ => InspectionView::Inaccessible,
            },
            first.push(RequestView::Follow(path)),
        ),
        AnswerView::Present => (InspectionView::Existing, first),
        AnswerView::Failed(kind) => (
            if policy_model::means_missing(kind) {
                InspectionView::Missing
            } else {
                InspectionView::Inaccessible
            },
            first,
        ),
        _ => (InspectionView::Inaccessible, first),
    }
}

/// Whether a walk leads out of the root, and the lookups that tell.
spec fn walked(
    root: Seq<char>,
    parts: Seq<ComponentView>,
    at: int,
    current: Seq<char>,
    files: Files,
) -> (bool, Seq<RequestView>)
    decreases parts.len() - at,
{
    if at < 0 || at >= parts.len() {
        (false, Seq::empty())
    } else {
        match parts[at] {
            ComponentView::CurDir => walked(root, parts, at + 1, current, files),
            ComponentView::Normal(name) => {
                let entered = path::joined(current, name);
                let (found, asked) = seen(entered, files);
                match found {
                    InspectionView::Missing => (false, asked),
                    InspectionView::Existing => {
                        let (escapes, more) = walked(root, parts, at + 1, entered, files);
                        (escapes, asked + more)
                    },
                    InspectionView::Symlink(target) => if path::is_within(target, root) {
                        let (escapes, more) = walked(root, parts, at + 1, target, files);
                        (escapes, asked + more)
                    } else {
                        (true, asked)
                    },
                    InspectionView::Inaccessible => (true, asked),
                }
            },
            _ => (true, Seq::empty()),
        }
    }
}

/// Whether a candidate leads out of the root, and the lookups that tell.
spec fn judged(root: Seq<char>, candidate: Seq<char>, files: Files) -> (bool, Seq<RequestView>) {
    if policy_model::escapes_by_text(root, candidate) {
        (true, Seq::empty())
    } else {
        match path::components_below(path::joined(root, candidate), root) {
            None => (true, Seq::empty()),
            Some(parts) => walked(root, parts, 0, root, files),
        }
    }
}

/// How a part of the policy goes on: what it comes to, and what it asks for.
struct Course<T> {
    state: ProbeState,
    outcome: T,
    asked: Seq<RequestView>,
}

/// The course of the lookups for one candidate.
spec fn candidate_course(
    root: Seq<char>,
    candidate: Seq<char>,
    state: ProbeState,
    files: Files,
) -> Course<Probe<bool>> {
    let (escapes, asked) = judged(root, candidate, files);
    if state.cached.contains_key(candidate) {
        Course { state, outcome: Probe::Known(state.cached[candidate]), asked: Seq::empty() }
    } else if state.candidates == 0 {
        Course { state, outcome: Probe::Exhausted, asked: Seq::empty() }
    } else if asked.len() <= state.inspections {
        Course {
            state: ProbeState {
                candidates: (state.candidates - 1) as nat,
                inspections: (state.inspections - asked.len()) as nat,
                cached: state.cached.insert(candidate, escapes),
                used: state.used + asked.len(),
            },
            outcome: Probe::Known(escapes),
            asked,
        }
    } else {
        Course { state, outcome: Probe::Exhausted, asked: asked.take(state.inspections as int) }
    }
}

/// The course of the lookups for some candidates, up to the first that leads out.
spec fn candidates_course(
    root: Seq<char>,
    candidates: Seq<Seq<char>>,
    at: int,
    state: ProbeState,
    files: Files,
) -> Course<Probe<bool>>
    decreases candidates.len() - at,
{
    if at < 0 || at >= candidates.len() {
        Course { state, outcome: Probe::Known(false), asked: Seq::empty() }
    } else {
        let first = candidate_course(root, candidates[at], state, files);
        match first.outcome {
            Probe::Known(false) => {
                let rest = candidates_course(root, candidates, at + 1, first.state, files);
                Course { asked: first.asked + rest.asked, ..rest }
            },
            _ => first,
        }
    }
}

/// The course of the hard rules for some commands.
spec fn hard_course(
    root: Seq<char>,
    commands: Seq<Seq<Seq<char>>>,
    at: int,
    state: ProbeState,
    files: Files,
) -> Course<Verdict>
    decreases commands.len() - at,
{
    if at < 0 || at >= commands.len() {
        Course { state, outcome: Verdict::Pass, asked: Seq::empty() }
    } else {
        match policy_model::hard_rule(commands[at]) {
            HardRule::Reject(reason) => Course {
                state,
                outcome: Verdict::Decided(DecisionView::Reject(reason)),
                asked: Seq::empty(),
            },
            HardRule::Pass => hard_course(root, commands, at + 1, state, files),
            HardRule::ChangeDirectory(directory) => {
                let first = candidate_course(root, directory, state, files);
                match first.outcome {
                    Probe::Known(false) => {
                        let rest = hard_course(root, commands, at + 1, first.state, files);
                        Course { asked: first.asked + rest.asked, ..rest }
                    },
                    Probe::Known(true) => Course {
                        state: first.state,
                        outcome: Verdict::Decided(
                            DecisionView::Reject(
                                "command changes its working directory outside the workspace"@,
                            ),
                        ),
                        asked: first.asked,
                    },
                    _ => Course {
                        state: first.state,
                        outcome: Verdict::Decided(policy_model::budget_decision()),
                        asked: first.asked,
                    },
                }
            },
        }
    }
}

/// The course of the rules for some commands.
spec fn simple_course(
    root: Seq<char>,
    commands: Seq<Seq<Seq<char>>>,
    at: int,
    state: ProbeState,
    files: Files,
) -> Course<Verdict>
    decreases commands.len() - at,
{
    if at < 0 || at >= commands.len() {
        Course { state, outcome: Verdict::Pass, asked: Seq::empty() }
    } else if commands[at].len() == 0 {
        Course {
            state,
            outcome: Verdict::Decided(
                DecisionView::Reject("command contains malformed shell syntax"@),
            ),
            asked: Seq::empty(),
        }
    } else {
        let program = commands[at][0];
        let arguments = commands[at].skip(1);
        match policy_model::reason_before_paths(program, arguments) {
            Some(reason) => Course {
                state,
                outcome: Verdict::Decided(DecisionView::RequiresApproval(reason)),
                asked: Seq::empty(),
            },
            None => {
                let first = candidates_course(
                    root,
                    policy_model::named_paths(program, arguments),
                    0,
                    state,
                    files,
                );
                match first.outcome {
                    Probe::Known(false) => match policy_model::reason_after_paths(
                        program,
                        arguments,
                    ) {
                        Some(reason) => Course {
                            state: first.state,
                            outcome: Verdict::Decided(DecisionView::RequiresApproval(reason)),
                            asked: first.asked,
                        },
                        None => {
                            let rest = simple_course(root, commands, at + 1, first.state, files);
                            Course { asked: first.asked + rest.asked, ..rest }
                        },
                    },
                    Probe::Known(true) => Course {
                        state: first.state,
                        outcome: Verdict::Decided(
                            DecisionView::RequiresApproval(
                                "command may access a path outside the workspace"@,
                            ),
                        ),
                        asked: first.asked,
                    },
                    _ => Course {
                        state: first.state,
                        outcome: Verdict::Decided(policy_model::budget_decision()),
                        asked: first.asked,
                    },
                }
            },
        }
    }
}

/// Whether the answers from `used` on are those of the files to what is asked.
spec fn serves(answers: Seq<AnswerView>, used: nat, asked: Seq<RequestView>, files: Files) -> bool {
    &&& used <= answers.len()
    &&& forall|i: int|
        0 <= i < asked.len() && used + i < answers.len() ==> answers[used + i] == files(
            #[trigger] asked[i],
        )
}

/// Whether answers break off before all that is asked, and at which request.
spec fn breaks_off(answers: Seq<AnswerView>, used: nat, asked: Seq<RequestView>) -> bool {
    answers.len() - used < asked.len()
}

proof fn lemma_serves_both(
    answers: Seq<AnswerView>,
    used: nat,
    first: Seq<RequestView>,
    second: Seq<RequestView>,
    files: Files,
)
    requires
        serves(answers, used, first + second, files),
    ensures
        serves(answers, used, first, files),
        !breaks_off(answers, used, first) ==> serves(answers, used + first.len(), second, files),
{
    let both = first + second;
    assert forall|i: int| 0 <= i < first.len() && used + i < answers.len() implies answers[used + i]
        == files(#[trigger] first[i]) by {
        assert(both[i] == first[i]);
    }
    if !breaks_off(answers, used, first) {
        assert forall|i: int|
            0 <= i < second.len() && used + first.len() + i < answers.len() implies answers[used
            + first.len() + i] == files(#[trigger] second[i]) by {
            assert(both[first.len() + i] == second[i]);
        }
    }
}

/// What is asked before the budget is spent.
spec fn paid(asked: Seq<RequestView>, inspections: nat) -> Seq<RequestView> {
    if asked.len() <= inspections {
        asked
    } else {
        asked.take(inspections as int)
    }
}

/// Whether a part of the policy comes to `value` by what is asked, as far as the
/// budget and the answers reach.
spec fn follows<T>(
    result: (ProbeState, Probe<T>),
    value: T,
    asked: Seq<RequestView>,
    state: ProbeState,
    answers: Seq<AnswerView>,
) -> bool {
    if breaks_off(answers, state.used, paid(asked, state.inspections)) {
        result.1 == Probe::<T>::Pending(asked[answers.len() - state.used])
    } else if asked.len() <= state.inspections {
        result == (
            ProbeState {
                inspections: (state.inspections - asked.len()) as nat,
                used: state.used + asked.len(),
                ..state
            },
            Probe::Known(value),
        )
    } else {
        result.1 is Exhausted
    }
}

proof fn lemma_paid_both(first: Seq<RequestView>, second: Seq<RequestView>, inspections: nat)
    ensures
        first.len() <= inspections ==> paid(first + second, inspections) == first + paid(
            second,
            (inspections - first.len()) as nat,
        ),
        first.len() > inspections ==> paid(first + second, inspections) == paid(first, inspections),
{
    let both = paid(first + second, inspections);
    if first.len() <= inspections {
        assert(both =~= first + paid(second, (inspections - first.len()) as nat));
    } else {
        assert(both =~= paid(first, inspections));
    }
}

proof fn lemma_seen(state: ProbeState, entered: Seq<char>, answers: Seq<AnswerView>, files: Files)
    requires
        serves(answers, state.used, paid(seen(entered, files).1, state.inspections), files),
    ensures
        follows(
            policy_model::inspect(state, entered, answers),
            seen(entered, files).0,
            seen(entered, files).1,
            state,
            answers,
        ),
{
    let asked = seen(entered, files).1;
    let reached = paid(asked, state.inspections);
    let used = state.used as int;
    if state.inspections > 0 {
        assert(reached[0] == RequestView::Inspect(entered));
        if used < answers.len() {
            assert(answers[used + 0] == files(reached[0]));
            if asked.len() == 2 && state.inspections > 1 {
                assert(reached[1] == RequestView::Follow(entered));
                if used + 1 < answers.len() {
                    assert(answers[used + 1] == files(reached[1]));
                }
            }
        }
    }
}

proof fn lemma_walked(
    root: Seq<char>,
    parts: Seq<ComponentView>,
    at: int,
    current: Seq<char>,
    state: ProbeState,
    answers: Seq<AnswerView>,
    files: Files,
)
    requires
        serves(
            answers,
            state.used,
            paid(walked(root, parts, at, current, files).1, state.inspections),
            files,
        ),
    ensures
        follows(
            policy_model::walk_escapes(root, parts, at, current, state, answers),
            walked(root, parts, at, current, files).0,
            walked(root, parts, at, current, files).1,
            state,
            answers,
        ),
    decreases parts.len() - at,
{
    if 0 <= at < parts.len() {
        match parts[at] {
            ComponentView::CurDir => {
                lemma_walked(root, parts, at + 1, current, state, answers, files);
            },
            ComponentView::Normal(name) => {
                let entered = path::joined(current, name);
                let (found, asked) = seen(entered, files);
                let target = match found {
                    InspectionView::Symlink(target) => target,
                    _ => entered,
                };
                let goes_on = found is Existing || found is Symlink && path::is_within(
                    target,
                    root,
                );
                let more = if goes_on {
                    walked(root, parts, at + 1, target, files).1
                } else {
                    Seq::empty()
                };
                assert(asked + Seq::<RequestView>::empty() =~= asked);
                assert(walked(root, parts, at, current, files).1 == asked + more);
                lemma_paid_both(asked, more, state.inspections);
                let budget = (state.inspections - asked.len()) as nat;
                if asked.len() <= state.inspections {
                    lemma_serves_both(answers, state.used, asked, paid(more, budget), files);
                }
                lemma_seen(state, entered, answers, files);
                if asked.len() <= state.inspections && !breaks_off(answers, state.used, asked) {
                    let next = ProbeState {
                        inspections: budget,
                        used: state.used + asked.len(),
                        ..state
                    };
                    assert(policy_model::inspect(state, entered, answers) == (
                        next,
                        Probe::Known(found),
                    ));
                    if goes_on {
                        lemma_walked(root, parts, at + 1, target, next, answers, files);
                        let at_break = answers.len() - state.used;
                        assert(at_break >= asked.len());
                        assert(0 <= at_break - asked.len() < more.len() ==> (asked + more)[at_break]
                            == more[at_break - asked.len()]);
                    }
                } else if breaks_off(answers, state.used, paid(asked, state.inspections)) {
                    assert((asked + more)[answers.len() - state.used] == asked[answers.len()
                        - state.used]);
                }
            },
            _ => {},
        }
    }
}

/// Whether a part of the policy goes by its course, as far as the answers reach.
spec fn goes_by<T>(
    result: (ProbeState, Probe<T>),
    course: Course<Probe<T>>,
    used: nat,
    answers: Seq<AnswerView>,
) -> bool {
    if breaks_off(answers, used, course.asked) {
        result.1 == Probe::<T>::Pending(course.asked[answers.len() - used])
    } else {
        &&& result.1 == course.outcome
        &&& course.outcome is Known ==> result.0 == course.state && course.state.used == used
            + course.asked.len()
    }
}

proof fn lemma_candidate_course(
    root: Seq<char>,
    candidate: Seq<char>,
    state: ProbeState,
    answers: Seq<AnswerView>,
    files: Files,
)
    requires
        serves(
            answers,
            state.used,
            candidate_course(root, candidate, state, files).asked,
            files,
        ),
    ensures
        goes_by(
            policy_model::classify_candidate(root, candidate, state, answers),
            candidate_course(root, candidate, state, files),
            state.used,
            answers,
        ),
{
    let (escapes, asked) = judged(root, candidate, files);
    if !state.cached.contains_key(candidate) && state.candidates > 0 {
        let begun = ProbeState { candidates: (state.candidates - 1) as nat, ..state };
        let resolved = path::joined(root, candidate);
        assert(candidate_course(root, candidate, state, files).asked == paid(
            asked,
            state.inspections,
        ));
        if !policy_model::escapes_by_text(root, candidate) && path::components_below(
            resolved,
            root,
        ) is Some {
            lemma_walked(
                root,
                path::components_below(resolved, root)->Some_0,
                0,
                root,
                begun,
                answers,
                files,
            );
        }
    }
}

proof fn lemma_courses_do_not_pend(
    root: Seq<char>,
    candidates: Seq<Seq<char>>,
    at: int,
    state: ProbeState,
    files: Files,
)
    ensures
        !(candidates_course(root, candidates, at, state, files).outcome is Pending),
    decreases candidates.len() - at,
{
    if 0 <= at < candidates.len() {
        let first = candidate_course(root, candidates[at], state, files);
        lemma_courses_do_not_pend(root, candidates, at + 1, first.state, files);
    }
}

proof fn lemma_candidates_course(
    root: Seq<char>,
    candidates: Seq<Seq<char>>,
    at: int,
    state: ProbeState,
    answers: Seq<AnswerView>,
    files: Files,
)
    requires
        serves(
            answers,
            state.used,
            candidates_course(root, candidates, at, state, files).asked,
            files,
        ),
    ensures
        goes_by(
            policy_model::classify_candidates(root, candidates, at, state, answers),
            candidates_course(root, candidates, at, state, files),
            state.used,
            answers,
        ),
        !(candidates_course(root, candidates, at, state, files).outcome is Pending),
    decreases candidates.len() - at,
{
    if 0 <= at < candidates.len() {
        let first = candidate_course(root, candidates[at], state, files);
        if first.outcome == Probe::Known(false) {
            let rest = candidates_course(root, candidates, at + 1, first.state, files);
            lemma_serves_both(answers, state.used, first.asked, rest.asked, files);
            lemma_candidate_course(root, candidates[at], state, answers, files);
            lemma_break_in_both(answers, state.used, first.asked, rest.asked);
            if !breaks_off(answers, state.used, first.asked) {
                lemma_candidates_course(
                    root,
                    candidates,
                    at + 1,
                    first.state,
                    answers,
                    files,
                );
            }
            lemma_courses_do_not_pend(root, candidates, at + 1, first.state, files);
        } else {
            lemma_candidate_course(root, candidates[at], state, answers, files);
        }
    }
}

proof fn lemma_break_in_both(
    answers: Seq<AnswerView>,
    used: nat,
    first: Seq<RequestView>,
    second: Seq<RequestView>,
)
    requires
        used <= answers.len(),
    ensures
        breaks_off(answers, used, first) ==> breaks_off(answers, used, first + second) && (first
            + second)[answers.len() - used] == first[answers.len() - used],
        !breaks_off(answers, used, first) ==> (breaks_off(answers, used, first + second)
            <==> breaks_off(answers, used + first.len(), second)),
        !breaks_off(answers, used, first) && breaks_off(answers, used + first.len(), second)
            ==> (first + second)[answers.len() - used] == second[answers.len() - (used
            + first.len())],
{
}

/// Whether the rules for commands go by their course, as far as the answers
/// reach.
spec fn judges_by(
    result: (ProbeState, Verdict),
    course: Course<Verdict>,
    used: nat,
    answers: Seq<AnswerView>,
) -> bool {
    if breaks_off(answers, used, course.asked) {
        result.1 == Verdict::Pending(course.asked[answers.len() - used])
    } else {
        &&& result.1 == course.outcome
        &&& course.outcome is Pass ==> result.0 == course.state && course.state.used == used
            + course.asked.len()
    }
}

proof fn lemma_hard_course(
    root: Seq<char>,
    commands: Seq<Seq<Seq<char>>>,
    at: int,
    state: ProbeState,
    answers: Seq<AnswerView>,
    files: Files,
)
    requires
        serves(
            answers,
            state.used,
            hard_course(root, commands, at, state, files).asked,
            files,
        ),
    ensures
        judges_by(
            policy_model::hard_verdicts(root, commands, at, state, answers),
            hard_course(root, commands, at, state, files),
            state.used,
            answers,
        ),
    decreases commands.len() - at,
{
    if 0 <= at < commands.len() {
        match policy_model::hard_rule(commands[at]) {
            HardRule::Reject(_) => {},
            HardRule::Pass => {
                lemma_hard_course(root, commands, at + 1, state, answers, files);
            },
            HardRule::ChangeDirectory(directory) => {
                let first = candidate_course(root, directory, state, files);
                if first.outcome == Probe::Known(false) {
                    let rest = hard_course(root, commands, at + 1, first.state, files);
                    lemma_serves_both(answers, state.used, first.asked, rest.asked, files);
                    lemma_break_in_both(answers, state.used, first.asked, rest.asked);
                    lemma_candidate_course(root, directory, state, answers, files);
                    if !breaks_off(answers, state.used, first.asked) {
                        lemma_hard_course(root, commands, at + 1, first.state, answers, files);
                    }
                } else {
                    lemma_candidate_course(root, directory, state, answers, files);
                }
            },
        }
    }
}

proof fn lemma_simple_course(
    root: Seq<char>,
    commands: Seq<Seq<Seq<char>>>,
    at: int,
    state: ProbeState,
    answers: Seq<AnswerView>,
    files: Files,
)
    requires
        serves(
            answers,
            state.used,
            simple_course(root, commands, at, state, files).asked,
            files,
        ),
    ensures
        judges_by(
            policy_model::simple_verdicts(root, commands, at, state, answers),
            simple_course(root, commands, at, state, files),
            state.used,
            answers,
        ),
    decreases commands.len() - at,
{
    if 0 <= at < commands.len() && commands[at].len() > 0 {
        let program = commands[at][0];
        let arguments = commands[at].skip(1);
        if policy_model::reason_before_paths(program, arguments) is None {
            let paths = policy_model::named_paths(program, arguments);
            let first = candidates_course(root, paths, 0, state, files);
            if first.outcome == Probe::Known(false) && policy_model::reason_after_paths(
                program,
                arguments,
            ) is None {
                let rest = simple_course(root, commands, at + 1, first.state, files);
                lemma_serves_both(answers, state.used, first.asked, rest.asked, files);
                lemma_break_in_both(answers, state.used, first.asked, rest.asked);
                lemma_candidates_course(root, paths, 0, state, answers, files);
                if !breaks_off(answers, state.used, first.asked) {
                    lemma_simple_course(root, commands, at + 1, first.state, answers, files);
                }
            } else {
                lemma_candidates_course(root, paths, 0, state, answers, files);
            }
        }
    }
}

proof fn lemma_verdicts_do_not_pend(
    root: Seq<char>,
    commands: Seq<Seq<Seq<char>>>,
    at: int,
    state: ProbeState,
    files: Files,
)
    ensures
        !(hard_course(root, commands, at, state, files).outcome is Pending),
        !(simple_course(root, commands, at, state, files).outcome is Pending),
    decreases commands.len() - at,
{
    if 0 <= at < commands.len() {
        lemma_verdicts_do_not_pend(root, commands, at + 1, state, files);
        if let HardRule::ChangeDirectory(directory) = policy_model::hard_rule(commands[at]) {
            let first = candidate_course(root, directory, state, files);
            lemma_verdicts_do_not_pend(root, commands, at + 1, first.state, files);
        }
        if commands[at].len() > 0 {
            let paths = policy_model::named_paths(commands[at][0], commands[at].skip(1));
            let first = candidates_course(root, paths, 0, state, files);
            lemma_verdicts_do_not_pend(root, commands, at + 1, first.state, files);
        }
    }
}

/// What the policy comes to on a line, and what it asks for.
spec fn line_course(root: Seq<char>, parsed: ParsedView, files: Files) -> Course<Verdict> {
    let hard = hard_course(root, parsed.commands, 0, ProbeState::initial(), files);
    match hard.outcome {
        Verdict::Pass => match policy_model::syntax_reason(parsed) {
            Some(reason) => Course {
                outcome: Verdict::Decided(DecisionView::RequiresApproval(reason)),
                ..hard
            },
            None => {
                let simple = simple_course(root, parsed.commands, 0, hard.state, files);
                Course {
                    state: simple.state,
                    outcome: match simple.outcome {
                        Verdict::Pass => Verdict::Decided(DecisionView::Allow),
                        verdict => verdict,
                    },
                    asked: hard.asked + simple.asked,
                }
            },
        },
        _ => hard,
    }
}

proof fn lemma_line_course(
    root: Seq<char>,
    line: Seq<char>,
    answers: Seq<AnswerView>,
    files: Files,
)
    requires
        shell::parse(line) is Ok,
        serves(answers, 0, line_course(root, shell::parse(line)->Ok_0, files).asked, files),
    ensures
        ({
            let course = line_course(root, shell::parse(line)->Ok_0, files);
            let verdict = policy_model::line_verdict(root, line, answers);
            &&& !(course.outcome is Pending)
            &&& if answers.len() < course.asked.len() {
                verdict == Verdict::Pending(course.asked[answers.len() as int])
            } else {
                verdict == course.outcome
            }
        }),
{
    let parsed = shell::parse(line)->Ok_0;
    let start = ProbeState::initial();
    let hard = hard_course(root, parsed.commands, 0, start, files);
    lemma_verdicts_do_not_pend(root, parsed.commands, 0, start, files);
    if hard.outcome is Pass && policy_model::syntax_reason(parsed) is None {
        let simple = simple_course(root, parsed.commands, 0, hard.state, files);
        lemma_verdicts_do_not_pend(root, parsed.commands, 0, hard.state, files);
        lemma_serves_both(answers, 0, hard.asked, simple.asked, files);
        lemma_break_in_both(answers, 0, hard.asked, simple.asked);
        lemma_hard_course(root, parsed.commands, 0, start, answers, files);
        if !breaks_off(answers, 0, hard.asked) {
            lemma_simple_course(root, parsed.commands, 0, hard.state, answers, files);
        }
    } else {
        lemma_hard_course(root, parsed.commands, 0, start, answers, files);
    }
}

proof fn lemma_settled(root: Seq<char>, line: Seq<char>, files: Files, answers: Seq<AnswerView>)
    requires
        command_input::text_error(line) is None,
        shell::parse(line) is Ok,
        answers.len() <= line_course(root, shell::parse(line)->Ok_0, files).asked.len(),
        forall|i: int|
            0 <= i < answers.len() ==> #[trigger] answers[i] == files(
                line_course(root, shell::parse(line)->Ok_0, files).asked[i],
            ),
    ensures
        settled_from(root, line, files, answers) == line_course(
            root,
            shell::parse(line)->Ok_0,
            files,
        ).outcome,
    decreases line_course(root, shell::parse(line)->Ok_0, files).asked.len() - answers.len(),
{
    let course = line_course(root, shell::parse(line)->Ok_0, files);
    assert forall|i: int| 0 <= i < course.asked.len() && 0 + i < answers.len() implies answers[0
        + i] == files(#[trigger] course.asked[i]) by {
        assert(answers[i] == files(course.asked[i]));
    }
    lemma_line_course(root, line, answers, files);
    if answers.len() < course.asked.len() {
        if answers.len() >= MAX_WORKSPACE_PATH_INSPECTIONS {
            policy_laws::law_lookups_are_bounded(root, line, answers);
        }
        lemma_settled(root, line, files, answers.push(files(course.asked[answers.len() as int])));
    }
}

/// The state behind some candidates, where none of them leads out and the budget
/// lasts.
spec fn spent(
    root: Seq<char>,
    candidates: Seq<Seq<char>>,
    state: ProbeState,
    files: Files,
) -> Option<ProbeState>
    decreases candidates.len(),
{
    if candidates.len() == 0 {
        Some(state)
    } else {
        let first = candidate_course(root, candidates[0], state, files);
        match first.outcome {
            Probe::Known(false) => spent(root, candidates.drop_first(), first.state, files),
            _ => None,
        }
    }
}

proof fn lemma_spent_on_both(
    root: Seq<char>,
    first: Seq<Seq<char>>,
    second: Seq<Seq<char>>,
    state: ProbeState,
    files: Files,
)
    ensures
        spent(root, first + second, state, files) == match spent(root, first, state, files) {
            Some(next) => spent(root, second, next, files),
            None => None,
        },
    decreases first.len(),
{
    if first.len() == 0 {
        assert(first + second =~= second);
    } else {
        let course = candidate_course(root, first[0], state, files);
        assert((first + second)[0] == first[0]);
        assert((first + second).drop_first() =~= first.drop_first() + second);
        lemma_spent_on_both(root, first.drop_first(), second, course.state, files);
    }
}

proof fn lemma_candidates_spent(
    root: Seq<char>,
    candidates: Seq<Seq<char>>,
    at: int,
    state: ProbeState,
    files: Files,
)
    requires
        0 <= at <= candidates.len(),
    ensures
        ({
            let course = candidates_course(root, candidates, at, state, files);
            match spent(root, candidates.skip(at), state, files) {
                Some(next) => course.outcome == Probe::Known(false) && course.state == next,
                None => course.outcome != Probe::Known(false),
            }
        }),
    decreases candidates.len() - at,
{
    if at < candidates.len() {
        let first = candidate_course(root, candidates[at], state, files);
        assert(candidates.skip(at)[0] == candidates[at]);
        assert(candidates.skip(at).drop_first() =~= candidates.skip(at + 1));
        lemma_candidates_spent(root, candidates, at + 1, first.state, files);
    }
}

/// The paths of the commands from `at` on, as `pick` takes them from each.
spec fn picked(
    commands: Seq<Seq<Seq<char>>>,
    at: int,
    pick: spec_fn(Seq<Seq<char>>) -> Seq<Seq<char>>,
) -> Seq<Seq<char>>
    decreases commands.len() - at,
{
    if at < 0 || at >= commands.len() {
        Seq::empty()
    } else {
        pick(commands[at]) + picked(commands, at + 1, pick)
    }
}

proof fn lemma_picked_from_second(
    first: Seq<Seq<Seq<char>>>,
    second: Seq<Seq<Seq<char>>>,
    at: int,
    pick: spec_fn(Seq<Seq<char>>) -> Seq<Seq<char>>,
)
    requires
        0 <= at <= second.len(),
    ensures
        picked(first + second, first.len() + at, pick) == picked(second, at, pick),
    decreases second.len() - at,
{
    if at < second.len() {
        assert((first + second)[first.len() + at] == second[at]);
        lemma_picked_from_second(first, second, at + 1, pick);
    }
}

proof fn lemma_picked_from_both(
    first: Seq<Seq<Seq<char>>>,
    second: Seq<Seq<Seq<char>>>,
    at: int,
    pick: spec_fn(Seq<Seq<char>>) -> Seq<Seq<char>>,
)
    requires
        0 <= at <= first.len(),
    ensures
        picked(first + second, at, pick) == picked(first, at, pick) + picked(second, 0, pick),
    decreases first.len() - at,
{
    if at < first.len() {
        assert((first + second)[at] == first[at]);
        lemma_picked_from_both(first, second, at + 1, pick);
        assert(pick(first[at]) + (picked(first, at + 1, pick) + picked(second, 0, pick)) =~= (pick(
            first[at],
        ) + picked(first, at + 1, pick)) + picked(second, 0, pick));
    } else {
        lemma_picked_from_second(first, second, 0, pick);
        assert(picked(first, at, pick) + picked(second, 0, pick) =~= picked(second, 0, pick));
    }
}

/// The directory that a command changes to.
spec fn directories() -> spec_fn(Seq<Seq<char>>) -> Seq<Seq<char>> {
    |words: Seq<Seq<char>>|
        match policy_model::hard_rule(words) {
            HardRule::ChangeDirectory(directory) => seq![directory],
            _ => Seq::<Seq<char>>::empty(),
        }
}

/// The paths that a command names.
spec fn paths() -> spec_fn(Seq<Seq<char>>) -> Seq<Seq<char>> {
    |words: Seq<Seq<char>>| policy_model::named_paths(words[0], words.skip(1))
}

/// Whether no hard rule rejects a command.
spec fn is_not_rejected(words: Seq<Seq<char>>) -> bool {
    !(policy_model::hard_rule(words) is Reject)
}

/// Whether no reason but a path asks for an approval of a command.
spec fn has_no_reason(words: Seq<Seq<char>>) -> bool {
    &&& words.len() > 0
    &&& policy_model::reason_before_paths(words[0], words.skip(1)) is None
    &&& policy_model::reason_after_paths(words[0], words.skip(1)) is None
}

proof fn lemma_hard_spent(
    root: Seq<char>,
    commands: Seq<Seq<Seq<char>>>,
    at: int,
    state: ProbeState,
    files: Files,
)
    requires
        0 <= at <= commands.len(),
    ensures
        ({
            let course = hard_course(root, commands, at, state, files);
            let left = spent(root, picked(commands, at, directories()), state, files);
            &&& course.outcome is Pass <==> left is Some && forall|i: int|
                at <= i < commands.len() ==> is_not_rejected(#[trigger] commands[i])
            &&& course.outcome is Pass ==> left == Some(course.state)
        }),
    decreases commands.len() - at,
{
    if at < commands.len() {
        let own = directories()(commands[at]);
        let later = picked(commands, at + 1, directories());
        lemma_spent_on_both(root, own, later, state, files);
        match policy_model::hard_rule(commands[at]) {
            HardRule::Reject(_) => {
                assert(!is_not_rejected(commands[at]));
            },
            HardRule::Pass => {
                lemma_hard_spent(root, commands, at + 1, state, files);
                assert(is_not_rejected(commands[at]));
            },
            HardRule::ChangeDirectory(directory) => {
                assert(is_not_rejected(commands[at]));
                let first = candidate_course(root, directory, state, files);
                assert(own =~= seq![directory]);
                assert(own.drop_first() =~= Seq::<Seq<char>>::empty());
                assert(spent(root, own.drop_first(), first.state, files) == Some(first.state));
                if first.outcome == Probe::Known(false) {
                    assert(spent(root, own, state, files) == Some(first.state));
                    lemma_hard_spent(root, commands, at + 1, first.state, files);
                } else {
                    assert(spent(root, own, state, files) is None);
                }
            },
        }
    }
}

proof fn lemma_simple_spent(
    root: Seq<char>,
    commands: Seq<Seq<Seq<char>>>,
    at: int,
    state: ProbeState,
    files: Files,
)
    requires
        0 <= at <= commands.len(),
    ensures
        ({
            let course = simple_course(root, commands, at, state, files);
            let left = spent(root, picked(commands, at, paths()), state, files);
            &&& course.outcome is Pass ==> left is Some && forall|i: int|
                at <= i < commands.len() ==> has_no_reason(#[trigger] commands[i])
            &&& left is Some && (forall|i: int|
                at <= i < commands.len() ==> has_no_reason(#[trigger] commands[i]))
                ==> course.outcome is Pass
        }),
    decreases commands.len() - at,
{
    if at < commands.len() {
        let own = paths()(commands[at]);
        let later = picked(commands, at + 1, paths());
        lemma_spent_on_both(root, own, later, state, files);
        if commands[at].len() > 0 {
            let first = candidates_course(root, own, 0, state, files);
            lemma_candidates_spent(root, own, 0, state, files);
            assert(own.skip(0) =~= own);
            lemma_simple_spent(root, commands, at + 1, first.state, files);
        }
        if !has_no_reason(commands[at]) {
            assert(!(simple_course(root, commands, at, state, files).outcome is Pass));
        }
    }
}

/// Whether a state has learned the same as another and can spend as much.
spec fn is_no_worse(state: ProbeState, other: ProbeState) -> bool {
    &&& state.cached == other.cached
    &&& state.inspections >= other.inspections
    &&& state.candidates >= other.candidates
}

proof fn lemma_no_worse_lasts(
    root: Seq<char>,
    candidates: Seq<Seq<char>>,
    state: ProbeState,
    other: ProbeState,
    files: Files,
)
    requires
        is_no_worse(state, other),
        spent(root, candidates, other, files) is Some,
    ensures
        spent(root, candidates, state, files) is Some,
    decreases candidates.len(),
{
    if candidates.len() > 0 {
        let course = candidate_course(root, candidates[0], state, files);
        let before = candidate_course(root, candidates[0], other, files);
        lemma_no_worse_lasts(
            root,
            candidates.drop_first(),
            course.state,
            before.state,
            files,
        );
    }
}

/// Whether a state differs from another in that one candidate is not looked at
/// yet, and has what that costs in hand.
spec fn owes(
    root: Seq<char>,
    state: ProbeState,
    other: ProbeState,
    candidate: Seq<char>,
    files: Files,
) -> bool {
    &&& !judged(root, candidate, files).0
    &&& !state.cached.contains_key(candidate)
    &&& other.cached == state.cached.insert(candidate, false)
    &&& state.inspections >= other.inspections + judged(root, candidate, files).1.len()
    &&& state.candidates >= other.candidates + 1
}

proof fn lemma_owing_lasts(
    root: Seq<char>,
    candidates: Seq<Seq<char>>,
    state: ProbeState,
    other: ProbeState,
    candidate: Seq<char>,
    files: Files,
)
    requires
        owes(root, state, other, candidate, files),
        spent(root, candidates, other, files) is Some,
    ensures
        spent(root, candidates, state, files) is Some,
    decreases candidates.len(),
{
    if candidates.len() > 0 {
        let next = candidates[0];
        let course = candidate_course(root, next, state, files);
        let before = candidate_course(root, next, other, files);
        if next == candidate {
            assert(other.cached[candidate] == false);
            assert(before.state == other);
            assert(course.state.cached =~= other.cached);
            lemma_no_worse_lasts(
                root,
                candidates.drop_first(),
                course.state,
                before.state,
                files,
            );
        } else {
            if state.cached.contains_key(next) {
                assert(other.cached[next] == state.cached[next]);
            } else {
                assert(before.state.cached =~= course.state.cached.insert(candidate, false));
            }
            lemma_owing_lasts(
                root,
                candidates.drop_first(),
                course.state,
                before.state,
                candidate,
                files,
            );
        }
    }
}

proof fn lemma_without_one(
    root: Seq<char>,
    before: Seq<Seq<char>>,
    candidate: Seq<char>,
    behind: Seq<Seq<char>>,
    state: ProbeState,
    files: Files,
)
    requires
        spent(root, before + seq![candidate] + behind, state, files) is Some,
    ensures
        spent(root, before + behind, state, files) is Some,
{
    let one = seq![candidate];
    lemma_spent_on_both(root, before + one, behind, state, files);
    lemma_spent_on_both(root, before, one, state, files);
    lemma_spent_on_both(root, before, behind, state, files);
    let reached = spent(root, before, state, files)->Some_0;
    let course = candidate_course(root, candidate, reached, files);
    assert(one.drop_first() =~= Seq::<Seq<char>>::empty());
    assert(spent(root, one.drop_first(), course.state, files) == Some(course.state));
    assert(spent(root, one, reached, files) == Some(course.state));
    if !reached.cached.contains_key(candidate) {
        assert(owes(root, reached, course.state, candidate, files));
        lemma_owing_lasts(root, behind, reached, course.state, candidate, files);
    }
}

proof fn lemma_without_some(
    root: Seq<char>,
    before: Seq<Seq<char>>,
    some: Seq<Seq<char>>,
    behind: Seq<Seq<char>>,
    state: ProbeState,
    files: Files,
)
    requires
        spent(root, before + some + behind, state, files) is Some,
    ensures
        spent(root, before + behind, state, files) is Some,
    decreases some.len(),
{
    if some.len() == 0 {
        assert(before + some + behind =~= before + behind);
    } else {
        let rest = some.drop_first();
        assert(before + some + behind =~= before + seq![some[0]] + (rest + behind));
        lemma_without_one(root, before, some[0], rest + behind, state, files);
        assert(before + (rest + behind) =~= before + rest + behind);
        lemma_without_some(root, before, rest, behind, state, files);
    }
}

proof fn lemma_allowed_course(root: Seq<char>, parsed: ParsedView, files: Files)
    ensures
        line_course(root, parsed, files).outcome == Verdict::Decided(DecisionView::Allow) <==> {
            &&& policy_model::syntax_reason(parsed) is None
            &&& forall|i: int|
                0 <= i < parsed.commands.len() ==> is_not_rejected(#[trigger] parsed.commands[i])
            &&& forall|i: int|
                0 <= i < parsed.commands.len() ==> has_no_reason(#[trigger] parsed.commands[i])
            &&& spent(
                root,
                picked(parsed.commands, 0, directories()) + picked(parsed.commands, 0, paths()),
                ProbeState::initial(),
                files,
            ) is Some
        },
{
    let start = ProbeState::initial();
    let hard = hard_course(root, parsed.commands, 0, start, files);
    lemma_hard_spent(root, parsed.commands, 0, start, files);
    lemma_simple_spent(root, parsed.commands, 0, hard.state, files);
    lemma_spent_on_both(
        root,
        picked(parsed.commands, 0, directories()),
        picked(parsed.commands, 0, paths()),
        start,
        files,
    );
    lemma_no_allowance(root, parsed.commands, 0, start, files);
    lemma_no_allowance(root, parsed.commands, 0, hard.state, files);
}

proof fn lemma_no_allowance(
    root: Seq<char>,
    commands: Seq<Seq<Seq<char>>>,
    at: int,
    state: ProbeState,
    files: Files,
)
    ensures
        hard_course(root, commands, at, state, files).outcome != Verdict::Decided(
            DecisionView::Allow,
        ),
        simple_course(root, commands, at, state, files).outcome != Verdict::Decided(
            DecisionView::Allow,
        ),
    decreases commands.len() - at,
{
    if 0 <= at < commands.len() {
        lemma_no_allowance(root, commands, at + 1, state, files);
        if let HardRule::ChangeDirectory(directory) = policy_model::hard_rule(commands[at]) {
            let first = candidate_course(root, directory, state, files);
            lemma_no_allowance(root, commands, at + 1, first.state, files);
        }
        if commands[at].len() > 0 {
            let named = policy_model::named_paths(commands[at][0], commands[at].skip(1));
            let first = candidates_course(root, named, 0, state, files);
            lemma_no_allowance(root, commands, at + 1, first.state, files);
        }
    }
}

proof fn lemma_parts_are_allowed(root: Seq<char>, first: ParsedView, second: ParsedView, files: Files)
    requires
        line_course(root, shell_laws::read_together(first, second), files).outcome
            == Verdict::Decided(DecisionView::Allow),
    ensures
        line_course(root, first, files).outcome == Verdict::Decided(DecisionView::Allow),
        line_course(root, second, files).outcome == Verdict::Decided(DecisionView::Allow),
{
    let whole = shell_laws::read_together(first, second);
    let start = ProbeState::initial();
    lemma_allowed_course(root, whole, files);
    lemma_allowed_course(root, first, files);
    lemma_allowed_course(root, second, files);
    assert forall|i: int| 0 <= i < first.commands.len() implies is_not_rejected(
        #[trigger] first.commands[i],
    ) && has_no_reason(first.commands[i]) by {
        assert(whole.commands[i] == first.commands[i]);
    }
    assert forall|i: int| 0 <= i < second.commands.len() implies is_not_rejected(
        #[trigger] second.commands[i],
    ) && has_no_reason(second.commands[i]) by {
        assert(whole.commands[first.commands.len() + i] == second.commands[i]);
    }
    lemma_picked_from_both(first.commands, second.commands, 0, directories());
    lemma_picked_from_both(first.commands, second.commands, 0, paths());
    let first_hard = picked(first.commands, 0, directories());
    let second_hard = picked(second.commands, 0, directories());
    let first_simple = picked(first.commands, 0, paths());
    let second_simple = picked(second.commands, 0, paths());
    let none = Seq::<Seq<char>>::empty();
    let all = (first_hard + second_hard) + (first_simple + second_simple);
    assert(all =~= first_hard + second_hard + (first_simple + second_simple));
    lemma_without_some(
        root,
        first_hard,
        second_hard,
        first_simple + second_simple,
        start,
        files,
    );
    assert(first_hard + (first_simple + second_simple) =~= (first_hard + first_simple)
        + second_simple + none);
    lemma_without_some(root, first_hard + first_simple, second_simple, none, start, files);
    assert(first_hard + first_simple + none =~= first_hard + first_simple);
    assert(all =~= none + first_hard + (second_hard + first_simple + second_simple));
    lemma_without_some(
        root,
        none,
        first_hard,
        second_hard + first_simple + second_simple,
        start,
        files,
    );
    assert(none + (second_hard + first_simple + second_simple) =~= second_hard + first_simple
        + second_simple);
    lemma_without_some(root, second_hard, first_simple, second_simple, start, files);
}

spec fn are_blank(words: Seq<Seq<char>>) -> bool {
    forall|i: int| 0 <= i < words.len() ==> text::is_blank(#[trigger] words[i])
}

spec fn has_read_blanks(state: ShellState) -> bool {
    &&& state.quote == Quote::Unquoted
    &&& text::is_blank(state.word)
    &&& are_blank(state.words)
    &&& forall|i: int|
        0 <= i < state.parsed.commands.len() ==> are_blank(#[trigger] state.parsed.commands[i])
}

proof fn lemma_blanks_are_read(line: Seq<char>, at: int, state: ShellState)
    requires
        text::is_blank(line),
        has_read_blanks(state),
    ensures
        shell::parse_from(line, at, state) matches Ok(parsed) ==> forall|i: int|
            0 <= i < parsed.commands.len() ==> are_blank(#[trigger] parsed.commands[i]),
    decreases line.len() - at,
{
    if at < 0 || at >= line.len() {
    } else {
        assert(text::is_whitespace(line[at]));
        if let Ok((next, width)) = state.step(line[at], shell::char_at(line, at + 1)) {
            assert(has_read_blanks(next));
            lemma_blanks_are_read(line, at + width, next);
        }
    }
}

proof fn lemma_low_risk_programs_are_not_blank(words: Seq<Seq<char>>)
    requires
        has_no_reason(words),
    ensures
        !text::is_blank(words[0]),
{
    reveal_strlit("pwd");
    reveal_strlit("command");
    reveal_strlit("echo");
    reveal_strlit("printf");
    reveal_strlit("true");
    reveal_strlit("false");
    reveal_strlit("git");
    reveal_strlit("cargo");
    reveal_strlit("rg");
    reveal_strlit("ls");
    reveal_strlit("cat");
    reveal_strlit("grep");
    reveal_strlit("head");
    reveal_strlit("tail");
    reveal_strlit("wc");
    reveal_strlit("stat");
    reveal_strlit("file");
    reveal_strlit("find");
    reveal_strlit("sed");
    let program = words[0];
    assert(policy_model::is_low_risk_builtin(program, words.skip(1))
        || policy_model::is_low_risk_external_program(program));
    assert(program.len() > 0 && !text::is_whitespace(program[0]));
}

proof fn lemma_encoded_len_of_both(first: Seq<char>, second: Seq<char>)
    ensures
        vstd::utf8::encode_utf8(first + second).len() == vstd::utf8::encode_utf8(first).len()
            + vstd::utf8::encode_utf8(second).len(),
    decreases first.len(),
{
    if first.len() == 0 {
        assert(first + second =~= second);
    } else {
        assert((first + second).drop_first() =~= first.drop_first() + second);
        assert((first + second)[0] == first[0]);
        lemma_encoded_len_of_both(first.drop_first(), second);
    }
}

proof fn lemma_part_is_valid(root: Seq<char>, part: Seq<char>, files: Files)
    requires
        shell::parse(part) is Ok,
        line_course(root, shell::parse(part)->Ok_0, files).outcome == Verdict::Decided(
            DecisionView::Allow,
        ),
        vstd::utf8::encode_utf8(part).len() <= command_input::MAX_COMMAND_BYTES,
    ensures
        settled(root, part, files) == Verdict::Decided(DecisionView::Allow),
{
    let parsed = shell::parse(part)->Ok_0;
    shell::law_readings_are_bounded(part);
    lemma_allowed_course(root, parsed, files);
    assert(has_no_reason(parsed.commands[0]));
    lemma_low_risk_programs_are_not_blank(parsed.commands[0]);
    if text::is_blank(part) {
        lemma_blanks_are_read(part, 0, ShellState::initial());
        assert(are_blank(parsed.commands[0]));
    }
    lemma_settled(root, part, files, Seq::empty());
}

/// Composition hides nothing: where a line of two parts is allowed, and the
/// files stay as they are, each part is allowed by itself. The parts must be
/// readable by themselves, and the first must not end in a backslash, which
/// would take the separator away.
pub proof fn law_parts_of_allowed_compositions_are_allowed(
    root: Seq<char>,
    first: Seq<char>,
    second: Seq<char>,
    files: Files,
)
    requires
        shell::parse(first) is Ok,
        shell::parse(second) is Ok,
        first.len() > 0 ==> first.last() != '\\',
        settled(root, shell_laws::composed(first, second), files) == Verdict::Decided(
            DecisionView::Allow,
        ),
    ensures
        settled(root, first, files) == Verdict::Decided(DecisionView::Allow),
        settled(root, second, files) == Verdict::Decided(DecisionView::Allow),
{
    let line = shell_laws::composed(first, second);
    assert(command_input::text_error(line) is None);
    assert(shell::parse(line) is Ok);
    lemma_settled(root, line, files, Seq::empty());
    lemma_allowed_course(root, shell::parse(line)->Ok_0, files);
    shell_laws::law_compositions_are_read_in_parts(first, second);
    lemma_parts_are_allowed(
        root,
        shell::parse(first)->Ok_0,
        shell::parse(second)->Ok_0,
        files,
    );
    lemma_encoded_len_of_both(first + seq![';', ' '], second);
    lemma_encoded_len_of_both(first, seq![';', ' ']);
    lemma_part_is_valid(root, first, files);
    lemma_part_is_valid(root, second, files);
}

/// With all lookups answered by the files the policy decides.
pub proof fn law_settled_commands_are_decided(root: Seq<char>, command: Seq<char>, files: Files)
    ensures
        settled(root, command, files) is Decided,
{
    lemma_settled_is_decided(root, command, files, Seq::empty());
}

proof fn lemma_settled_is_decided(
    root: Seq<char>,
    command: Seq<char>,
    files: Files,
    answers: Seq<AnswerView>,
)
    requires
        answers.len() <= MAX_WORKSPACE_PATH_INSPECTIONS,
    ensures
        settled_from(root, command, files, answers) is Decided,
    decreases MAX_WORKSPACE_PATH_INSPECTIONS - answers.len(),
{
    if answers.len() == MAX_WORKSPACE_PATH_INSPECTIONS {
        policy_laws::law_lookups_are_bounded(root, command, answers);
    } else {
        policy_laws::law_verdicts_decide_or_ask(root, command, answers);
        if let Verdict::Pending(request) = policy_model::verdict(root, command, answers) {
            lemma_settled_is_decided(root, command, files, answers.push(files(request)));
        }
    }
}

} // verus!
