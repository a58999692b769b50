//! What holds of the paths that a command names, and of what is looked up for them.

use crate::io_failure::ErrorKind;
use crate::path;
use crate::path::ComponentView;
use crate::path_text_laws;
use crate::policy_laws;
use crate::policy_model;
use crate::policy_model::{
    AnswerView, DecisionView, HardRule, InspectionView, Probe, ProbeState, RequestView, Verdict,
};
use crate::shell;
use crate::text;
use crate::text_laws;
use vstd::prelude::*;

verus! {

/// Whether a path stays in the workspace by its text: it begins with no `~`, no
/// `..` stands between its slashes, and where it starts at the root of the file
/// system it has the steps of the workspace first.
pub open spec fn stays_inside(root: Seq<char>, word: Seq<char>) -> bool {
    &&& word.len() > 0 ==> word[0] != '~'
    &&& !text::split(word, '/').contains(".."@)
    &&& word.len() > 0 && word[0] == '/' ==> path::components(root).is_prefix_of(
        path::components(word),
    )
}

pub proof fn lemma_stays_inside(root: Seq<char>, word: Seq<char>)
    requires
        !policy_model::escapes_by_text(root, word),
    ensures
        stays_inside(root, word),
{
    path_text_laws::law_parent_steps_are_two_dots(word);
}

/// Whether `--` stands among the arguments before `at`.
pub open spec fn is_behind_dashes(words: Seq<Seq<char>>, at: int) -> bool {
    exists|before: int| 1 <= before < at && #[trigger] words[before] == "--"@
}

proof fn lemma_argument_path(arguments: Seq<Seq<char>>, at: int, count: int)
    requires
        0 <= at < count <= arguments.len(),
    ensures
        arguments.take(at).contains("--"@) ==> policy_model::argument_paths(
            arguments,
            count,
        ).contains(arguments[at]),
        !arguments.take(at).contains("--"@) && arguments[at] != "--"@ ==> (
        policy_model::path_candidate(arguments[at]) matches Some(candidate)
            ==> policy_model::argument_paths(arguments, count).contains(candidate)),
    decreases count,
{
    let earlier = policy_model::argument_paths(arguments, count - 1);
    let all = policy_model::argument_paths(arguments, count);
    if at < count - 1 {
        lemma_argument_path(arguments, at, count - 1);
        assert forall|wanted: Seq<char>| earlier.contains(wanted) implies #[trigger] all.contains(
            wanted,
        ) by {
            let i = choose|i: int| 0 <= i < earlier.len() && earlier[i] == wanted;
            assert(all[i] == wanted);
        }
    } else {
        if all.len() > 0 {
            assert(all.contains(all.last()));
        }
    }
}

proof fn lemma_dashes(words: Seq<Seq<char>>, at: int)
    requires
        1 <= at < words.len(),
    ensures
        is_behind_dashes(words, at) <==> words.skip(1).take(at - 1).contains("--"@),
{
    let front = words.skip(1).take(at - 1);
    if is_behind_dashes(words, at) {
        let before = choose|before: int| 1 <= before < at && #[trigger] words[before] == "--"@;
        assert(front[before - 1] == "--"@);
    }
    if front.contains("--"@) {
        let i = choose|i: int| 0 <= i < front.len() && front[i] == "--"@;
        assert(words[i + 1] == "--"@);
    }
}

proof fn lemma_named(root: Seq<char>, words: Seq<Seq<char>>, wanted: Seq<char>)
    requires
        policy_laws::is_low_risk(root, words),
        policy_model::argument_paths(words.skip(1), words.len() - 1).contains(wanted),
    ensures
        stays_inside(root, wanted),
{
    let arguments = words.skip(1);
    let paths = policy_model::argument_paths(arguments, arguments.len() as int);
    let named = policy_model::named_paths(words[0], arguments);
    let i = choose|i: int| 0 <= i < paths.len() && paths[i] == wanted;
    let shift = named.len() - paths.len();
    assert(named[shift + i] == paths[i]);
    lemma_stays_inside(root, wanted);
}

/// In a command that is allowed without an approval, every argument that is no
/// option stays in the workspace by its text, everything behind `--` does, and so
/// does the value of every long option.
pub proof fn law_allowed_arguments_stay_inside(
    root: Seq<char>,
    command: Seq<char>,
    answers: Seq<AnswerView>,
    at: int,
    index: int,
)
    requires
        policy_model::verdict(root, command, answers) == Verdict::Decided(DecisionView::Allow),
        shell::parse(command) is Ok ==> 0 <= at < shell::parse(command)->Ok_0.commands.len() && 1
            <= index < shell::parse(command)->Ok_0.commands[at].len(),
    ensures
        ({
            let words = shell::parse(command)->Ok_0.commands[at];
            let word = words[index];
            &&& is_behind_dashes(words, index) ==> stays_inside(root, word)
            &&& word.len() > 0 && word[0] != '-' && word != "."@ ==> stays_inside(root, word)
            &&& forall|name: Seq<char>, value: Seq<char>|
                word == #[trigger] (name.push('=') + value) && "--"@.is_prefix_of(name)
                    && !name.contains('=') && value.len() > 0 && value[0] != '-' && value != "."@
                    && !is_behind_dashes(words, index) ==> stays_inside(root, value)
        }),
{
    reveal_strlit("--");
    policy_laws::law_allowed_commands_are_low_risk(root, command, answers, at);
    let words = shell::parse(command)->Ok_0.commands[at];
    let word = words[index];
    let arguments = words.skip(1);
    assert(arguments[index - 1] == word);
    lemma_dashes(words, index);
    lemma_argument_path(arguments, index - 1, arguments.len() as int);
    if is_behind_dashes(words, index) {
        lemma_named(root, words, word);
    } else {
        if word.len() > 0 && word[0] != '-' && word != "."@ {
            if "--"@.is_prefix_of(word) {
                assert(word.subrange(0, 2)[0] == word[0]);
            }
            assert(policy_model::path_candidate(word) == Some(word));
            lemma_named(root, words, word);
        }
        assert forall|name: Seq<char>, value: Seq<char>|
            word == #[trigger] (name.push('=') + value) && "--"@.is_prefix_of(name)
                && !name.contains('=') && value.len() > 0 && value[0] != '-' && value
                != "."@ implies stays_inside(root, value) by {
            text_laws::law_texts_are_cut_where_they_were_joined(name, '=', value);
            assert(word.subrange(0, 2) =~= name.subrange(0, 2));
            assert("--"@.is_prefix_of(word));
            assert(policy_model::path_candidate(word) == Some(value));
            assert(word.len() > 2);
            lemma_named(root, words, value);
        }
    }
}

/// Whether an answer to a lookup says that the path leads out of the workspace, or
/// that this cannot be known: a link to another place, or anything but a file, a
/// link or nothing at all.
pub open spec fn leads_out(root: Seq<char>, request: RequestView, answer: AnswerView) -> bool {
    match (request, answer) {
        (RequestView::Inspect(_), AnswerView::Symlink) => false,
        (RequestView::Inspect(_), AnswerView::Present) => false,
        (RequestView::Inspect(_), AnswerView::Failed(kind)) => kind != ErrorKind::NotFound && kind
            != ErrorKind::NotADirectory,
        (RequestView::Inspect(_), _) => true,
        (RequestView::Follow(_), AnswerView::Resolved(target)) => !path::components(
            root,
        ).is_prefix_of(path::components(target)),
        (RequestView::Follow(_), _) => true,
    }
}

proof fn lemma_inspect_out(
    root: Seq<char>,
    state: ProbeState,
    entered: Seq<char>,
    answers: Seq<AnswerView>,
    answer: AnswerView,
)
    requires
        state.used <= answers.len(),
    ensures
        policy_model::inspect(state, entered, answers).0.used <= answers.len(),
        policy_model::inspect(state, entered, answers).1 matches Probe::Pending(request)
            && leads_out(root, request, answer) ==> match policy_model::inspect(
            state,
            entered,
            answers + seq![answer],
        ).1 {
            Probe::Known(InspectionView::Inaccessible) => true,
            Probe::Known(InspectionView::Symlink(target)) => !path::is_within(target, root),
            _ => false,
        },
{
    let more = answers + seq![answer];
    assert(more[answers.len() as int] == answer);
    assert(forall|at: int| 0 <= at < answers.len() ==> more[at] == answers[at]);
}

proof fn lemma_walk_out(
    root: Seq<char>,
    parts: Seq<ComponentView>,
    at: int,
    current: Seq<char>,
    state: ProbeState,
    answers: Seq<AnswerView>,
    answer: AnswerView,
)
    requires
        policy_laws::is_accounted(root, state),
        state.used <= answers.len(),
    ensures
        policy_model::walk_escapes(root, parts, at, current, state, answers).0.used
            <= answers.len(),
        policy_model::walk_escapes(root, parts, at, current, state, answers).1 matches
            Probe::Pending(request) && leads_out(root, request, answer)
            ==> policy_model::walk_escapes(
            root,
            parts,
            at,
            current,
            state,
            answers + seq![answer],
        ).1 == Probe::Known(true),
    decreases parts.len() - at,
{
    if 0 <= at < parts.len() {
        match parts[at] {
            ComponentView::CurDir => {
                lemma_walk_out(root, parts, at + 1, current, state, answers, answer);
            },
            ComponentView::Normal(name) => {
                let entered = path::joined(current, name);
                policy_laws::lemma_inspect(root, state, entered, answers, seq![answer]);
                lemma_inspect_out(root, state, entered, answers, answer);
                let (next, found) = policy_model::inspect(state, entered, answers);
                match found {
                    Probe::Known(InspectionView::Existing) => {
                        lemma_walk_out(root, parts, at + 1, entered, next, answers, answer);
                    },
                    Probe::Known(InspectionView::Symlink(target)) => {
                        lemma_walk_out(root, parts, at + 1, target, next, answers, answer);
                    },
                    _ => {},
                }
            },
            _ => {},
        }
    }
}

proof fn lemma_candidate_out(
    root: Seq<char>,
    candidate: Seq<char>,
    state: ProbeState,
    answers: Seq<AnswerView>,
    answer: AnswerView,
)
    requires
        policy_laws::is_accounted(root, state),
        state.used <= answers.len(),
    ensures
        policy_model::classify_candidate(root, candidate, state, answers).0.used <= answers.len(),
        policy_model::classify_candidate(root, candidate, state, answers).1 matches
            Probe::Pending(request) && leads_out(root, request, answer)
            ==> policy_model::classify_candidate(
            root,
            candidate,
            state,
            answers + seq![answer],
        ).1 == Probe::Known(true),
{
    if !state.cached.contains_key(candidate) && state.candidates > 0 {
        let begun = ProbeState { candidates: (state.candidates - 1) as nat, ..state };
        assert(policy_laws::is_accounted(root, begun));
        let resolved = path::joined(root, candidate);
        if !policy_model::escapes_by_text(root, candidate) && path::components_below(
            resolved,
            root,
        ) is Some {
            lemma_walk_out(
                root,
                path::components_below(resolved, root)->Some_0,
                0,
                root,
                begun,
                answers,
                answer,
            );
        }
    }
}

proof fn lemma_candidates_out(
    root: Seq<char>,
    candidates: Seq<Seq<char>>,
    at: int,
    state: ProbeState,
    answers: Seq<AnswerView>,
    answer: AnswerView,
)
    requires
        policy_laws::is_accounted(root, state),
        state.used <= answers.len(),
        0 <= at <= candidates.len(),
    ensures
        policy_model::classify_candidates(root, candidates, at, state, answers).0.used
            <= answers.len(),
        policy_model::classify_candidates(root, candidates, at, state, answers).1 matches
            Probe::Pending(request) && leads_out(root, request, answer)
            ==> policy_model::classify_candidates(
            root,
            candidates,
            at,
            state,
            answers + seq![answer],
        ).1 == Probe::Known(true),
    decreases candidates.len() - at,
{
    if at < candidates.len() {
        policy_laws::lemma_candidate(root, candidates[at], state, answers, seq![answer]);
        lemma_candidate_out(root, candidates[at], state, answers, answer);
        let (next, found) = policy_model::classify_candidate(root, candidates[at], state, answers);
        if found == Probe::Known(false) {
            lemma_candidates_out(root, candidates, at + 1, next, answers, answer);
        }
    }
}

/// The two decisions on a command that leads out of the workspace.
pub open spec fn is_kept_inside(verdict: Verdict) -> bool {
    ||| verdict == Verdict::Decided(
        DecisionView::RequiresApproval("command may access a path outside the workspace"@),
    )
    ||| verdict == Verdict::Decided(
        DecisionView::Reject("command changes its working directory outside the workspace"@),
    )
}

proof fn lemma_hard_out(
    root: Seq<char>,
    commands: Seq<Seq<Seq<char>>>,
    at: int,
    state: ProbeState,
    answers: Seq<AnswerView>,
    answer: AnswerView,
)
    requires
        policy_laws::is_accounted(root, state),
        state.used <= answers.len(),
        0 <= at <= commands.len(),
    ensures
        policy_model::hard_verdicts(root, commands, at, state, answers).0.used <= answers.len(),
        policy_model::hard_verdicts(root, commands, at, state, answers).1 matches
            Verdict::Pending(request) && leads_out(root, request, answer) ==> is_kept_inside(
            policy_model::hard_verdicts(root, commands, at, state, answers + seq![answer]).1,
        ),
    decreases commands.len() - at,
{
    if at < commands.len() {
        policy_laws::lemma_hard_verdicts(root, commands, at, state, answers, seq![answer]);
        if let HardRule::ChangeDirectory(directory) = policy_model::hard_rule(commands[at]) {
            policy_laws::lemma_candidate(root, directory, state, answers, seq![answer]);
            lemma_candidate_out(root, directory, state, answers, answer);
        }
        let (next, verdict) = policy_model::hard_verdict(root, commands[at], state, answers);
        if verdict is Pass {
            lemma_hard_out(root, commands, at + 1, next, answers, answer);
        }
    }
}

proof fn lemma_simple_out(
    root: Seq<char>,
    commands: Seq<Seq<Seq<char>>>,
    at: int,
    state: ProbeState,
    answers: Seq<AnswerView>,
    answer: AnswerView,
)
    requires
        policy_laws::is_accounted(root, state),
        state.used <= answers.len(),
        0 <= at <= commands.len(),
    ensures
        policy_model::simple_verdicts(root, commands, at, state, answers).0.used <= answers.len(),
        policy_model::simple_verdicts(root, commands, at, state, answers).1 matches
            Verdict::Pending(request) && leads_out(root, request, answer) ==> is_kept_inside(
            policy_model::simple_verdicts(root, commands, at, state, answers + seq![answer]).1,
        ),
    decreases commands.len() - at,
{
    if at < commands.len() {
        let words = commands[at];
        if words.len() > 0 {
            let named = policy_model::named_paths(words[0], words.skip(1));
            policy_laws::lemma_candidates(root, named, 0, state, answers, seq![answer]);
            lemma_candidates_out(root, named, 0, state, answers, answer);
        }
        let (next, verdict) = policy_model::simple_verdict(root, words, state, answers);
        if verdict is Pass {
            lemma_simple_out(root, commands, at + 1, next, answers, answer);
        }
    }
}

/// Where a lookup that the policy asked for finds a link out of the workspace, or
/// cannot tell what is there, the command is not allowed: it needs an approval, or
/// is rejected where it would change its working directory.
pub proof fn law_commands_that_lead_out_are_kept_inside(
    root: Seq<char>,
    command: Seq<char>,
    answers: Seq<AnswerView>,
    request: RequestView,
    answer: AnswerView,
)
    requires
        policy_model::verdict(root, command, answers) == Verdict::Pending(request),
        leads_out(root, request, answer),
    ensures
        is_kept_inside(policy_model::verdict(root, command, answers + seq![answer])),
{
    if let Ok(parsed) = shell::parse(command) {
        let start = ProbeState::initial();
        assert(policy_laws::is_accounted(root, start));
        policy_laws::lemma_hard_verdicts(root, parsed.commands, 0, start, answers, seq![answer]);
        lemma_hard_out(root, parsed.commands, 0, start, answers, answer);
        let (state, hard) = policy_model::hard_verdicts(root, parsed.commands, 0, start, answers);
        if hard is Pass {
            policy_laws::lemma_simple_verdicts(
                root,
                parsed.commands,
                0,
                state,
                answers,
                seq![answer],
            );
            lemma_simple_out(root, parsed.commands, 0, state, answers, answer);
        }
    }
}

} // verus!
