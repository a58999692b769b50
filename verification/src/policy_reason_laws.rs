//! What the policy decides on commands, told by their words alone.

use crate::command_input;
use crate::io_failure::ErrorKind;
use crate::path;
use crate::path::ComponentView;
use crate::path_text_laws;
use crate::policy_model;
use crate::policy_model::{
    AnswerView, DecisionView, HardRule, PathOption, Probe, ProbeState, Verdict,
};
use crate::shell;
use crate::text;
use vstd::prelude::*;

verus! {

/// Whether a word is the plain name of something in the workspace: one step, and
/// no option.
pub open spec fn is_plain(word: Seq<char>) -> bool {
    &&& word.len() > 0
    &&& !word.contains('/')
    &&& !word.contains('%')
    &&& word != "."@ && word != ".."@
    &&& word[0] != '~' && word[0] != '-'
}

/// Whether the words of a command behind its program are plain.
pub open spec fn has_plain_arguments(words: Seq<Seq<char>>) -> bool {
    forall|i: int| 1 <= i < words.len() ==> is_plain(#[trigger] words[i])
}

/// Whether nothing was found by any lookup.
pub open spec fn finds_nothing(answers: Seq<AnswerView>) -> bool {
    forall|i: int|
        0 <= i < answers.len() ==> #[trigger] answers[i] == AnswerView::Failed(ErrorKind::NotFound)
}

/// A command of these words as a line, where it is not too long.
pub open spec fn is_line(words: Seq<Seq<char>>) -> bool {
    &&& 1 <= words.len() <= 250
    &&& forall|i: int| 0 <= i < words.len() ==> !(#[trigger] words[i]).contains('\'')
    &&& vstd::utf8::encode_utf8(shell::quoted_line(words)).len() <= command_input::MAX_COMMAND_BYTES
}

proof fn lemma_quoted_begins(words: Seq<Seq<char>>)
    requires
        words.len() > 0,
    ensures
        shell::quoted_line(words).len() > 0,
        shell::quoted_line(words)[0] == '\'',
    decreases words.len(),
{
    if words.len() > 1 {
        lemma_quoted_begins(words.drop_last());
    }
}

pub proof fn lemma_quoted(root: Seq<char>, words: Seq<Seq<char>>, answers: Seq<AnswerView>)
    requires
        is_line(words),
    ensures
        ({
            let line = shell::quoted_line(words);
            let start = ProbeState::initial();
            let (state, hard) = policy_model::hard_verdict(root, words, start, answers);
            policy_model::verdict(root, line, answers) == match hard {
                Verdict::Pass => match policy_model::simple_verdict(root, words, state, answers).1 {
                    Verdict::Pass => Verdict::Decided(DecisionView::Allow),
                    verdict => verdict,
                },
                verdict => verdict,
            }
        }),
{
    let line = shell::quoted_line(words);
    lemma_quoted_begins(words);
    assert(!text::is_whitespace(line[0]));
    assert(command_input::text_error(line) is None);
    shell::law_quoted_words_are_read_back(words);
    let parsed = shell::parse(line)->Ok_0;
    let start = ProbeState::initial();
    assert(parsed.commands == seq![words]);
    assert(parsed.commands[0] == words);
    reveal_with_fuel(policy_model::hard_verdicts, 2);
    reveal_with_fuel(policy_model::simple_verdicts, 2);
    let (state, hard) = policy_model::hard_verdict(root, words, start, answers);
    assert(policy_model::hard_verdicts(root, parsed.commands, 0, start, answers) == (state, hard));
    let (next, simple) = policy_model::simple_verdict(root, words, state, answers);
    assert(policy_model::simple_verdicts(root, parsed.commands, 0, state, answers) == (
        next,
        simple,
    ));
}

pub proof fn lemma_plain_name(word: Seq<char>)
    requires
        is_plain(word),
    ensures
        policy_model::program_basename(word) == word,
        !path::is_absolute(word),
        !path::has_parent_step(word),
        path::components(word) == seq![ComponentView::Normal(word)],
{
    reveal_strlit("");
    path_text_laws::law_a_name_is_one_step(word);
    path_text_laws::law_file_names_stand_behind_the_last_slash(Seq::empty(), word);
    if path::is_absolute(word) {
        assert(word.contains(word[0]));
    }
    assert(path::components(word)[0] == ComponentView::Normal(word));
}

proof fn lemma_below(root: Seq<char>, word: Seq<char>)
    requires
        root.len() > 0,
        is_plain(word),
    ensures
        path::components_below(path::joined(root, word), root) == Some(
            seq![ComponentView::Normal(word)],
        ),
{
    reveal_strlit("");
    lemma_plain_name(word);
    let none = Seq::<char>::empty();
    let head = if root.last() == '/' {
        root.drop_last()
    } else {
        root
    };
    assert(path::joined(root, word) =~= head.push('/') + word);
    path_text_laws::law_steps_go_on_behind_a_slash(head, word);
    if root.last() == '/' {
        assert(root =~= head.push('/') + none);
        assert(!none.contains('/'));
        path_text_laws::law_steps_go_on_behind_a_slash(head, none);
        assert(none =~= ""@);
    }
    let parts = path::components(path::joined(root, word));
    assert(parts =~= path::components(root) + seq![ComponentView::Normal(word)]);
    assert(path::components(root).is_prefix_of(parts));
    assert(parts.skip(path::components(root).len() as int) =~= seq![ComponentView::Normal(word)]);
}

/// Whether a budget has room for `count` more names, none of which is known to lead
/// out.
spec fn has_room(state: ProbeState, answers: Seq<AnswerView>, count: int) -> bool {
    &&& state.candidates >= count
    &&& state.inspections >= count
    &&& state.used + count <= answers.len()
    &&& forall|candidate: Seq<char>| #[trigger]
        state.cached.contains_key(candidate) ==> !state.cached[candidate]
}

proof fn lemma_plain_candidate(
    root: Seq<char>,
    word: Seq<char>,
    state: ProbeState,
    answers: Seq<AnswerView>,
    count: int,
)
    requires
        root.len() > 0,
        is_plain(word),
        finds_nothing(answers),
        count >= 1,
        has_room(state, answers, count),
    ensures
        policy_model::classify_candidate(root, word, state, answers).1 == Probe::Known(false),
        has_room(
            policy_model::classify_candidate(root, word, state, answers).0,
            answers,
            count - 1,
        ),
{
    lemma_plain_name(word);
    lemma_below(root, word);
    if !state.cached.contains_key(word) {
        let begun = ProbeState { candidates: (state.candidates - 1) as nat, ..state };
        let parts = seq![ComponentView::Normal(word)];
        assert(parts[0] == ComponentView::Normal(word));
        assert(answers[begun.used as int] == AnswerView::Failed(ErrorKind::NotFound));
        reveal_with_fuel(policy_model::walk_escapes, 2);
        assert(policy_model::walk_escapes(root, parts, 0, root, begun, answers) == (
            begun.after_answer(),
            Probe::Known(false),
        ));
    }
}

proof fn lemma_plain_candidates(
    root: Seq<char>,
    candidates: Seq<Seq<char>>,
    at: int,
    state: ProbeState,
    answers: Seq<AnswerView>,
)
    requires
        root.len() > 0,
        0 <= at <= candidates.len(),
        forall|i: int| 0 <= i < candidates.len() ==> is_plain(#[trigger] candidates[i]),
        finds_nothing(answers),
        has_room(state, answers, candidates.len() - at),
    ensures
        policy_model::classify_candidates(root, candidates, at, state, answers).1 == Probe::Known(
            false,
        ),
    decreases candidates.len() - at,
{
    if at < candidates.len() {
        lemma_plain_candidate(root, candidates[at], state, answers, candidates.len() - at);
        let (next, found) = policy_model::classify_candidate(root, candidates[at], state, answers);
        lemma_plain_candidates(root, candidates, at + 1, next, answers);
    }
}

/// Whether an argument names no path: an option without a value.
pub open spec fn is_bare_option(word: Seq<char>) -> bool {
    word.len() > 0 && word[0] == '-' && word != "--"@ && !word.contains('=') && !word.contains('%')
        && (word.len() > 1 ==> word[1] == '-') && (word.len() > 2 ==> word[2] != 'f' && word[2]
        != 'm' && word[2] != 'e')
}

/// Whether the words of a command behind its program are plain, or options that name
/// no path.
pub open spec fn has_simple_arguments(words: Seq<Seq<char>>) -> bool {
    forall|i: int| 1 <= i < words.len() ==> is_plain(#[trigger] words[i]) || is_bare_option(words[i])
}

proof fn lemma_argument_paths(arguments: Seq<Seq<char>>, count: int)
    requires
        0 <= count <= arguments.len(),
        forall|i: int|
            0 <= i < arguments.len() ==> is_plain(#[trigger] arguments[i]) || is_bare_option(
                arguments[i],
            ),
    ensures
        policy_model::argument_paths(arguments, count).len() <= count,
        forall|i: int|
            0 <= i < policy_model::argument_paths(arguments, count).len() ==> is_plain(
                #[trigger] policy_model::argument_paths(arguments, count)[i],
            ),
    decreases count,
{
    reveal_strlit("--");
    if count > 0 {
        lemma_argument_paths(arguments, count - 1);
        let argument = arguments[count - 1];
        let front = arguments.take(count - 1);
        if front.contains("--"@) {
            let i = choose|i: int| 0 <= i < front.len() && front[i] == "--"@;
            assert(arguments[i] == "--"@);
            assert("--"@[0] == '-');
        }
        if "--"@.is_prefix_of(argument) {
            assert(argument.subrange(0, 2)[0] == argument[0]);
            text::lemma_first_position(argument, '=', 0);
            if let Some(position) = text::first_position(argument, '=', 0) {
                assert(argument.contains(argument[position]));
            }
        }
    }
}

proof fn lemma_option_paths(arguments: Seq<Seq<char>>, option: PathOption, count: int)
    requires
        0 <= count <= arguments.len(),
        forall|i: int|
            0 <= i < arguments.len() ==> is_plain(#[trigger] arguments[i]) || is_bare_option(
                arguments[i],
            ),
        option.short == seq!['f'] || option.short == seq!['m', 'M'] || option.short == seq!['X'],
        option.long == "--file"@ || option.long == "--magic-file"@ || option.long
            == "--exclude-from"@,
    ensures
        policy_model::option_paths(arguments, option, count).len() == 0,
    decreases count,
{
    reveal_strlit("--");
    reveal_strlit("--file");
    reveal_strlit("--magic-file");
    reveal_strlit("--exclude-from");
    if count > 0 {
        lemma_option_paths(arguments, option, count - 1);
        let argument = arguments[count - 1];
        text::lemma_first_position(argument, '=', 0);
        let name = text::before(argument, '=');
        if "--"@.is_prefix_of(name) && name.len() > 2 && name.is_prefix_of(option.long) {
            assert(name.subrange(0, 2)[0] == name[0]);
            assert(name[0] == argument[0] && name[2] == argument[2]);
            assert(option.long.subrange(0, name.len() as int)[2] == option.long[2]);
        }
        if argument[0] == '-' && argument.len() > 1 {
            assert(argument[1] == '-');
            assert(argument.subrange(0, 2) =~= "--"@);
            assert("--"@.is_prefix_of(argument));
            if let Some(position) = text::first_position(argument, '=', 0) {
                assert(argument.contains(argument[position]));
            }
        }
        if argument.len() == 2 {
            assert(!option.short.contains('-')) by {
                if option.short.contains('-') {
                    let i = choose|i: int| 0 <= i < option.short.len() && option.short[i] == '-';
                }
            }
        }
        assert(policy_model::option_position(argument, option.short, argument.len() as int)
            is None);
        if argument.len() == 1 {
            assert(policy_model::option_position(argument, option.short, 1) is None);
        }
        assert(policy_model::option_value(arguments, count - 1, option) is None);
    }
}

proof fn lemma_named_paths(words: Seq<Seq<char>>)
    requires
        words.len() > 0,
        has_simple_arguments(words),
    ensures
        policy_model::named_paths(words[0], words.skip(1)).len() < words.len(),
        forall|i: int|
            0 <= i < policy_model::named_paths(words[0], words.skip(1)).len() ==> is_plain(
                #[trigger] policy_model::named_paths(words[0], words.skip(1))[i],
            ),
{
    let arguments = words.skip(1);
    assert forall|i: int| 0 <= i < arguments.len() implies is_plain(#[trigger] arguments[i])
        || is_bare_option(arguments[i]) by {
        assert(arguments[i] == words[i + 1]);
    }
    lemma_argument_paths(arguments, arguments.len() as int);
    if let Some(option) = policy_model::path_option(words[0], arguments) {
        lemma_option_paths(arguments, option, arguments.len() as int);
    }
    let named = policy_model::named_paths(words[0], arguments);
    assert(named =~= policy_model::argument_paths(arguments, arguments.len() as int));
}

/// Whether the hard rules can concern a program of this name.
pub open spec fn is_ruled(program: Seq<char>) -> bool {
    ||| program == "command"@ || program == "exec"@ || program == "env"@
    ||| program == "sudo"@ || program == "doas"@ || program == "su"@
    ||| program == "cd"@
}

pub proof fn lemma_passes(words: Seq<Seq<char>>)
    requires
        words.len() > 0,
        is_plain(words[0]),
        !is_ruled(words[0]),
        has_simple_arguments(words),
    ensures
        policy_model::hard_rule(words) is Pass,
{
    lemma_plain_name(words[0]);
    let arguments = words.skip(1);
    assert(policy_model::wrapped_program_index(words) == Ok::<
        Option<int>,
        policy_model::TransparentWrapperError,
    >(None));
    reveal_with_fuel(policy_model::unwrap_transparent_command_wrappers, 2);
    assert(policy_model::unwrap_transparent_command_wrappers(words, 0) == Ok::<
        Seq<Seq<char>>,
        policy_model::TransparentWrapperError,
    >(words));
    assert forall|i: int| 0 <= i < arguments.len() implies !policy_model::targets_filesystem_root(
        #[trigger] arguments[i],
    ) by {
        assert(arguments[i] == words[i + 1]);
        if is_plain(words[i + 1]) {
            lemma_plain_name(words[i + 1]);
        }
    }
    assert(!policy_model::command_mutates_filesystem_root(words[0], arguments));
}

/// What is decided on a command of plain words, where nothing is found by any
/// lookup.
proof fn lemma_decided(root: Seq<char>, words: Seq<Seq<char>>, answers: Seq<AnswerView>)
    requires
        root.len() > 0,
        is_line(words),
        is_plain(words[0]),
        !is_ruled(words[0]),
        has_simple_arguments(words),
        finds_nothing(answers),
        words.len() <= answers.len(),
    ensures
        ({
            let arguments = words.skip(1);
            policy_model::verdict(root, shell::quoted_line(words), answers) == Verdict::Decided(
                match policy_model::reason_before_paths(words[0], arguments) {
                    Some(reason) => DecisionView::RequiresApproval(reason),
                    None => match policy_model::reason_after_paths(words[0], arguments) {
                        Some(reason) => DecisionView::RequiresApproval(reason),
                        None => DecisionView::Allow,
                    },
                },
            )
        }),
{
    lemma_quoted(root, words, answers);
    lemma_passes(words);
    lemma_named_paths(words);
    let named = policy_model::named_paths(words[0], words.skip(1));
    lemma_plain_candidates(root, named, 0, ProbeState::initial(), answers);
}

/// Whether an argument is no option that the policy knows.
spec fn is_harmless(program: Seq<char>, argument: Seq<char>) -> bool {
    &&& !policy_model::is_uncompress_option(argument)
    &&& !policy_model::is_signature_option(argument)
    &&& !policy_model::is_git_output_option(argument)
    &&& !policy_model::is_git_helper_option(argument)
    &&& !policy_model::is_file_compile_option(argument)
    &&& !policy_model::is_cargo_config_option(argument)
    &&& !policy_model::is_search_helper_option(argument)
    &&& !policy_model::is_following_option(program, argument)
    &&& !policy_model::is_monitor_option(argument)
    &&& !policy_model::is_find_action(argument)
    &&& !"-i"@.is_prefix_of(argument)
    &&& argument != "--fix"@
}

proof fn lemma_no_long_option(argument: Seq<char>, option: Seq<char>)
    requires
        is_plain(argument),
    ensures
        !policy_model::long_option_matches_or_abbreviates(argument, option),
{
    reveal_strlit("--");
    text::lemma_first_position(argument, '=', 0);
    let name = text::before(argument, '=');
    if "--"@.is_prefix_of(name) && name.len() > 2 {
        assert(name.subrange(0, 2)[0] == name[0]);
        assert(name[0] == argument[0]);
    }
}

proof fn lemma_plain_is_harmless(program: Seq<char>, argument: Seq<char>)
    requires
        is_plain(argument),
    ensures
        is_harmless(program, argument),
{
    assert forall|option: Seq<char>| !#[trigger] policy_model::long_option_matches_or_abbreviates(
        argument,
        option,
    ) by {
        lemma_no_long_option(argument, option);
    }
    if policy_model::holds_pair(argument, '%', 'G') {
        let i = choose|i: int|
            0 <= i < argument.len() - 1 && #[trigger] argument[i] == '%' && argument[i + 1] == 'G';
        assert(argument.contains(argument[i]));
    }
    reveal_strlit("--config");
    reveal_strlit("--config=");
    reveal_strlit("-L");
    reveal_strlit("-follow");
    reveal_strlit("-files0-from");
    reveal_strlit("-f");
    reveal_strlit("-i");
    reveal_strlit("--fix");
    reveal_strlit("-delete");
    reveal_strlit("-exec");
    reveal_strlit("-execdir");
    reveal_strlit("-ok");
    reveal_strlit("-okdir");
    reveal_strlit("-fprint");
    reveal_strlit("-fprint0");
    reveal_strlit("-fprintf");
    reveal_strlit("-fls");
    if "--config="@.is_prefix_of(argument) {
        assert(argument.subrange(0, "--config="@.len() as int)[0] == argument[0]);
    }
    if "-files0-from"@.is_prefix_of(argument) {
        assert(argument.subrange(0, "-files0-from"@.len() as int)[0] == argument[0]);
    }
    if "-i"@.is_prefix_of(argument) {
        assert(argument.subrange(0, "-i"@.len() as int)[0] == argument[0]);
    }
}

proof fn lemma_all_harmless(words: Seq<Seq<char>>)
    requires
        words.len() > 0,
        has_plain_arguments(words),
    ensures
        forall|i: int|
            0 <= i < words.skip(1).len() ==> is_harmless(words[0], #[trigger] words.skip(1)[i]),
        has_simple_arguments(words),
{
    let arguments = words.skip(1);
    assert forall|i: int| 0 <= i < arguments.len() implies is_harmless(
        words[0],
        #[trigger] arguments[i],
    ) by {
        assert(arguments[i] == words[i + 1]);
        lemma_plain_is_harmless(words[0], words[i + 1]);
    }
}

/// The programs that read or print, whatever plain names they are given.
pub open spec fn is_reader(program: Seq<char>) -> bool {
    ||| program == "ls"@ || program == "cat"@ || program == "grep"@
    ||| program == "head"@ || program == "tail"@ || program == "wc"@
    ||| program == "stat"@ || program == "file"@ || program == "find"@
    ||| program == "echo"@ || program == "true"@ || program == "false"@
}

/// A program that only reads or prints is allowed without an approval on plain
/// names, where no lookup finds anything that leads out of the workspace.
pub proof fn law_plain_reads_are_allowed(
    root: Seq<char>,
    words: Seq<Seq<char>>,
    answers: Seq<AnswerView>,
)
    requires
        root.len() > 0,
        is_line(words),
        is_reader(words[0]),
        has_plain_arguments(words),
        finds_nothing(answers),
        words.len() <= answers.len(),
    ensures
        policy_model::verdict(root, shell::quoted_line(words), answers) == Verdict::Decided(
            DecisionView::Allow,
        ),
{
    lemma_all_harmless(words);
    lemma_reader(words[0]);
    lemma_decided(root, words, answers);
    let arguments = words.skip(1);
    assert(policy_model::reason_before_paths(words[0], arguments) is None);
    assert(policy_model::mutation_reason(words[0], arguments) is None);
    assert(policy_model::reading_reason(words[0], arguments) is None);
}

/// Whether a program is none that the policy has a rule of its own for, but that it
/// may be low-risk or write files.
spec fn is_ordinary(program: Seq<char>) -> bool {
    &&& program != "git"@ && program != "cargo"@ && program != "rg"@ && program != "printf"@
    &&& program != "sed"@ && program != "rm"@ && program != "pwd"@ && program != "command"@
    &&& !policy_model::is_package_manager(program)
    &&& !policy_model::is_mutating_program(program)
}

proof fn lemma_reader(program: Seq<char>)
    requires
        is_reader(program),
    ensures
        is_plain(program),
        !is_ruled(program),
        is_ordinary(program),
{
    reveal_strlit("ls");
    reveal_strlit("cat");
    reveal_strlit("grep");
    reveal_strlit("head");
    reveal_strlit("tail");
    reveal_strlit("wc");
    reveal_strlit("stat");
    reveal_strlit("file");
    reveal_strlit("find");
    reveal_strlit("echo");
    reveal_strlit("true");
    reveal_strlit("false");
    reveal_strlit("git");
    reveal_strlit("cargo");
    reveal_strlit("rg");
    reveal_strlit("printf");
    reveal_strlit("sed");
    reveal_strlit("rm");
    reveal_strlit("pwd");
    reveal_strlit("command");
    reveal_strlit("exec");
    reveal_strlit("env");
    reveal_strlit("sudo");
    reveal_strlit("doas");
    reveal_strlit("su");
    reveal_strlit("cd");
    reveal_strlit("touch");
    reveal_strlit("mkdir");
    reveal_strlit("cp");
    reveal_strlit("mv");
    reveal_strlit("chmod");
    reveal_strlit("chown");
    reveal_strlit("tee");
    reveal_strlit("npm");
    reveal_strlit("pnpm");
    reveal_strlit("yarn");
    reveal_strlit("pip");
    reveal_strlit("pip3");
    assert("ls"@[0] != "rg"@[0]);
    assert("ls"@[0] != "rm"@[0]);
    assert("ls"@[0] != "su"@[0]);
    assert("ls"@[0] != "cd"@[0]);
    assert("ls"@[0] != "cp"@[0]);
    assert("ls"@[0] != "mv"@[0]);
    assert("cat"@[0] != "git"@[0]);
    assert("cat"@[0] != "sed"@[0]);
    assert("cat"@[0] != "pwd"@[0]);
    assert("cat"@[0] != "env"@[0]);
    assert("cat"@[0] != "tee"@[0]);
    assert("cat"@[0] != "npm"@[0]);
    assert("cat"@[0] != "pip"@[0]);
    assert("grep"@[0] != "exec"@[0]);
    assert("grep"@[0] != "sudo"@[0]);
    assert("grep"@[0] != "doas"@[0]);
    assert("grep"@[0] != "pnpm"@[0]);
    assert("grep"@[0] != "yarn"@[0]);
    assert("grep"@[0] != "pip3"@[0]);
    assert("head"@[0] != "exec"@[0]);
    assert("head"@[0] != "sudo"@[0]);
    assert("head"@[0] != "doas"@[0]);
    assert("head"@[0] != "pnpm"@[0]);
    assert("head"@[0] != "yarn"@[0]);
    assert("head"@[0] != "pip3"@[0]);
    assert("tail"@[0] != "exec"@[0]);
    assert("tail"@[0] != "sudo"@[0]);
    assert("tail"@[0] != "doas"@[0]);
    assert("tail"@[0] != "pnpm"@[0]);
    assert("tail"@[0] != "yarn"@[0]);
    assert("tail"@[0] != "pip3"@[0]);
    assert("wc"@[0] != "rg"@[0]);
    assert("wc"@[0] != "rm"@[0]);
    assert("wc"@[0] != "su"@[0]);
    assert("wc"@[0] != "cd"@[0]);
    assert("wc"@[0] != "cp"@[0]);
    assert("wc"@[0] != "mv"@[0]);
    assert("stat"@[0] != "exec"@[0]);
    assert("stat"@[1] != "sudo"@[1]);
    assert("stat"@[0] != "doas"@[0]);
    assert("stat"@[0] != "pnpm"@[0]);
    assert("stat"@[0] != "yarn"@[0]);
    assert("stat"@[0] != "pip3"@[0]);
    assert("file"@[0] != "exec"@[0]);
    assert("file"@[0] != "sudo"@[0]);
    assert("file"@[0] != "doas"@[0]);
    assert("file"@[0] != "pnpm"@[0]);
    assert("file"@[0] != "yarn"@[0]);
    assert("file"@[0] != "pip3"@[0]);
    assert("find"@[0] != "exec"@[0]);
    assert("find"@[0] != "sudo"@[0]);
    assert("find"@[0] != "doas"@[0]);
    assert("find"@[0] != "pnpm"@[0]);
    assert("find"@[0] != "yarn"@[0]);
    assert("find"@[0] != "pip3"@[0]);
    assert("echo"@[1] != "exec"@[1]);
    assert("echo"@[0] != "sudo"@[0]);
    assert("echo"@[0] != "doas"@[0]);
    assert("echo"@[0] != "pnpm"@[0]);
    assert("echo"@[0] != "yarn"@[0]);
    assert("echo"@[0] != "pip3"@[0]);
    assert("true"@[0] != "exec"@[0]);
    assert("true"@[0] != "sudo"@[0]);
    assert("true"@[0] != "doas"@[0]);
    assert("true"@[0] != "pnpm"@[0]);
    assert("true"@[0] != "yarn"@[0]);
    assert("true"@[0] != "pip3"@[0]);
    assert("false"@[0] != "cargo"@[0]);
    assert("false"@[0] != "touch"@[0]);
    assert("false"@[0] != "mkdir"@[0]);
    assert("false"@[0] != "chmod"@[0]);
    assert("false"@[0] != "chown"@[0]);
    lemma_short_name(program);
}

/// Whether a character is a small letter or a digit.
pub open spec fn is_small(character: char) -> bool {
    'a' <= character <= 'z' || '0' <= character <= '9'
}

pub proof fn lemma_short_name(name: Seq<char>)
    requires
        0 < name.len() <= 9,
        name.len() > 0 ==> is_small(name[0]),
        name.len() > 1 ==> is_small(name[1]),
        name.len() > 2 ==> is_small(name[2]),
        name.len() > 3 ==> is_small(name[3]),
        name.len() > 4 ==> is_small(name[4]),
        name.len() > 5 ==> is_small(name[5]),
        name.len() > 6 ==> is_small(name[6]),
        name.len() > 7 ==> is_small(name[7]),
        name.len() > 8 ==> is_small(name[8]),
    ensures
        is_plain(name),
{
    reveal_strlit(".");
    reveal_strlit("..");
    assert forall|i: int| 0 <= i < name.len() implies is_small(#[trigger] name[i]) by {
        assert(i == 0 || i == 1 || i == 2 || i == 3 || i == 4 || i == 5 || i == 6 || i == 7 || i == 8);
    }
}

/// A program that writes files needs an approval that says so.
pub proof fn law_writing_programs_need_approval(
    root: Seq<char>,
    words: Seq<Seq<char>>,
    answers: Seq<AnswerView>,
)
    requires
        root.len() > 0,
        is_line(words),
        words[0] == "touch"@ || words[0] == "mkdir"@ || words[0] == "cp"@ || words[0] == "mv"@ || words[0] == "chmod"@ || words[0] == "chown"@ || words[0] == "tee"@,
        has_plain_arguments(words),
        finds_nothing(answers),
        words.len() <= answers.len(),
    ensures
        policy_model::verdict(root, shell::quoted_line(words), answers) == Verdict::Decided(
            DecisionView::RequiresApproval("command may mutate workspace files"@),
        ),
{
    reveal_strlit("touch");
    reveal_strlit("mkdir");
    reveal_strlit("cp");
    reveal_strlit("mv");
    reveal_strlit("chmod");
    reveal_strlit("chown");
    reveal_strlit("tee");
    reveal_strlit("ls");
    reveal_strlit("cat");
    reveal_strlit("grep");
    reveal_strlit("head");
    reveal_strlit("tail");
    reveal_strlit("wc");
    reveal_strlit("stat");
    reveal_strlit("file");
    reveal_strlit("find");
    reveal_strlit("echo");
    reveal_strlit("true");
    reveal_strlit("false");
    reveal_strlit("git");
    reveal_strlit("cargo");
    reveal_strlit("rg");
    reveal_strlit("printf");
    reveal_strlit("sed");
    reveal_strlit("rm");
    reveal_strlit("pwd");
    reveal_strlit("command");
    reveal_strlit("exec");
    reveal_strlit("env");
    reveal_strlit("sudo");
    reveal_strlit("doas");
    reveal_strlit("su");
    reveal_strlit("cd");
    reveal_strlit("npm");
    reveal_strlit("pnpm");
    reveal_strlit("yarn");
    reveal_strlit("pip");
    reveal_strlit("pip3");
    assert("touch"@[0] != "false"@[0]);
    assert("touch"@[0] != "cargo"@[0]);
    assert("mkdir"@[0] != "false"@[0]);
    assert("mkdir"@[0] != "cargo"@[0]);
    assert("cp"@[0] != "ls"@[0]);
    assert("cp"@[0] != "wc"@[0]);
    assert("cp"@[0] != "rg"@[0]);
    assert("cp"@[0] != "rm"@[0]);
    assert("cp"@[0] != "su"@[0]);
    assert("cp"@[1] != "cd"@[1]);
    assert("mv"@[0] != "ls"@[0]);
    assert("mv"@[0] != "wc"@[0]);
    assert("mv"@[0] != "rg"@[0]);
    assert("mv"@[0] != "rm"@[0]);
    assert("mv"@[0] != "su"@[0]);
    assert("mv"@[0] != "cd"@[0]);
    assert("chmod"@[0] != "false"@[0]);
    assert("chmod"@[1] != "cargo"@[1]);
    assert("chown"@[0] != "false"@[0]);
    assert("chown"@[1] != "cargo"@[1]);
    assert("tee"@[0] != "cat"@[0]);
    assert("tee"@[0] != "git"@[0]);
    assert("tee"@[0] != "sed"@[0]);
    assert("tee"@[0] != "pwd"@[0]);
    assert("tee"@[0] != "env"@[0]);
    assert("tee"@[0] != "npm"@[0]);
    assert("tee"@[0] != "pip"@[0]);
    lemma_short_name(words[0]);
    lemma_all_harmless(words);
    lemma_decided(root, words, answers);
    let arguments = words.skip(1);
}

/// A removal needs an approval that says so.
pub proof fn law_removals_need_approval(
    root: Seq<char>,
    words: Seq<Seq<char>>,
    answers: Seq<AnswerView>,
)
    requires
        root.len() > 0,
        is_line(words),
        words[0] == "rm"@,
        has_plain_arguments(words),
        finds_nothing(answers),
        words.len() <= answers.len(),
    ensures
        policy_model::verdict(root, shell::quoted_line(words), answers) == Verdict::Decided(
            DecisionView::RequiresApproval("command performs a destructive workspace operation"@),
        ),
{
    reveal_strlit("rm");
    reveal_strlit("ls");
    reveal_strlit("cat");
    reveal_strlit("grep");
    reveal_strlit("head");
    reveal_strlit("tail");
    reveal_strlit("wc");
    reveal_strlit("stat");
    reveal_strlit("file");
    reveal_strlit("find");
    reveal_strlit("echo");
    reveal_strlit("true");
    reveal_strlit("false");
    reveal_strlit("git");
    reveal_strlit("cargo");
    reveal_strlit("rg");
    reveal_strlit("printf");
    reveal_strlit("sed");
    reveal_strlit("pwd");
    reveal_strlit("command");
    reveal_strlit("exec");
    reveal_strlit("env");
    reveal_strlit("sudo");
    reveal_strlit("doas");
    reveal_strlit("su");
    reveal_strlit("cd");
    reveal_strlit("touch");
    reveal_strlit("mkdir");
    reveal_strlit("cp");
    reveal_strlit("mv");
    reveal_strlit("chmod");
    reveal_strlit("chown");
    reveal_strlit("tee");
    reveal_strlit("npm");
    reveal_strlit("pnpm");
    reveal_strlit("yarn");
    reveal_strlit("pip");
    reveal_strlit("pip3");
    assert("rm"@[0] != "ls"@[0]);
    assert("rm"@[0] != "wc"@[0]);
    assert("rm"@[1] != "rg"@[1]);
    assert("rm"@[0] != "su"@[0]);
    assert("rm"@[0] != "cd"@[0]);
    assert("rm"@[0] != "cp"@[0]);
    assert("rm"@[0] != "mv"@[0]);
    lemma_short_name(words[0]);
    lemma_all_harmless(words);
    lemma_decided(root, words, answers);
    let arguments = words.skip(1);
}

/// A package manager that installs needs an approval that says so.
pub proof fn law_package_managers_need_approval(
    root: Seq<char>,
    words: Seq<Seq<char>>,
    answers: Seq<AnswerView>,
)
    requires
        root.len() > 0,
        is_line(words),
        words[0] == "npm"@ || words[0] == "pnpm"@ || words[0] == "yarn"@ || words[0] == "pip"@ || words[0] == "pip3"@,
        words.len() >= 2 && (words[1] == "install"@ || words[1] == "add"@ || words[1] == "update"@),
        has_plain_arguments(words),
        finds_nothing(answers),
        words.len() <= answers.len(),
    ensures
        policy_model::verdict(root, shell::quoted_line(words), answers) == Verdict::Decided(
            DecisionView::RequiresApproval("command installs or updates dependencies"@),
        ),
{
    reveal_strlit("npm");
    reveal_strlit("pnpm");
    reveal_strlit("yarn");
    reveal_strlit("pip");
    reveal_strlit("pip3");
    reveal_strlit("ls");
    reveal_strlit("cat");
    reveal_strlit("grep");
    reveal_strlit("head");
    reveal_strlit("tail");
    reveal_strlit("wc");
    reveal_strlit("stat");
    reveal_strlit("file");
    reveal_strlit("find");
    reveal_strlit("echo");
    reveal_strlit("true");
    reveal_strlit("false");
    reveal_strlit("git");
    reveal_strlit("cargo");
    reveal_strlit("rg");
    reveal_strlit("printf");
    reveal_strlit("sed");
    reveal_strlit("rm");
    reveal_strlit("pwd");
    reveal_strlit("command");
    reveal_strlit("exec");
    reveal_strlit("env");
    reveal_strlit("sudo");
    reveal_strlit("doas");
    reveal_strlit("su");
    reveal_strlit("cd");
    reveal_strlit("touch");
    reveal_strlit("mkdir");
    reveal_strlit("cp");
    reveal_strlit("mv");
    reveal_strlit("chmod");
    reveal_strlit("chown");
    reveal_strlit("tee");
    assert("npm"@[0] != "cat"@[0]);
    assert("npm"@[0] != "git"@[0]);
    assert("npm"@[0] != "sed"@[0]);
    assert("npm"@[0] != "pwd"@[0]);
    assert("npm"@[0] != "env"@[0]);
    assert("npm"@[0] != "tee"@[0]);
    assert("pnpm"@[0] != "grep"@[0]);
    assert("pnpm"@[0] != "head"@[0]);
    assert("pnpm"@[0] != "tail"@[0]);
    assert("pnpm"@[0] != "stat"@[0]);
    assert("pnpm"@[0] != "file"@[0]);
    assert("pnpm"@[0] != "find"@[0]);
    assert("pnpm"@[0] != "echo"@[0]);
    assert("pnpm"@[0] != "true"@[0]);
    assert("pnpm"@[0] != "exec"@[0]);
    assert("pnpm"@[0] != "sudo"@[0]);
    assert("pnpm"@[0] != "doas"@[0]);
    assert("yarn"@[0] != "grep"@[0]);
    assert("yarn"@[0] != "head"@[0]);
    assert("yarn"@[0] != "tail"@[0]);
    assert("yarn"@[0] != "stat"@[0]);
    assert("yarn"@[0] != "file"@[0]);
    assert("yarn"@[0] != "find"@[0]);
    assert("yarn"@[0] != "echo"@[0]);
    assert("yarn"@[0] != "true"@[0]);
    assert("yarn"@[0] != "exec"@[0]);
    assert("yarn"@[0] != "sudo"@[0]);
    assert("yarn"@[0] != "doas"@[0]);
    assert("pip"@[0] != "cat"@[0]);
    assert("pip"@[0] != "git"@[0]);
    assert("pip"@[0] != "sed"@[0]);
    assert("pip"@[1] != "pwd"@[1]);
    assert("pip"@[0] != "env"@[0]);
    assert("pip"@[0] != "tee"@[0]);
    assert("pip3"@[0] != "grep"@[0]);
    assert("pip3"@[0] != "head"@[0]);
    assert("pip3"@[0] != "tail"@[0]);
    assert("pip3"@[0] != "stat"@[0]);
    assert("pip3"@[0] != "file"@[0]);
    assert("pip3"@[0] != "find"@[0]);
    assert("pip3"@[0] != "echo"@[0]);
    assert("pip3"@[0] != "true"@[0]);
    assert("pip3"@[0] != "exec"@[0]);
    assert("pip3"@[0] != "sudo"@[0]);
    assert("pip3"@[0] != "doas"@[0]);
    lemma_short_name(words[0]);
    lemma_all_harmless(words);
    lemma_decided(root, words, answers);
    let arguments = words.skip(1);
    assert(arguments[0] == words[1]);
}

/// Cargo needs an approval to add, install or update dependencies.
pub proof fn law_cargo_installs_need_approval(
    root: Seq<char>,
    words: Seq<Seq<char>>,
    answers: Seq<AnswerView>,
)
    requires
        root.len() > 0,
        is_line(words),
        words[0] == "cargo"@,
        words.len() >= 2 && (words[1] == "install"@ || words[1] == "add"@ || words[1] == "update"@),
        has_plain_arguments(words),
        finds_nothing(answers),
        words.len() <= answers.len(),
    ensures
        policy_model::verdict(root, shell::quoted_line(words), answers) == Verdict::Decided(
            DecisionView::RequiresApproval("command installs or updates dependencies"@),
        ),
{
    reveal_strlit("cargo");
    reveal_strlit("ls");
    reveal_strlit("cat");
    reveal_strlit("grep");
    reveal_strlit("head");
    reveal_strlit("tail");
    reveal_strlit("wc");
    reveal_strlit("stat");
    reveal_strlit("file");
    reveal_strlit("find");
    reveal_strlit("echo");
    reveal_strlit("true");
    reveal_strlit("false");
    reveal_strlit("git");
    reveal_strlit("rg");
    reveal_strlit("printf");
    reveal_strlit("sed");
    reveal_strlit("rm");
    reveal_strlit("pwd");
    reveal_strlit("command");
    reveal_strlit("exec");
    reveal_strlit("env");
    reveal_strlit("sudo");
    reveal_strlit("doas");
    reveal_strlit("su");
    reveal_strlit("cd");
    reveal_strlit("touch");
    reveal_strlit("mkdir");
    reveal_strlit("cp");
    reveal_strlit("mv");
    reveal_strlit("chmod");
    reveal_strlit("chown");
    reveal_strlit("tee");
    reveal_strlit("npm");
    reveal_strlit("pnpm");
    reveal_strlit("yarn");
    reveal_strlit("pip");
    reveal_strlit("pip3");
    assert("cargo"@[0] != "false"@[0]);
    assert("cargo"@[0] != "touch"@[0]);
    assert("cargo"@[0] != "mkdir"@[0]);
    assert("cargo"@[1] != "chmod"@[1]);
    assert("cargo"@[1] != "chown"@[1]);
    lemma_short_name(words[0]);
    lemma_all_harmless(words);
    lemma_decided(root, words, answers);
    let arguments = words.skip(1);
    assert(arguments[0] == words[1]);
}

/// Cargo may check and test without an approval.
pub proof fn law_cargo_checks_are_allowed(
    root: Seq<char>,
    words: Seq<Seq<char>>,
    answers: Seq<AnswerView>,
)
    requires
        root.len() > 0,
        is_line(words),
        words[0] == "cargo"@,
        words.len() >= 2 && (words[1] == "check"@ || words[1] == "test"@ || words[1] == "clippy"@ || words[1]
            == "metadata"@),
        has_plain_arguments(words),
        finds_nothing(answers),
        words.len() <= answers.len(),
    ensures
        policy_model::verdict(root, shell::quoted_line(words), answers) == Verdict::Decided(
            DecisionView::Allow,
        ),
{
    reveal_strlit("cargo");
    reveal_strlit("ls");
    reveal_strlit("cat");
    reveal_strlit("grep");
    reveal_strlit("head");
    reveal_strlit("tail");
    reveal_strlit("wc");
    reveal_strlit("stat");
    reveal_strlit("file");
    reveal_strlit("find");
    reveal_strlit("echo");
    reveal_strlit("true");
    reveal_strlit("false");
    reveal_strlit("git");
    reveal_strlit("rg");
    reveal_strlit("printf");
    reveal_strlit("sed");
    reveal_strlit("rm");
    reveal_strlit("pwd");
    reveal_strlit("command");
    reveal_strlit("exec");
    reveal_strlit("env");
    reveal_strlit("sudo");
    reveal_strlit("doas");
    reveal_strlit("su");
    reveal_strlit("cd");
    reveal_strlit("touch");
    reveal_strlit("mkdir");
    reveal_strlit("cp");
    reveal_strlit("mv");
    reveal_strlit("chmod");
    reveal_strlit("chown");
    reveal_strlit("tee");
    reveal_strlit("npm");
    reveal_strlit("pnpm");
    reveal_strlit("yarn");
    reveal_strlit("pip");
    reveal_strlit("pip3");
    reveal_strlit("check");
    reveal_strlit("test");
    reveal_strlit("clippy");
    reveal_strlit("metadata");
    reveal_strlit("fmt");
    reveal_strlit("add");
    reveal_strlit("install");
    reveal_strlit("update");
    assert("cargo"@[0] != "false"@[0]);
    assert("cargo"@[0] != "touch"@[0]);
    assert("cargo"@[0] != "mkdir"@[0]);
    assert("cargo"@[1] != "chmod"@[1]);
    assert("cargo"@[1] != "chown"@[1]);
    assert("clippy"@[0] != "update"@[0]);
    lemma_short_name(words[0]);
    lemma_all_harmless(words);
    lemma_decided(root, words, answers);
    let arguments = words.skip(1);
    assert(arguments[0] == words[1]);
    if arguments.skip(1).contains("--fix"@) {
        let i = choose|i: int| 0 <= i < arguments.skip(1).len() && arguments.skip(1)[i] == "--fix"@;
        assert(arguments[i + 1] == "--fix"@);
    }
    assert(policy_model::mutation_reason(words[0], arguments) is None);
    assert(policy_model::reading_reason(words[0], arguments) is None);
}

/// Git needs an approval to reset and to clean.
pub proof fn law_git_resets_need_approval(
    root: Seq<char>,
    words: Seq<Seq<char>>,
    answers: Seq<AnswerView>,
)
    requires
        root.len() > 0,
        is_line(words),
        words[0] == "git"@,
        words.len() >= 2 && (words[1] == "reset"@ || words[1] == "clean"@),
        has_plain_arguments(words),
        finds_nothing(answers),
        words.len() <= answers.len(),
    ensures
        policy_model::verdict(root, shell::quoted_line(words), answers) == Verdict::Decided(
            DecisionView::RequiresApproval("command performs a destructive workspace operation"@),
        ),
{
    reveal_strlit("git");
    reveal_strlit("ls");
    reveal_strlit("cat");
    reveal_strlit("grep");
    reveal_strlit("head");
    reveal_strlit("tail");
    reveal_strlit("wc");
    reveal_strlit("stat");
    reveal_strlit("file");
    reveal_strlit("find");
    reveal_strlit("echo");
    reveal_strlit("true");
    reveal_strlit("false");
    reveal_strlit("cargo");
    reveal_strlit("rg");
    reveal_strlit("printf");
    reveal_strlit("sed");
    reveal_strlit("rm");
    reveal_strlit("pwd");
    reveal_strlit("command");
    reveal_strlit("exec");
    reveal_strlit("env");
    reveal_strlit("sudo");
    reveal_strlit("doas");
    reveal_strlit("su");
    reveal_strlit("cd");
    reveal_strlit("touch");
    reveal_strlit("mkdir");
    reveal_strlit("cp");
    reveal_strlit("mv");
    reveal_strlit("chmod");
    reveal_strlit("chown");
    reveal_strlit("tee");
    reveal_strlit("npm");
    reveal_strlit("pnpm");
    reveal_strlit("yarn");
    reveal_strlit("pip");
    reveal_strlit("pip3");
    reveal_strlit("rev-parse");
    reveal_strlit("branch");
    reveal_strlit("log");
    reveal_strlit("show");
    reveal_strlit("status");
    reveal_strlit("diff");
    reveal_strlit("ls-files");
    reveal_strlit("reset");
    reveal_strlit("clean");
    assert("git"@[0] != "cat"@[0]);
    assert("git"@[0] != "sed"@[0]);
    assert("git"@[0] != "pwd"@[0]);
    assert("git"@[0] != "env"@[0]);
    assert("git"@[0] != "tee"@[0]);
    assert("git"@[0] != "npm"@[0]);
    assert("git"@[0] != "pip"@[0]);
    assert("reset"@[0] != "clean"@[0]);
    lemma_short_name(words[0]);
    lemma_all_harmless(words);
    lemma_decided(root, words, answers);
    let arguments = words.skip(1);
    assert(arguments[0] == words[1]);
}

/// Git needs an approval to show its history, which may run configured tooling.
pub proof fn law_git_histories_need_approval(
    root: Seq<char>,
    words: Seq<Seq<char>>,
    answers: Seq<AnswerView>,
)
    requires
        root.len() > 0,
        is_line(words),
        words[0] == "git"@,
        words.len() >= 2 && (words[1] == "log"@ || words[1] == "show"@),
        has_plain_arguments(words),
        finds_nothing(answers),
        words.len() <= answers.len(),
    ensures
        policy_model::verdict(root, shell::quoted_line(words), answers) == Verdict::Decided(
            DecisionView::RequiresApproval("command executes configured signature verification tooling"@),
        ),
{
    reveal_strlit("git");
    reveal_strlit("ls");
    reveal_strlit("cat");
    reveal_strlit("grep");
    reveal_strlit("head");
    reveal_strlit("tail");
    reveal_strlit("wc");
    reveal_strlit("stat");
    reveal_strlit("file");
    reveal_strlit("find");
    reveal_strlit("echo");
    reveal_strlit("true");
    reveal_strlit("false");
    reveal_strlit("cargo");
    reveal_strlit("rg");
    reveal_strlit("printf");
    reveal_strlit("sed");
    reveal_strlit("rm");
    reveal_strlit("pwd");
    reveal_strlit("command");
    reveal_strlit("exec");
    reveal_strlit("env");
    reveal_strlit("sudo");
    reveal_strlit("doas");
    reveal_strlit("su");
    reveal_strlit("cd");
    reveal_strlit("touch");
    reveal_strlit("mkdir");
    reveal_strlit("cp");
    reveal_strlit("mv");
    reveal_strlit("chmod");
    reveal_strlit("chown");
    reveal_strlit("tee");
    reveal_strlit("npm");
    reveal_strlit("pnpm");
    reveal_strlit("yarn");
    reveal_strlit("pip");
    reveal_strlit("pip3");
    reveal_strlit("rev-parse");
    reveal_strlit("branch");
    reveal_strlit("log");
    reveal_strlit("show");
    reveal_strlit("status");
    reveal_strlit("diff");
    reveal_strlit("ls-files");
    reveal_strlit("reset");
    reveal_strlit("clean");
    assert("git"@[0] != "cat"@[0]);
    assert("git"@[0] != "sed"@[0]);
    assert("git"@[0] != "pwd"@[0]);
    assert("git"@[0] != "env"@[0]);
    assert("git"@[0] != "tee"@[0]);
    assert("git"@[0] != "npm"@[0]);
    assert("git"@[0] != "pip"@[0]);
    assert("show"@[0] != "diff"@[0]);
    assert("show"@[0] != "grep"@[0]);
    lemma_short_name(words[0]);
    lemma_all_harmless(words);
    lemma_decided(root, words, answers);
    let arguments = words.skip(1);
    assert(arguments[0] == words[1]);
}

/// Git needs an approval to look at the working tree, which may run a monitor.
pub proof fn law_git_looks_need_approval(
    root: Seq<char>,
    words: Seq<Seq<char>>,
    answers: Seq<AnswerView>,
)
    requires
        root.len() > 0,
        is_line(words),
        words[0] == "git"@,
        words.len() >= 2 && (words[1] == "status"@ || words[1] == "diff"@ || words[1] == "ls-files"@ || words[1]
            == "grep"@),
        has_plain_arguments(words),
        finds_nothing(answers),
        words.len() <= answers.len(),
    ensures
        policy_model::verdict(root, shell::quoted_line(words), answers) == Verdict::Decided(
            DecisionView::RequiresApproval("command may invoke Git's configured fsmonitor helper or start its daemon"@),
        ),
{
    reveal_strlit("git");
    reveal_strlit("ls");
    reveal_strlit("cat");
    reveal_strlit("grep");
    reveal_strlit("head");
    reveal_strlit("tail");
    reveal_strlit("wc");
    reveal_strlit("stat");
    reveal_strlit("file");
    reveal_strlit("find");
    reveal_strlit("echo");
    reveal_strlit("true");
    reveal_strlit("false");
    reveal_strlit("cargo");
    reveal_strlit("rg");
    reveal_strlit("printf");
    reveal_strlit("sed");
    reveal_strlit("rm");
    reveal_strlit("pwd");
    reveal_strlit("command");
    reveal_strlit("exec");
    reveal_strlit("env");
    reveal_strlit("sudo");
    reveal_strlit("doas");
    reveal_strlit("su");
    reveal_strlit("cd");
    reveal_strlit("touch");
    reveal_strlit("mkdir");
    reveal_strlit("cp");
    reveal_strlit("mv");
    reveal_strlit("chmod");
    reveal_strlit("chown");
    reveal_strlit("tee");
    reveal_strlit("npm");
    reveal_strlit("pnpm");
    reveal_strlit("yarn");
    reveal_strlit("pip");
    reveal_strlit("pip3");
    reveal_strlit("rev-parse");
    reveal_strlit("branch");
    reveal_strlit("log");
    reveal_strlit("show");
    reveal_strlit("status");
    reveal_strlit("diff");
    reveal_strlit("ls-files");
    reveal_strlit("reset");
    reveal_strlit("clean");
    assert("git"@[0] != "cat"@[0]);
    assert("git"@[0] != "sed"@[0]);
    assert("git"@[0] != "pwd"@[0]);
    assert("git"@[0] != "env"@[0]);
    assert("git"@[0] != "tee"@[0]);
    assert("git"@[0] != "npm"@[0]);
    assert("git"@[0] != "pip"@[0]);
    assert("status"@[0] != "branch"@[0]);
    assert("diff"@[0] != "show"@[0]);
    assert("diff"@[0] != "grep"@[0]);
    assert("grep"@[0] != "show"@[0]);
    lemma_short_name(words[0]);
    lemma_all_harmless(words);
    lemma_decided(root, words, answers);
    let arguments = words.skip(1);
    assert(arguments[0] == words[1]);
}

/// Git may look up a revision without an approval.
pub proof fn law_git_revisions_are_allowed(
    root: Seq<char>,
    words: Seq<Seq<char>>,
    answers: Seq<AnswerView>,
)
    requires
        root.len() > 0,
        is_line(words),
        words[0] == "git"@,
        words.len() >= 2 && words[1] == "rev-parse"@,
        has_plain_arguments(words),
        finds_nothing(answers),
        words.len() <= answers.len(),
    ensures
        policy_model::verdict(root, shell::quoted_line(words), answers) == Verdict::Decided(
            DecisionView::Allow,
        ),
{
    reveal_strlit("git");
    reveal_strlit("ls");
    reveal_strlit("cat");
    reveal_strlit("grep");
    reveal_strlit("head");
    reveal_strlit("tail");
    reveal_strlit("wc");
    reveal_strlit("stat");
    reveal_strlit("file");
    reveal_strlit("find");
    reveal_strlit("echo");
    reveal_strlit("true");
    reveal_strlit("false");
    reveal_strlit("cargo");
    reveal_strlit("rg");
    reveal_strlit("printf");
    reveal_strlit("sed");
    reveal_strlit("rm");
    reveal_strlit("pwd");
    reveal_strlit("command");
    reveal_strlit("exec");
    reveal_strlit("env");
    reveal_strlit("sudo");
    reveal_strlit("doas");
    reveal_strlit("su");
    reveal_strlit("cd");
    reveal_strlit("touch");
    reveal_strlit("mkdir");
    reveal_strlit("cp");
    reveal_strlit("mv");
    reveal_strlit("chmod");
    reveal_strlit("chown");
    reveal_strlit("tee");
    reveal_strlit("npm");
    reveal_strlit("pnpm");
    reveal_strlit("yarn");
    reveal_strlit("pip");
    reveal_strlit("pip3");
    reveal_strlit("rev-parse");
    reveal_strlit("branch");
    reveal_strlit("log");
    reveal_strlit("show");
    reveal_strlit("status");
    reveal_strlit("diff");
    reveal_strlit("ls-files");
    reveal_strlit("reset");
    reveal_strlit("clean");
    assert("git"@[0] != "cat"@[0]);
    assert("git"@[0] != "sed"@[0]);
    assert("git"@[0] != "pwd"@[0]);
    assert("git"@[0] != "env"@[0]);
    assert("git"@[0] != "tee"@[0]);
    assert("git"@[0] != "npm"@[0]);
    assert("git"@[0] != "pip"@[0]);
    lemma_short_name(words[0]);
    lemma_all_harmless(words);
    lemma_decided(root, words, answers);
    let arguments = words.skip(1);
    assert(arguments[0] == words[1]);
    assert(policy_model::reason_before_paths(words[0], arguments) is None);
    assert(policy_model::mutation_reason(words[0], arguments) is None);
    assert(policy_model::reading_reason(words[0], arguments) is None);
}

/// Git needs an approval for every command that is not known to be harmless.
pub proof fn law_other_git_commands_need_approval(
    root: Seq<char>,
    words: Seq<Seq<char>>,
    answers: Seq<AnswerView>,
)
    requires
        root.len() > 0,
        is_line(words),
        words[0] == "git"@,
        words.len() >= 2 ==> words[1] != "rev-parse"@ && words[1] != "log"@ && words[1] != "show"@ && words[1] != "status"@ && words[1] != "diff"@ && words[1] != "ls-files"@ && words[1] != "grep"@ && words[1] != "reset"@ && words[1] != "clean"@,
        has_plain_arguments(words),
        finds_nothing(answers),
        words.len() <= answers.len(),
    ensures
        policy_model::verdict(root, shell::quoted_line(words), answers) == Verdict::Decided(
            DecisionView::RequiresApproval("command is not classified as low-risk"@),
        ),
{
    reveal_strlit("git");
    reveal_strlit("ls");
    reveal_strlit("cat");
    reveal_strlit("grep");
    reveal_strlit("head");
    reveal_strlit("tail");
    reveal_strlit("wc");
    reveal_strlit("stat");
    reveal_strlit("file");
    reveal_strlit("find");
    reveal_strlit("echo");
    reveal_strlit("true");
    reveal_strlit("false");
    reveal_strlit("cargo");
    reveal_strlit("rg");
    reveal_strlit("printf");
    reveal_strlit("sed");
    reveal_strlit("rm");
    reveal_strlit("pwd");
    reveal_strlit("command");
    reveal_strlit("exec");
    reveal_strlit("env");
    reveal_strlit("sudo");
    reveal_strlit("doas");
    reveal_strlit("su");
    reveal_strlit("cd");
    reveal_strlit("touch");
    reveal_strlit("mkdir");
    reveal_strlit("cp");
    reveal_strlit("mv");
    reveal_strlit("chmod");
    reveal_strlit("chown");
    reveal_strlit("tee");
    reveal_strlit("npm");
    reveal_strlit("pnpm");
    reveal_strlit("yarn");
    reveal_strlit("pip");
    reveal_strlit("pip3");
    reveal_strlit("--show-current");
    assert("git"@[0] != "cat"@[0]);
    assert("git"@[0] != "sed"@[0]);
    assert("git"@[0] != "pwd"@[0]);
    assert("git"@[0] != "env"@[0]);
    assert("git"@[0] != "tee"@[0]);
    assert("git"@[0] != "npm"@[0]);
    assert("git"@[0] != "pip"@[0]);
    lemma_short_name(words[0]);
    lemma_all_harmless(words);
    lemma_decided(root, words, answers);
    let arguments = words.skip(1);
    if words.len() >= 2 {
        assert(arguments[0] == words[1]);
    }
    if words.len() >= 3 {
        assert(arguments[1] == words[2]);
        assert("--show-current"@[0] == '-');
    }
    assert(policy_model::reason_before_paths(words[0], arguments) is None);
    assert(policy_model::mutation_reason(words[0], arguments) is None);
    assert(policy_model::reading_reason(words[0], arguments) is None);
}

/// A program that the policy does not know needs an approval, whatever plain names
/// it is given.
pub proof fn law_unknown_programs_need_approval(
    root: Seq<char>,
    words: Seq<Seq<char>>,
    answers: Seq<AnswerView>,
)
    requires
        root.len() > 0,
        is_line(words),
        is_plain(words[0]),
        !is_ruled(words[0]),
        !is_reader(words[0]),
        words[0] != "git"@,
        words[0] != "cargo"@,
        words[0] != "rg"@,
        words[0] != "sed"@,
        words[0] != "printf"@,
        words[0] != "pwd"@,
        words[0] != "rm"@,
        words[0] != "touch"@,
        words[0] != "mkdir"@,
        words[0] != "cp"@,
        words[0] != "mv"@,
        words[0] != "chmod"@,
        words[0] != "chown"@,
        words[0] != "tee"@,
        words[0] != "npm"@,
        words[0] != "pnpm"@,
        words[0] != "yarn"@,
        words[0] != "pip"@,
        words[0] != "pip3"@,
        has_plain_arguments(words),
        finds_nothing(answers),
        words.len() <= answers.len(),
    ensures
        policy_model::verdict(root, shell::quoted_line(words), answers) == Verdict::Decided(
            DecisionView::RequiresApproval("command is not classified as low-risk"@),
        ),
{
    lemma_all_harmless(words);
    lemma_decided(root, words, answers);
    let arguments = words.skip(1);
    assert(policy_model::reason_before_paths(words[0], arguments) is None);
    assert(policy_model::mutation_reason(words[0], arguments) is None);
    assert(!policy_model::any_argument(
        arguments,
        |argument: Seq<char>| policy_model::is_following_option(words[0], argument),
    ));
    assert(policy_model::reading_reason(words[0], arguments) is None);
}

/// Whether a word calls the program `name`, with a directory in front of it or
/// without one.
pub open spec fn calls(word: Seq<char>, name: Seq<char>) -> bool {
    word == name || exists|head: Seq<char>| word == #[trigger] head.push('/') + name
}

proof fn lemma_called(word: Seq<char>, name: Seq<char>)
    requires
        is_plain(name),
        calls(word, name),
    ensures
        policy_model::program_basename(word) == name,
{
    reveal_strlit("");
    if word == name {
        lemma_plain_name(name);
    } else {
        let head = choose|head: Seq<char>| word == #[trigger] head.push('/') + name;
        path_text_laws::law_file_names_stand_behind_the_last_slash(head, name);
    }
}

/// Whether a program gives its caller the rights of another user.
pub open spec fn is_elevation(name: Seq<char>) -> bool {
    name == "sudo"@ || name == "doas"@ || name == "su"@
}

/// A program that gives its caller the rights of another user is rejected, called
/// by its name or by its path, directly or behind a program that runs its operands.
pub proof fn law_elevation_is_rejected(
    root: Seq<char>,
    words: Seq<Seq<char>>,
    name: Seq<char>,
    answers: Seq<AnswerView>,
)
    requires
        is_line(words),
        is_elevation(name),
        calls(words[0], name) || words.len() >= 2 && words[1] == name && (words[0] == "command"@
            || words[0] == "exec"@ || words[0] == "env"@),
    ensures
        policy_model::verdict(root, shell::quoted_line(words), answers) == Verdict::Decided(
            DecisionView::Reject("command attempts privilege elevation"@),
        ),
{
    reveal_strlit("command");
    reveal_strlit("exec");
    reveal_strlit("env");
    reveal_strlit("sudo");
    reveal_strlit("doas");
    reveal_strlit("su");
    assert("sudo"@[0] != "exec"@[0]);
    assert("doas"@[0] != "exec"@[0]);
    lemma_quoted(root, words, answers);
    lemma_short_name(name);
    lemma_plain_name(name);
    reveal_with_fuel(policy_model::unwrap_transparent_command_wrappers, 3);
    if calls(words[0], name) {
        lemma_called(words[0], name);
        assert(policy_model::unwrap_transparent_command_wrappers(words, 0) == Ok::<
            Seq<Seq<char>>,
            policy_model::TransparentWrapperError,
        >(words));
    } else {
        lemma_short_name(words[0]);
        lemma_plain_name(words[0]);
        reveal_strlit("--");
        reveal_strlit("-p");
        reveal_strlit("-v");
        reveal_strlit("-V");
        reveal_strlit("-a");
        lemma_env_stops_at(words, 1);
        assert(policy_model::command_wrapped_program_index(words, 1) == Ok::<
            Option<int>,
            policy_model::TransparentWrapperError,
        >(Some(1int)));
        assert(policy_model::exec_wrapped_program_index(words, 1) == Ok::<
            Option<int>,
            policy_model::TransparentWrapperError,
        >(Some(1int)));
        let inner = words.skip(1);
        assert(inner[0] == name);
        assert(policy_model::wrapped_program_index(words) == Ok::<
            Option<int>,
            policy_model::TransparentWrapperError,
        >(Some(1int)));
        assert(policy_model::wrapped_program_index(inner) == Ok::<
            Option<int>,
            policy_model::TransparentWrapperError,
        >(None));
        assert(policy_model::unwrap_transparent_command_wrappers(inner, 1) == Ok::<
            Seq<Seq<char>>,
            policy_model::TransparentWrapperError,
        >(inner));
    }
}

proof fn lemma_env_stops_at(words: Seq<Seq<char>>, at: int)
    requires
        0 <= at < words.len(),
        words[at].len() > 0,
        forall|i: int| 0 <= i < words[at].len() ==> is_small(#[trigger] words[at][i]),
    ensures
        policy_model::env_wrapped_program_index(words, at) == Ok::<
            Option<int>,
            policy_model::TransparentWrapperError,
        >(Some(at)),
{
    reveal_strlit("--");
    reveal_strlit("-u");
    reveal_strlit("--unset");
    reveal_strlit("-C");
    reveal_strlit("--chdir");
    reveal_strlit("-P");
    reveal_strlit("-a");
    reveal_strlit("--argv0");
    reveal_strlit("--help");
    reveal_strlit("--version");
    reveal_strlit("-S");
    reveal_strlit("--split-string");
    reveal_strlit("--split-string=");
    reveal_strlit("--unset=");
    reveal_strlit("--chdir=");
    reveal_strlit("--argv0=");
    reveal_strlit("--block-signal");
    reveal_strlit("--default-signal");
    reveal_strlit("--ignore-signal");
    reveal_strlit("--list-signal-handling");
    reveal_strlit("--debug");
    let word = words[at];
    assert(is_small(word[0]));
    assert(word[0] != '-');
    assert(!word.contains('=')) by {
        if word.contains('=') {
            let i = choose|i: int| 0 <= i < word.len() && word[i] == '=';
            assert(is_small(word[i]));
        }
    }
    assert forall|prefix: Seq<char>| prefix.len() > 0 && prefix[0] == '-' implies
        !#[trigger] prefix.is_prefix_of(word) by {
        if prefix.is_prefix_of(word) {
            assert(word.subrange(0, prefix.len() as int)[0] == word[0]);
        }
    }
    assert(!policy_model::is_env_split_option(word));
    assert(!policy_model::is_env_flag(word));
    assert(!policy_model::is_env_option_with_operand(word));
}

/// Whether a word is the root of the file system, or a pattern right below it.
pub open spec fn is_root_target(word: Seq<char>) -> bool {
    ||| word == "/"@
    ||| word.len() > 1 && word[0] == '/' && !word.skip(1).contains('/') && (word.contains('*')
        || word.contains('?') || word.contains('['))
}

proof fn lemma_root_target(word: Seq<char>)
    requires
        is_root_target(word),
    ensures
        policy_model::targets_filesystem_root(word),
{
    reveal_strlit("/");
    reveal_strlit("");
    reveal_strlit(".");
    reveal_strlit("..");
    let none = Seq::<char>::empty();
    let name = word.skip(1);
    assert(!name.contains('/'));
    assert(word =~= none.push('/') + name);
    path_text_laws::law_steps_go_on_behind_a_slash(none, name);
    reveal_with_fuel(policy_model::ends_at_root, 3);
    let parts = path::components(word);
    assert(parts[0] == ComponentView::RootDir);
    if name.len() == 0 {
        assert(name =~= ""@);
        assert(parts =~= seq![ComponentView::RootDir]);
    } else {
        let mark = if word.contains('*') {
            '*'
        } else if word.contains('?') {
            '?'
        } else {
            '['
        };
        let i = choose|i: int| 0 <= i < word.len() && word[i] == mark;
        assert(name[i - 1] == mark);
        assert(policy_model::holds_pattern(name)) by {
            assert(shell::is_pattern(name[i - 1]));
        }
        if name == "."@ {
            assert(name[i - 1] == '.');
        }
        if name == ".."@ {
            assert(i - 1 == 0 || i - 1 == 1);
        }
        assert(parts =~= seq![ComponentView::RootDir, ComponentView::Normal(name)]);
        assert(parts[1] == ComponentView::Normal(name));
    }
}

/// A command that removes files or changes who may use them is rejected where one
/// of its operands is the root of the file system, or a pattern right below it.
pub proof fn law_the_root_is_protected(
    root: Seq<char>,
    words: Seq<Seq<char>>,
    name: Seq<char>,
    at: int,
    answers: Seq<AnswerView>,
)
    requires
        is_line(words),
        name == "rm"@ || name == "chmod"@ || name == "chown"@,
        calls(words[0], name),
        1 <= at < words.len(),
        is_root_target(words[at]),
    ensures
        policy_model::verdict(root, shell::quoted_line(words), answers) == Verdict::Decided(
            DecisionView::Reject("command targets the filesystem root"@),
        ),
{
    reveal_strlit("command");
    reveal_strlit("exec");
    reveal_strlit("env");
    reveal_strlit("sudo");
    reveal_strlit("doas");
    reveal_strlit("su");
    reveal_strlit("rm");
    reveal_strlit("chmod");
    reveal_strlit("chown");
    assert("rm"@[0] != "su"@[0]);
    lemma_quoted(root, words, answers);
    lemma_short_name(name);
    lemma_called(words[0], name);
    lemma_root_target(words[at]);
    reveal_with_fuel(policy_model::unwrap_transparent_command_wrappers, 2);
    let arguments = words.skip(1);
    assert(arguments[at - 1] == words[at]);
    let rule = |argument: Seq<char>| policy_model::targets_filesystem_root(argument);
    assert(rule(arguments[at - 1]));
    assert(policy_model::any_argument(
        arguments,
        |argument: Seq<char>| policy_model::targets_filesystem_root(argument),
    ));
    assert(policy_model::unwrap_transparent_command_wrappers(words, 0) == Ok::<
        Seq<Seq<char>>,
        policy_model::TransparentWrapperError,
    >(words));
}

/// Whether a path leaves the workspace by its text: it begins with `~`, `..` stands
/// between its slashes, or it starts at the root of the file system without the
/// steps of the workspace first.
pub open spec fn leaves_by_text(root: Seq<char>, word: Seq<char>) -> bool {
    ||| word.len() > 0 && word[0] == '~'
    ||| text::split(word, '/').contains(".."@)
    ||| word.len() > 0 && word[0] == '/' && !path::components(root).is_prefix_of(
        path::components(word),
    )
}

/// A command that would leave the workspace by changing its directory is rejected.
pub proof fn law_directories_outside_are_rejected(
    root: Seq<char>,
    words: Seq<Seq<char>>,
    answers: Seq<AnswerView>,
)
    requires
        is_line(words),
        words.len() >= 2,
        words[0] == "cd"@,
        leaves_by_text(root, words[1]),
    ensures
        policy_model::verdict(root, shell::quoted_line(words), answers) == Verdict::Decided(
            DecisionView::Reject("command changes its working directory outside the workspace"@),
        ),
{
    reveal_strlit("cd");
    reveal_strlit("rm");
    reveal_strlit("chmod");
    reveal_strlit("chown");
    reveal_strlit("find");
    reveal_strlit("command");
    reveal_strlit("exec");
    reveal_strlit("env");
    reveal_strlit("sudo");
    reveal_strlit("doas");
    reveal_strlit("su");
    assert("cd"@[0] != "su"@[0]);
    assert("cd"@[0] != "rm"@[0]);
    lemma_quoted(root, words, answers);
    lemma_short_name(words[0]);
    lemma_plain_name(words[0]);
    path_text_laws::law_parent_steps_are_two_dots(words[1]);
    reveal_with_fuel(policy_model::unwrap_transparent_command_wrappers, 2);
    assert(policy_model::unwrap_transparent_command_wrappers(words, 0) == Ok::<
        Seq<Seq<char>>,
        policy_model::TransparentWrapperError,
    >(words));
    assert(words.skip(1)[0] == words[1]);
    assert(policy_model::hard_rule(words) == HardRule::ChangeDirectory(words[1]));
}

/// A program that reads needs an approval for a path that leaves the workspace by
/// its text, whatever a lookup would find.
pub proof fn law_reads_outside_need_approval(
    root: Seq<char>,
    words: Seq<Seq<char>>,
    answers: Seq<AnswerView>,
)
    requires
        is_line(words),
        words.len() == 2,
        is_reader(words[0]),
        words[1].len() > 0 && words[1][0] != '-',
        leaves_by_text(root, words[1]),
    ensures
        policy_model::verdict(root, shell::quoted_line(words), answers) == Verdict::Decided(
            DecisionView::RequiresApproval("command may access a path outside the workspace"@),
        ),
{
    reveal_strlit("rm");
    reveal_strlit("chmod");
    reveal_strlit("chown");
    reveal_strlit("find");
    reveal_strlit("--");
    reveal_strlit(".");
    reveal_strlit("command");
    reveal_strlit("exec");
    reveal_strlit("env");
    reveal_strlit("sudo");
    reveal_strlit("doas");
    reveal_strlit("su");
    lemma_quoted(root, words, answers);
    lemma_reader(words[0]);
    lemma_plain_name(words[0]);
    let word = words[1];
    path_text_laws::law_parent_steps_are_two_dots(word);
    reveal_with_fuel(policy_model::unwrap_transparent_command_wrappers, 2);
    assert(policy_model::unwrap_transparent_command_wrappers(words, 0) == Ok::<
        Seq<Seq<char>>,
        policy_model::TransparentWrapperError,
    >(words));
    let arguments = words.skip(1);
    assert(arguments =~= seq![word]);
    lemma_undashed(word);
    assert(!policy_model::find_may_mutate_or_execute(arguments));
    assert(policy_model::hard_rule(words) is Pass);
    assert(policy_model::reason_before_paths(words[0], arguments) is None);
    reveal_with_fuel(policy_model::argument_paths, 2);
    reveal_with_fuel(policy_model::option_paths, 2);
    if "--"@.is_prefix_of(word) {
        assert(word.subrange(0, 2)[0] == word[0]);
    }
    if word == "."@ {
        lemma_dot_stays(word);
    }
    assert(policy_model::path_candidate(word) == Some(word));
    assert(arguments.take(0) =~= Seq::<Seq<char>>::empty());
    assert(policy_model::argument_paths(arguments, 1) =~= seq![word]);
    if let Some(option) = policy_model::path_option(words[0], arguments) {
        assert(policy_model::option_value(arguments, 0, option) is None);
        assert(policy_model::option_paths(arguments, option, 1) =~= Seq::<Seq<char>>::empty());
    }
    assert(policy_model::named_paths(words[0], arguments) =~= seq![word]);
    assert(policy_model::escapes_by_text(root, word));
    let start = ProbeState::initial();
    assert(policy_model::classify_candidate(root, word, start, answers).1 == Probe::Known(true));
    assert(seq![word][0] == word);
    assert(policy_model::classify_candidates(root, seq![word], 0, start, answers).1
        == Probe::Known(true));
}

proof fn lemma_dot_stays(word: Seq<char>)
    requires
        word == "."@,
    ensures
        !text::split(word, '/').contains(".."@),
{
    reveal_strlit(".");
    reveal_strlit("..");
    reveal_strlit("");
    path_text_laws::law_parent_steps_are_two_dots(word);
    assert(!word.contains('/'));
    path_text_laws::law_a_name_is_one_step(word);
}

proof fn lemma_undashed(word: Seq<char>)
    requires
        word.len() > 0,
        word[0] != '-',
    ensures
        !policy_model::is_find_action(word),
        !policy_model::is_uncompress_option(word),
        forall|option: Seq<char>|
            !#[trigger] policy_model::long_option_matches_or_abbreviates(word, option),
{
    reveal_strlit("-delete");
    reveal_strlit("-exec");
    reveal_strlit("-execdir");
    reveal_strlit("-ok");
    reveal_strlit("-okdir");
    reveal_strlit("-fprint");
    reveal_strlit("-fprint0");
    reveal_strlit("-fprintf");
    reveal_strlit("-fls");
    reveal_strlit("--");
    text::lemma_first_position(word, '=', 0);
    let name = text::before(word, '=');
    if "--"@.is_prefix_of(name) && name.len() > 2 {
        assert(name.subrange(0, 2)[0] == name[0]);
        assert(name[0] == word[0]);
    }
}

/// The working directory and the name of the branch are shown without an approval.
pub proof fn law_places_are_shown(root: Seq<char>, words: Seq<Seq<char>>, answers: Seq<AnswerView>)
    requires
        root.len() > 0,
        is_line(words),
        words == seq!["pwd"@] || words == seq!["git"@, "branch"@, "--show-current"@],
        finds_nothing(answers),
        words.len() <= answers.len(),
    ensures
        policy_model::verdict(root, shell::quoted_line(words), answers) == Verdict::Decided(
            DecisionView::Allow,
        ),
{
    reveal_strlit("pwd");
    reveal_strlit("wc");
    reveal_strlit("ls");
    reveal_strlit("git");
    reveal_strlit("branch");
    reveal_strlit("--show-current");
    reveal_strlit("rm");
    reveal_strlit("command");
    reveal_strlit("exec");
    reveal_strlit("env");
    reveal_strlit("sudo");
    reveal_strlit("doas");
    reveal_strlit("su");
    reveal_strlit("cd");
    reveal_strlit("log");
    reveal_strlit("show");
    reveal_strlit("status");
    reveal_strlit("diff");
    reveal_strlit("ls-files");
    reveal_strlit("grep");
    reveal_strlit("reset");
    reveal_strlit("clean");
    reveal_strlit("rev-parse");
    reveal_strlit("--");
    reveal_strlit("cargo");
    reveal_strlit("rg");
    reveal_strlit("file");
    reveal_strlit("printf");
    reveal_strlit("sed");
    reveal_strlit("find");
    reveal_strlit("tail");
    reveal_strlit("npm");
    reveal_strlit("pnpm");
    reveal_strlit("yarn");
    reveal_strlit("pip");
    reveal_strlit("pip3");
    reveal_strlit("touch");
    reveal_strlit("mkdir");
    reveal_strlit("cp");
    reveal_strlit("mv");
    reveal_strlit("chmod");
    reveal_strlit("chown");
    reveal_strlit("tee");
    reveal_strlit("--output");
    reveal_strlit("--show-signature");
    reveal_strlit("--open-files-in-pager");
    reveal_strlit("--ext-diff");
    reveal_strlit("--textconv");
    assert("pwd"@[0] != "env"@[0]);
    assert("pwd"@[1] != "pip"@[1]);
    assert("pwd"@[0] != "npm"@[0]);
    assert("pwd"@[0] != "tee"@[0]);
    assert("pwd"@[0] != "git"@[0]);
    assert("git"@[0] != "env"@[0]);
    assert("git"@[0] != "pip"@[0]);
    assert("git"@[0] != "npm"@[0]);
    assert("git"@[0] != "tee"@[0]);
    assert("branch"@[0] != "status"@[0]);
    lemma_short_name(words[0]);
    let arguments = words.skip(1);
    if words.len() == 3 {
        let word = words[2];
        assert(word == "--show-current"@);
        assert(arguments[0] == words[1] && arguments[1] == word);
        lemma_short_name(words[1]);
        lemma_short_option(word);
        assert(is_bare_option(word));
        lemma_plain_is_harmless(words[0], words[1]);
        text::lemma_first_position(word, '=', 0);
        assert(text::before(word, '=') == word);
        assert(word[7] == 'c' && "--show-signature"@[7] == 's');
        if word.is_prefix_of("--show-signature"@) {
            assert("--show-signature"@.subrange(0, word.len() as int)[7] == word[7]);
        }
        if word.is_prefix_of("--output"@) {
            assert("--output"@.subrange(0, word.len() as int)[2] == word[2]);
        }
        if word.is_prefix_of("--textconv"@) {
            assert("--textconv"@.subrange(0, word.len() as int)[2] == word[2]);
        }
        if word.is_prefix_of("--ext-diff"@) {
            assert("--ext-diff"@.subrange(0, word.len() as int)[2] == word[2]);
        }
        if word.is_prefix_of("--open-files-in-pager"@) {
            assert("--open-files-in-pager"@.subrange(0, word.len() as int)[2] == word[2]);
        }
        assert(word.subrange(0, 2) =~= "--"@);
        if policy_model::holds_pair(word, '%', 'G') {
            let i = choose|i: int|
                0 <= i < word.len() - 1 && #[trigger] word[i] == '%' && word[i + 1] == 'G';
            assert(word.contains(word[i]));
        }
        assert forall|i: int| 0 <= i < arguments.len() implies !policy_model::is_git_output_option(
            #[trigger] arguments[i],
        ) && !policy_model::is_signature_option(arguments[i])
            && !policy_model::is_git_helper_option(arguments[i]) by {
            assert(i == 0 || i == 1);
        }
    }
    assert(has_simple_arguments(words)) by {
        assert forall|i: int| 1 <= i < words.len() implies is_plain(#[trigger] words[i])
            || is_bare_option(words[i]) by {
            assert(i == 1 || i == 2);
        }
    }
    lemma_decided(root, words, answers);
    assert(policy_model::reason_before_paths(words[0], arguments) is None);
    assert(policy_model::mutation_reason(words[0], arguments) is None);
    assert(forall|argument: Seq<char>|
        !#[trigger] policy_model::is_following_option(words[0], argument));
    assert(policy_model::reading_reason(words[0], arguments) is None);
}

proof fn lemma_short_option(word: Seq<char>)
    requires
        word == "--show-current"@,
    ensures
        is_bare_option(word),
{
    reveal_strlit("--show-current");
    reveal_strlit("--");
    assert forall|i: int| 0 <= i < word.len() implies #[trigger] word[i] != '=' && word[i]
        != '%' by {
        assert(i == 0 || i == 1 || i == 2 || i == 3 || i == 4 || i == 5 || i == 6 || i == 7 || i
            == 8 || i == 9 || i == 10 || i == 11 || i == 12 || i == 13);
    }
}

} // verus!
