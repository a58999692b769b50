//! What the policy decides on commands behind programs that run their operands, and on
//! lines with syntax that it does not take apart.

use crate::command_input;
use crate::policy_laws;
use crate::policy_model;
use crate::policy_model::{
    AnswerView, DecisionView, ProbeState, TransparentWrapperError, Verdict,
};
use crate::policy_path_laws;
use crate::policy_reason_laws;
use crate::shell;
use crate::text;
use vstd::prelude::*;

verus! {

/// Whether a word is a program that runs its operands.
pub open spec fn is_wrapper(word: Seq<char>) -> bool {
    word == "command"@ || word == "exec"@ || word == "env"@
}

/// Whether a word is made of small letters and digits.
pub open spec fn is_small_word(word: Seq<char>) -> bool {
    word.len() > 0 && forall|i: int|
        0 <= i < word.len() ==> policy_reason_laws::is_small(#[trigger] word[i])
}

proof fn lemma_small_word(word: Seq<char>)
    requires
        is_wrapper(word) || policy_reason_laws::is_elevation(word),
    ensures
        is_small_word(word),
        policy_reason_laws::is_plain(word),
        policy_reason_laws::is_elevation(word) ==> !is_wrapper(word),
{
    reveal_strlit("command");
    reveal_strlit("exec");
    reveal_strlit("env");
    reveal_strlit("sudo");
    reveal_strlit("doas");
    reveal_strlit("su");
    assert("sudo"@[0] != "exec"@[0]);
    assert("doas"@[0] != "exec"@[0]);
    policy_reason_laws::lemma_short_name(word);
    assert forall|i: int| 0 <= i < word.len() implies policy_reason_laws::is_small(
        #[trigger] word[i],
    ) by {
        assert(i == 0 || i == 1 || i == 2 || i == 3 || i == 4 || i == 5 || i == 6);
    }
}

proof fn lemma_no_option(word: Seq<char>)
    requires
        word.len() > 0,
        word[0] != '-',
    ensures
        word != "--"@,
        word != "-u"@,
        word != "--unset"@,
        word != "-C"@,
        word != "--chdir"@,
        word != "-P"@,
        word != "-a"@,
        word != "--argv0"@,
        word != "--help"@,
        word != "--version"@,
        word != "-S"@,
        word != "--split-string"@,
        word != "--split-string="@,
        word != "--unset="@,
        word != "--chdir="@,
        word != "--argv0="@,
        word != "--block-signal"@,
        word != "--default-signal"@,
        word != "--ignore-signal"@,
        word != "--list-signal-handling"@,
        word != "--debug"@,
        word != "-p"@,
        word != "-v"@,
        word != "-V"@,
        !policy_model::is_env_split_option(word),
        !policy_model::is_env_flag(word),
        !policy_model::is_env_option_with_operand(word),
{
    reveal_strlit("--");
    reveal_strlit("-u");
    reveal_strlit("--unset");
    reveal_strlit("-C");
    reveal_strlit("--chdir");
    reveal_strlit("-P");
    reveal_strlit("-a");
    reveal_strlit("--argv0");
    reveal_strlit("--help");
    reveal_strlit("--version");
    reveal_strlit("-S");
    reveal_strlit("--split-string");
    reveal_strlit("--split-string=");
    reveal_strlit("--unset=");
    reveal_strlit("--chdir=");
    reveal_strlit("--argv0=");
    reveal_strlit("--block-signal");
    reveal_strlit("--default-signal");
    reveal_strlit("--ignore-signal");
    reveal_strlit("--list-signal-handling");
    reveal_strlit("--debug");
    reveal_strlit("-p");
    reveal_strlit("-v");
    reveal_strlit("-V");
    assert forall|prefix: Seq<char>| prefix.len() > 0 && prefix[0] == '-' implies
        !#[trigger] prefix.is_prefix_of(word) by {
        if prefix.is_prefix_of(word) {
            assert(word.subrange(0, prefix.len() as int)[0] == word[0]);
        }
    }
}

/// Whether a word gives a variable a value.
pub open spec fn is_assignment(word: Seq<char>) -> bool {
    word.len() > 0 && word[0] != '-' && word[0] != '=' && word.contains('=')
}

proof fn lemma_env_skips(words: Seq<Seq<char>>, at: int, end: int)
    requires
        0 <= at <= end < words.len(),
        forall|i: int| at <= i < end ==> is_assignment(#[trigger] words[i]) || words[i] == "-i"@,
        is_small_word(words[end]),
    ensures
        policy_model::env_wrapped_program_index(words, at) == Ok::<
            Option<int>,
            TransparentWrapperError,
        >(Some(end)),
    decreases end - at,
{
    let word = words[at];
    if at < end {
        lemma_env_skips(words, at + 1, end);
        if is_assignment(word) {
            lemma_no_option(word);
        } else {
        reveal_strlit("-i");
        reveal_strlit("--");
        reveal_strlit("-u");
        reveal_strlit("--unset");
        reveal_strlit("-C");
        reveal_strlit("--chdir");
        reveal_strlit("-P");
        reveal_strlit("-a");
        reveal_strlit("--argv0");
        reveal_strlit("--help");
        reveal_strlit("--version");
        reveal_strlit("-S");
        reveal_strlit("--split-string");
        reveal_strlit("--split-string=");
        reveal_strlit("--unset=");
        reveal_strlit("--chdir=");
        reveal_strlit("--argv0=");
        reveal_strlit("--block-signal");
        reveal_strlit("--default-signal");
        reveal_strlit("--ignore-signal");
        reveal_strlit("--list-signal-handling");
        reveal_strlit("--debug");
            assert(word.len() == 2 && word[1] == 'i');
            assert("-i"@[1] != "--"@[1]);
            assert("-i"@[1] != "-u"@[1]);
            assert("-i"@[1] != "-C"@[1]);
            assert("-i"@[1] != "-P"@[1]);
            assert("-i"@[1] != "-a"@[1]);
            assert("-i"@[1] != "-S"@[1]);
            assert(!"-S"@.is_prefix_of(word)) by {
                if "-S"@.is_prefix_of(word) {
                    assert(word.subrange(0, 2)[1] == word[1]);
                }
            }
            assert(policy_model::env_short_option_cluster_has_no_value(word));
        }
    } else {
        assert(policy_reason_laws::is_small(word[0]));
        lemma_no_option(word);
        assert(!word.contains('=')) by {
            if word.contains('=') {
                let i = choose|i: int| 0 <= i < word.len() && word[i] == '=';
                assert(policy_reason_laws::is_small(word[i]));
            }
        }
    }
}

proof fn lemma_wrapped(words: Seq<Seq<char>>)
    requires
        words.len() >= 2,
        is_wrapper(words[0]),
        is_small_word(words[1]),
    ensures
        policy_model::wrapped_program_index(words) == Ok::<Option<int>, TransparentWrapperError>(
            Some(1int),
        ),
{
    reveal_strlit("command");
    reveal_strlit("exec");
    reveal_strlit("env");
    lemma_small_word(words[0]);
    policy_reason_laws::lemma_plain_name(words[0]);
    lemma_env_skips(words, 1, 1);
    assert(policy_reason_laws::is_small(words[1][0]));
    lemma_no_option(words[1]);
    assert(policy_model::command_wrapped_program_index(words, 1) == Ok::<
        Option<int>,
        TransparentWrapperError,
    >(Some(1int)));
    assert(policy_model::exec_wrapped_program_index(words, 1) == Ok::<
        Option<int>,
        TransparentWrapperError,
    >(Some(1int)));
}

proof fn lemma_chain(words: Seq<Seq<char>>, at: int, count: int)
    requires
        0 <= at <= count < words.len(),
        at <= 4,
        forall|i: int| 0 <= i < count ==> is_wrapper(#[trigger] words[i]),
        count <= 4 ==> policy_reason_laws::is_elevation(words[count]),
        count > 4 ==> is_small_word(words[count]),
    ensures
        count <= 4 ==> policy_model::unwrap_transparent_command_wrappers(words.skip(at), at as nat)
            == Ok::<Seq<Seq<char>>, TransparentWrapperError>(words.skip(count)),
        count > 4 ==> policy_model::unwrap_transparent_command_wrappers(words.skip(at), at as nat)
            == Err::<Seq<Seq<char>>, TransparentWrapperError>(TransparentWrapperError::TooDeep),
    decreases count - at,
{
    let rest = words.skip(at);
    assert(rest[0] == words[at]);
    if at < count && at < 4 {
        assert(rest[1] == words[at + 1]);
        assert(is_wrapper(words[at]));
        if at + 1 < count {
            assert(is_wrapper(words[at + 1]));
        }
        if at + 1 < count || count <= 4 {
            lemma_small_word(words[at + 1]);
        }
        lemma_wrapped(rest);
        assert(rest.skip(1) =~= words.skip(at + 1));
        lemma_chain(words, at + 1, count);
    } else if at < count {
        assert(is_wrapper(words[at]));
        assert(rest.len() >= 2);
        assert(rest[1] == words[at + 1]);
        if at + 1 < count {
            assert(is_wrapper(words[at + 1]));
            lemma_small_word(words[at + 1]);
        }
        lemma_wrapped(rest);
    } else {
        lemma_small_word(words[at]);
        policy_reason_laws::lemma_plain_name(words[at]);
        assert(policy_model::wrapped_program_index(rest) == Ok::<
            Option<int>,
            TransparentWrapperError,
        >(None));
    }
}

/// A program that gives its caller the rights of another user is rejected behind up to
/// four programs that run their operands.
pub proof fn law_elevation_is_seen_behind_wrappers(
    root: Seq<char>,
    words: Seq<Seq<char>>,
    count: int,
    answers: Seq<AnswerView>,
)
    requires
        policy_reason_laws::is_line(words),
        0 <= count <= 4,
        count < words.len(),
        forall|i: int| 0 <= i < count ==> is_wrapper(#[trigger] words[i]),
        policy_reason_laws::is_elevation(words[count]),
    ensures
        policy_model::verdict(root, shell::quoted_line(words), answers) == Verdict::Decided(
            DecisionView::Reject("command attempts privilege elevation"@),
        ),
{
    policy_reason_laws::lemma_quoted(root, words, answers);
    lemma_chain(words, 0, count);
    assert(words.skip(0) =~= words);
    let inner = words.skip(count);
    assert(inner[0] == words[count]);
    lemma_small_word(words[count]);
    policy_reason_laws::lemma_plain_name(words[count]);
}

/// A program behind more than four programs that run their operands is rejected,
/// whatever it is called.
pub proof fn law_deep_wrappers_are_rejected(
    root: Seq<char>,
    words: Seq<Seq<char>>,
    count: int,
    answers: Seq<AnswerView>,
)
    requires
        policy_reason_laws::is_line(words),
        5 <= count < words.len(),
        forall|i: int| 0 <= i < count ==> is_wrapper(#[trigger] words[i]),
        is_small_word(words[count]),
    ensures
        policy_model::verdict(root, shell::quoted_line(words), answers) == Verdict::Decided(
            DecisionView::Reject("command uses too many transparent command wrappers"@),
        ),
{
    policy_reason_laws::lemma_quoted(root, words, answers);
    lemma_chain(words, 0, count);
    assert(words.skip(0) =~= words);
}

/// A program that gives its caller the rights of another user is rejected behind `env`,
/// whatever variables are set or left out in front of it.
pub proof fn law_elevation_is_seen_behind_variables(
    root: Seq<char>,
    words: Seq<Seq<char>>,
    count: int,
    answers: Seq<AnswerView>,
)
    requires
        policy_reason_laws::is_line(words),
        1 <= count < words.len(),
        words[0] == "env"@,
        forall|i: int| 1 <= i < count ==> is_assignment(#[trigger] words[i]) || words[i] == "-i"@,
        policy_reason_laws::is_elevation(words[count]),
    ensures
        policy_model::verdict(root, shell::quoted_line(words), answers) == Verdict::Decided(
            DecisionView::Reject("command attempts privilege elevation"@),
        ),
{
    reveal_strlit("command");
    reveal_strlit("exec");
    reveal_strlit("env");
    policy_reason_laws::lemma_quoted(root, words, answers);
    lemma_small_word(words[0]);
    lemma_small_word(words[count]);
    policy_reason_laws::lemma_plain_name(words[0]);
    policy_reason_laws::lemma_plain_name(words[count]);
    lemma_env_skips(words, 1, count);
    let inner = words.skip(count);
    assert(inner[0] == words[count]);
    reveal_with_fuel(policy_model::unwrap_transparent_command_wrappers, 3);
    assert(policy_model::wrapped_program_index(words) == Ok::<
        Option<int>,
        TransparentWrapperError,
    >(Some(count)));
    assert(policy_model::wrapped_program_index(inner) == Ok::<
        Option<int>,
        TransparentWrapperError,
    >(None));
    assert(policy_model::unwrap_transparent_command_wrappers(inner, 1) == Ok::<
        Seq<Seq<char>>,
        TransparentWrapperError,
    >(inner));
}

proof fn lemma_all_pass(
    root: Seq<char>,
    commands: Seq<Seq<Seq<char>>>,
    at: int,
    state: ProbeState,
    answers: Seq<AnswerView>,
)
    requires
        0 <= at <= commands.len(),
        forall|i: int|
            0 <= i < commands.len() ==> policy_model::hard_rule(#[trigger] commands[i]) is Pass,
    ensures
        policy_model::hard_verdicts(root, commands, at, state, answers) == (state, Verdict::Pass),
    decreases commands.len() - at,
{
    if at < commands.len() {
        assert(policy_model::hard_rule(commands[at]) is Pass);
        lemma_all_pass(root, commands, at + 1, state, answers);
    }
}

/// A line that starts something in the background, redirects, expands or comments needs
/// an approval that says so, whatever its commands are, where the hard rules do not
/// concern them; no lookup is made for it.
pub proof fn law_other_syntax_needs_approval(
    root: Seq<char>,
    command: Seq<char>,
    answers: Seq<AnswerView>,
)
    requires
        command_input::text_error(command) is None,
        shell::parse(command) is Ok,
        forall|i: int|
            0 <= i < shell::parse(command)->Ok_0.commands.len() ==> policy_model::hard_rule(
                #[trigger] shell::parse(command)->Ok_0.commands[i],
            ) is Pass,
    ensures
        ({
            let parsed = shell::parse(command)->Ok_0;
            let verdict = policy_model::verdict(root, command, answers);
            &&& parsed.has_background ==> verdict == Verdict::Decided(
                DecisionView::RequiresApproval("command starts or manages a background process"@),
            )
            &&& !parsed.has_background && parsed.has_redirection ==> verdict == Verdict::Decided(
                DecisionView::RequiresApproval("command redirects input or output"@),
            )
            &&& !parsed.has_background && !parsed.has_redirection && (parsed.has_dynamic_expansion
                || parsed.has_pathname_expansion) ==> verdict == Verdict::Decided(
                DecisionView::RequiresApproval("command uses dynamic shell expansion"@),
            )
            &&& !parsed.has_background && !parsed.has_redirection && !parsed.has_dynamic_expansion
                && !parsed.has_pathname_expansion && (parsed.has_comment
                || parsed.has_unclassified_syntax) ==> verdict == Verdict::Decided(
                DecisionView::RequiresApproval(
                    "command contains shell syntax that is not classified as low-risk"@,
                ),
            )
        }),
{
    let parsed = shell::parse(command)->Ok_0;
    lemma_all_pass(root, parsed.commands, 0, ProbeState::initial(), answers);
}

/// A line that cannot be read, is blank or is too long is rejected, whatever a lookup
/// would find.
pub proof fn law_unreadable_lines_are_rejected(
    root: Seq<char>,
    command: Seq<char>,
    answers: Seq<AnswerView>,
)
    requires
        shell::parse(command) is Err || text::is_blank(command) || vstd::utf8::encode_utf8(
            command,
        ).len() > 65536,
    ensures
        policy_model::verdict(root, command, answers) matches Verdict::Decided(
            DecisionView::Reject(_),
        ),
{
}

/// A path that is attached to an option stays in the workspace by its text in a command
/// that is allowed without an approval: a file of patterns behind `-f`, and files of
/// magic behind `-m`.
pub proof fn law_attached_paths_stay_inside(
    root: Seq<char>,
    command: Seq<char>,
    answers: Seq<AnswerView>,
    at: int,
    index: int,
    value: Seq<char>,
)
    requires
        policy_model::verdict(root, command, answers) == Verdict::Decided(DecisionView::Allow),
        shell::parse(command) is Ok ==> 0 <= at < shell::parse(command)->Ok_0.commands.len() && 1
            <= index < shell::parse(command)->Ok_0.commands[at].len(),
        value.len() > 0,
        !value.contains('='),
    ensures
        ({
            let words = shell::parse(command)->Ok_0.commands[at];
            &&& (words[0] == "rg"@ || words[0] == "grep"@) && words[index] == seq!['-', 'f'] + value
                ==> policy_path_laws::stays_inside(root, value)
            &&& words[0] == "file"@ && words[index] == seq!['-', 'm'] + value ==> forall|i: int|
                0 <= i < text::split(value, ':').len() ==> policy_path_laws::stays_inside(
                    root,
                    #[trigger] text::split(value, ':')[i],
                )
        }),
{
    policy_laws::law_allowed_commands_are_low_risk(root, command, answers, at);
    let words = shell::parse(command)->Ok_0.commands[at];
    let arguments = words.skip(1);
    let word = words[index];
    assert(arguments[index - 1] == word);
    assert((seq!['-', 'f'] + value).skip(2) =~= value);
    assert((seq!['-', 'm'] + value).skip(2) =~= value);
    reveal_strlit("rg");
    reveal_strlit("grep");
    reveal_strlit("file");
    reveal_strlit("git");
    assert("file"@[0] != "grep"@[0]);
    if (words[0] == "rg"@ || words[0] == "grep"@) && word == seq!['-', 'f'] + value {
        let option = policy_model::path_option(words[0], arguments)->Some_0;
        lemma_attached(word, 'f', option.short, value);
        lemma_option_value(arguments, option, index - 1, value);
        lemma_option_kept(arguments, option, index - 1, arguments.len() as int, value);
        lemma_by_option(root, words, option, value);
    }
    if words[0] == "file"@ && word == seq!['-', 'm'] + value {
        let option = policy_model::path_option(words[0], arguments)->Some_0;
        lemma_attached(word, 'm', option.short, value);
        lemma_option_value(arguments, option, index - 1, value);
        let pieces = text::split(value, ':');
        assert forall|i: int| 0 <= i < pieces.len() implies policy_path_laws::stays_inside(
            root,
            #[trigger] pieces[i],
        ) by {
            assert(pieces.contains(pieces[i]));
            lemma_option_kept(arguments, option, index - 1, arguments.len() as int, pieces[i]);
            lemma_by_option(root, words, option, pieces[i]);
        }
    }
}

proof fn lemma_attached(word: Seq<char>, letter: char, options: Seq<char>, value: Seq<char>)
    requires
        word == seq!['-', letter] + value,
        value.len() > 0,
        letter == 'f' || letter == 'm',
        options.len() > 0 && options[0] == letter,
    ensures
        policy_model::attached_short_option_value(word, options) == Some(value),
{
    reveal_strlit("--");
    assert(word[0] == '-' && word[1] == letter);
    if "--"@.is_prefix_of(word) {
        assert(word.subrange(0, 2)[1] == word[1]);
    }
    assert(options.contains(letter));
    assert(policy_model::option_position(word, options, 1) == Some(1int));
    assert(word.skip(2) =~= value);
}

proof fn lemma_option_value(
    arguments: Seq<Seq<char>>,
    option: policy_model::PathOption,
    at: int,
    value: Seq<char>,
)
    requires
        0 <= at < arguments.len(),
        arguments[at].len() > 2,
        arguments[at][0] == '-' && arguments[at][1] != '-' && arguments[at][1] != '=',
        arguments[at].skip(2) == value,
        !value.contains('='),
        policy_model::attached_short_option_value(arguments[at], option.short) == Some(value),
    ensures
        policy_model::option_value(arguments, at, option) == Some(value),
{
    reveal_strlit("--");
    let argument = arguments[at];
    assert(!argument.contains('=')) by {
        if argument.contains('=') {
            let i = choose|i: int| 0 <= i < argument.len() && argument[i] == '=';
            assert(i >= 2);
            assert(value[i - 2] == '=');
        }
    }
    text::lemma_first_position(argument, '=', 0);
    if let Some(position) = text::first_position(argument, '=', 0) {
        assert(argument.contains(argument[position]));
    }
    assert(text::before(argument, '=') == argument);
    if "--"@.is_prefix_of(argument) {
        assert(argument.subrange(0, 2)[1] == argument[1]);
    }
}

proof fn lemma_option_kept(
    arguments: Seq<Seq<char>>,
    option: policy_model::PathOption,
    at: int,
    count: int,
    wanted: Seq<char>,
)
    requires
        0 <= at < count <= arguments.len(),
        option.skipped == 0,
        policy_model::option_value(arguments, at, option) matches Some(value) && if option.colon_separated {
            text::split(value, ':').contains(wanted)
        } else {
            value == wanted
        },
    ensures
        policy_model::option_paths(arguments, option, count).contains(wanted),
    decreases count,
{
    let earlier = policy_model::option_paths(arguments, option, count - 1);
    let all = policy_model::option_paths(arguments, option, count);
    if at < count - 1 {
        lemma_option_kept(arguments, option, at, count - 1, wanted);
        let i = choose|i: int| 0 <= i < earlier.len() && earlier[i] == wanted;
        assert(all[i] == wanted);
    } else if option.colon_separated {
        let value = policy_model::option_value(arguments, at, option)->Some_0;
        let pieces = text::split(value, ':');
        let i = choose|i: int| 0 <= i < pieces.len() && pieces[i] == wanted;
        assert(all[earlier.len() + i] == wanted);
    } else {
        assert(all[earlier.len() as int] == wanted);
    }
}

proof fn lemma_by_option(
    root: Seq<char>,
    words: Seq<Seq<char>>,
    option: policy_model::PathOption,
    wanted: Seq<char>,
)
    requires
        policy_laws::is_low_risk(root, words),
        policy_model::path_option(words[0], words.skip(1)) == Some(option),
        policy_model::option_paths(words.skip(1), option, words.len() - 1).contains(wanted),
    ensures
        policy_path_laws::stays_inside(root, wanted),
{
    let arguments = words.skip(1);
    let paths = policy_model::option_paths(arguments, option, arguments.len() as int);
    let named = policy_model::named_paths(words[0], arguments);
    let i = choose|i: int| 0 <= i < paths.len() && paths[i] == wanted;
    assert(named[i] == paths[i]);
    policy_path_laws::lemma_stays_inside(root, wanted);
}

} // verus!
