//! What the policy of commands decides, said of the words of the commands.

use crate::policy_laws;
use crate::policy_model;
use crate::policy_model::{AnswerView, DecisionView, Verdict};
use crate::shell;
use crate::text;
use vstd::prelude::*;

verus! {

/// Whether a word spells a long option, in full or cut short, alone or with a
/// value behind `=`.
pub open spec fn spells(word: Seq<char>, option: Seq<char>) -> bool {
    exists|length: int|
        {
            &&& 2 < length <= option.len()
            &&& word == option.take(length) || (#[trigger] option.take(length)).push(
                '=',
            ).is_prefix_of(word)
        }
}

/// Whether a word is a dash and short options, and the letter is one of them.
pub open spec fn has_letter(word: Seq<char>, letter: char) -> bool {
    &&& word.len() >= 2
    &&& word[0] == '-'
    &&& word[1] != '-'
    &&& exists|at: int| 1 <= at < word.len() && #[trigger] word[at] == letter
}

/// Whether a word is one of the arguments of a command.
pub open spec fn has_argument(words: Seq<Seq<char>>, wanted: Seq<char>) -> bool {
    exists|at: int| 1 <= at < words.len() && #[trigger] words[at] == wanted
}

/// Whether an argument of a command spells a long option.
pub open spec fn has_option(words: Seq<Seq<char>>, option: Seq<char>) -> bool {
    exists|at: int| 1 <= at < words.len() && spells(#[trigger] words[at], option)
}

/// Whether an argument of a command gives a short option.
pub open spec fn has_flag(words: Seq<Seq<char>>, letter: char) -> bool {
    exists|at: int| 1 <= at < words.len() && has_letter(#[trigger] words[at], letter)
}

/// Whether an argument of a command begins in this way.
pub open spec fn has_beginning(words: Seq<Seq<char>>, beginning: Seq<char>) -> bool {
    exists|at: int| 1 <= at < words.len() && beginning.is_prefix_of(#[trigger] words[at])
}

/// The commands that may run without approval, by their first words.
pub open spec fn is_listed(words: Seq<Seq<char>>) -> bool {
    ||| words == seq!["pwd"@]
    ||| words.len() == 3 && words[0] == "command"@ && words[1] == "-v"@
    ||| words.len() >= 1 && (words[0] == "echo"@ || words[0] == "printf"@ || words[0] == "true"@
        || words[0] == "false"@)
    ||| words.len() >= 1 && (words[0] == "ls"@ || words[0] == "cat"@ || words[0] == "grep"@
        || words[0] == "head"@ || words[0] == "tail"@ || words[0] == "wc"@ || words[0] == "stat"@
        || words[0] == "file"@ || words[0] == "find"@ || words[0] == "sed"@)
    ||| words.len() >= 2 && words[0] == "rg"@ && words[1] == "--no-config"@
    ||| words.len() >= 2 && words[0] == "git"@ && words[1] == "rev-parse"@
    ||| words == seq!["git"@, "branch"@, "--show-current"@]
    ||| words.len() >= 2 && words[0] == "cargo"@ && (words[1] == "check"@ || words[1] == "test"@
        || words[1] == "clippy"@ || words[1] == "metadata"@)
    ||| words.len() >= 3 && words[0] == "cargo"@ && words[1] == "fmt"@ && exists|at: int|
        2 <= at < words.len() && #[trigger] words[at] == "--check"@
}

/// Whether the options of `git` keep it from writing or running a helper.
pub open spec fn git_is_restrained(words: Seq<Seq<char>>) -> bool {
    &&& !has_option(words, "--output"@)
    &&& !has_option(words, "--show-signature"@)
    &&& !has_option(words, "--open-files-in-pager"@)
    &&& !has_option(words, "--ext-diff"@)
    &&& !has_option(words, "--textconv"@)
    &&& !has_flag(words, 'O')
}

/// Whether the options of `cargo` keep it from loading another configuration and from changing the sources.
pub open spec fn cargo_is_restrained(words: Seq<Seq<char>>) -> bool {
    &&& !has_argument(words, "--config"@)
    &&& !has_beginning(words, "--config="@)
    &&& words.len() >= 2 && words[1] == "clippy"@ ==> !has_argument(words, "--fix"@)
}

/// Whether the options of `rg` keep it from running a helper and from following links.
pub open spec fn rg_is_restrained(words: Seq<Seq<char>>) -> bool {
    &&& !has_option(words, "--pre"@)
    &&& !has_option(words, "--search-zip"@)
    &&& !has_option(words, "--follow"@)
    &&& !has_flag(words, 'z')
    &&& !has_flag(words, 'L')
}

/// Whether the options of `grep` keep it from following links.
pub open spec fn grep_is_restrained(words: Seq<Seq<char>>) -> bool {
    &&& !has_option(words, "--dereference-recursive"@)
    &&& !has_flag(words, 'R')
}

/// Whether the options of `ls` keep it from following links.
pub open spec fn ls_is_restrained(words: Seq<Seq<char>>) -> bool {
    !has_option(words, "--dereference"@) && !has_flag(words, 'L')
}

/// Whether the options of `wc` keep it from loading further paths.
pub open spec fn wc_is_restrained(words: Seq<Seq<char>>) -> bool {
    !has_option(words, "--files0-from"@)
}

/// Whether the options of `tail` keep it from running on.
pub open spec fn tail_is_restrained(words: Seq<Seq<char>>) -> bool {
    &&& !has_option(words, "--follow"@)
    &&& !has_option(words, "--retry"@)
    &&& !has_option(words, "--pid"@)
    &&& !has_flag(words, 'f')
    &&& !has_flag(words, 'F')
}

/// Whether the options of `file` keep it from running a helper, writing and loading further paths.
pub open spec fn file_is_restrained(words: Seq<Seq<char>>) -> bool {
    &&& !has_option(words, "--uncompress"@)
    &&& !has_option(words, "--uncompress-noreport"@)
    &&& !has_option(words, "--compile"@)
    &&& !has_option(words, "--files-from"@)
    &&& !has_flag(words, 'z')
    &&& !has_flag(words, 'Z')
    &&& !has_flag(words, 'C')
    &&& !has_flag(words, 'f')
}

/// Whether the options of `find` keep it from changing files, running a helper and loading further paths.
pub open spec fn find_is_restrained(words: Seq<Seq<char>>) -> bool {
    &&& !has_argument(words, "-delete"@)
    &&& !has_argument(words, "-exec"@)
    &&& !has_argument(words, "-execdir"@)
    &&& !has_argument(words, "-ok"@)
    &&& !has_argument(words, "-okdir"@)
    &&& !has_argument(words, "-fprint"@)
    &&& !has_argument(words, "-fprint0"@)
    &&& !has_argument(words, "-fprintf"@)
    &&& !has_argument(words, "-fls"@)
    &&& !has_argument(words, "-L"@)
    &&& !has_argument(words, "-follow"@)
    &&& !has_beginning(words, "-files0-from"@)
}

/// Whether the options of `sed` keep it from changing files and running commands.
pub open spec fn sed_is_restrained(words: Seq<Seq<char>>) -> bool {
    !has_beginning(words, "-i"@) && runs_printing_scripts(words)
}

/// Whether the options of `printf` keep it from setting a variable and writing without a bound.
pub open spec fn printf_is_restrained(words: Seq<Seq<char>>) -> bool {
    words.len() >= 2 ==> {
        &&& !"-v"@.is_prefix_of(words[1])
        &&& words[1] != "--"@ ==> has_plain_directives(words[1])
        &&& words[1] == "--"@ && words.len() >= 3 ==> has_plain_directives(words[2])
    }
}

/// Whether a listed command is kept from writing, from running helpers and from
/// loading further paths by its options.
pub open spec fn is_restrained(words: Seq<Seq<char>>) -> bool {
    &&& words[0] == "git"@ ==> git_is_restrained(words)
    &&& words[0] == "cargo"@ ==> cargo_is_restrained(words)
    &&& words[0] == "rg"@ ==> rg_is_restrained(words)
    &&& words[0] == "grep"@ ==> grep_is_restrained(words)
    &&& words[0] == "ls"@ ==> ls_is_restrained(words)
    &&& words[0] == "wc"@ ==> wc_is_restrained(words)
    &&& words[0] == "tail"@ ==> tail_is_restrained(words)
    &&& words[0] == "file"@ ==> file_is_restrained(words)
    &&& words[0] == "find"@ ==> find_is_restrained(words)
    &&& words[0] == "sed"@ ==> sed_is_restrained(words)
    &&& words[0] == "printf"@ ==> printf_is_restrained(words)
}

/// Whether the first directive of a `printf` format has no width or precision
/// right behind its `%`.
pub open spec fn has_plain_directives(format: Seq<char>) -> bool {
    forall|at: int|
        0 <= at < format.len() - 1 && #[trigger] format[at] == '%' && (forall|before: int|
            0 <= before < at ==> #[trigger] format[before] != '%') ==> format[at + 1] != '*' && !(
        '0' <= format[at + 1] <= '9')
}

/// Whether a text is a script that only prints lines or quits.
pub open spec fn only_prints(script: Seq<char>) -> bool {
    script.len() > 0 && forall|at: int|
        0 <= at < script.len() ==> {
            ||| '0' <= #[trigger] script[at] <= '9'
            ||| script[at] == ','
            ||| script[at] == '$'
            ||| script[at] == 'p'
            ||| script[at] == 'q'
        }
}

/// Whether every script that an option of `sed` names only prints, where no `--`
/// ends the options before it.
pub open spec fn runs_printing_scripts(words: Seq<Seq<char>>) -> bool {
    &&& words.len() >= 2
    &&& forall|at: int|
        1 <= at < words.len() && (#[trigger] words[at] == "-e"@ || words[at] == "--expression"@)
            && !(exists|before: int| 1 <= before < at && #[trigger] words[before] == "--"@) ==> at
            + 1 < words.len() && only_prints(words[at + 1])
    &&& words[1].len() == 0 || words[1][0] != '-' ==> only_prints(words[1])
}

proof fn lemma_spelling(word: Seq<char>, option: Seq<char>)
    requires
        spells(word, option),
        option.len() > 2,
        option[0] == '-',
        option[1] == '-',
        !option.contains('='),
    ensures
        policy_model::long_option_matches_or_abbreviates(word, option),
{
    reveal_strlit("--");
    let length = choose|length: int|
        {
            &&& 2 < length <= option.len()
            &&& word == option.take(length) || (#[trigger] option.take(length)).push(
                '=',
            ).is_prefix_of(word)
        };
    let name = option.take(length);
    assert forall|i: int| 0 <= i < name.len() implies name[i] != '=' by {
        assert(option[i] == name[i]);
    }
    text::lemma_first_position(word, '=', 0);
    if word == name {
        assert(text::before(word, '=') =~= name);
    } else {
        assert(word[length] == '=') by {
            assert(name.push('=')[length] == '=');
        }
        assert forall|i: int| 0 <= i < length implies word[i] != '=' by {
            assert(name.push('=')[i] == word[i]);
            assert(name[i] == word[i]);
        }
        assert(text::before(word, '=') =~= name);
    }
    assert(name.is_prefix_of(option));
    assert("--"@.is_prefix_of(name)) by {
        assert("--"@ =~= name.take(2));
    }
}

proof fn lemma_letter(word: Seq<char>, letter: char)
    requires
        has_letter(word, letter),
    ensures
        policy_model::short_option_cluster_contains(word, letter),
{
    reveal_strlit("--");
    let at = choose|at: int| 1 <= at < word.len() && #[trigger] word[at] == letter;
    assert(word.skip(1)[at - 1] == letter);
    if "--"@.is_prefix_of(word) {
        assert(word[1] == "--"@[1]);
    }
}

/// An argument that a rule speaks of is one of those that it looks at.
proof fn lemma_any(words: Seq<Seq<char>>, at: int, rule: spec_fn(Seq<char>) -> bool)
    requires
        1 <= at < words.len(),
        rule(words[at]),
    ensures
        policy_model::any_argument(words.skip(1), rule),
{
    assert(words.skip(1)[at - 1] == words[at]);
}

proof fn lemma_git_is_restrained(words: Seq<Seq<char>>)
    requires
        words.len() > 0,
        words[0] == "git"@,
        policy_model::reason_before_paths(words[0], words.skip(1)) is None,
        policy_model::reason_after_paths(words[0], words.skip(1)) is None,
    ensures
        git_is_restrained(words),
{
    reveal_strlit("git");
    reveal_strlit("cargo");
    reveal_strlit("rg");
    reveal_strlit("grep");
    reveal_strlit("ls");
    reveal_strlit("wc");
    reveal_strlit("tail");
    reveal_strlit("file");
    reveal_strlit("find");
    reveal_strlit("sed");
    reveal_strlit("printf");
    reveal_strlit("--output");
    reveal_strlit("--show-signature");
    reveal_strlit("--open-files-in-pager");
    reveal_strlit("--ext-diff");
    reveal_strlit("--textconv");
    assert forall|at: int| 1 <= at < words.len() implies {
        &&& !spells(#[trigger] words[at], "--output"@)
        &&& !spells(words[at], "--show-signature"@)
        &&& !spells(words[at], "--open-files-in-pager"@)
        &&& !spells(words[at], "--ext-diff"@)
        &&& !spells(words[at], "--textconv"@)
        &&& !has_letter(words[at], 'O')
    } by {
        let word = words[at];
        if spells(word, "--output"@) {
            lemma_spelling(word, "--output"@);
            lemma_any(
                words,
                at,
                |argument: Seq<char>| policy_model::is_git_output_option(argument),
            );
        }
        if spells(word, "--show-signature"@) {
            lemma_spelling(word, "--show-signature"@);
            lemma_any(
                words,
                at,
                |argument: Seq<char>| policy_model::is_signature_option(argument),
            );
        }
        if spells(word, "--open-files-in-pager"@) {
            lemma_spelling(word, "--open-files-in-pager"@);
            lemma_any(
                words,
                at,
                |argument: Seq<char>| policy_model::is_git_helper_option(argument),
            );
        }
        if spells(word, "--ext-diff"@) {
            lemma_spelling(word, "--ext-diff"@);
            lemma_any(
                words,
                at,
                |argument: Seq<char>| policy_model::is_git_helper_option(argument),
            );
        }
        if spells(word, "--textconv"@) {
            lemma_spelling(word, "--textconv"@);
            lemma_any(
                words,
                at,
                |argument: Seq<char>| policy_model::is_git_helper_option(argument),
            );
        }
        if has_letter(word, 'O') {
            lemma_letter(word, 'O');
            lemma_any(
                words,
                at,
                |argument: Seq<char>| policy_model::is_git_helper_option(argument),
            );
        }
    }
}

proof fn lemma_rg_is_restrained(words: Seq<Seq<char>>)
    requires
        words.len() > 0,
        words[0] == "rg"@,
        policy_model::reason_before_paths(words[0], words.skip(1)) is None,
        policy_model::reason_after_paths(words[0], words.skip(1)) is None,
    ensures
        rg_is_restrained(words),
{
    reveal_strlit("git");
    reveal_strlit("cargo");
    reveal_strlit("rg");
    reveal_strlit("grep");
    reveal_strlit("ls");
    reveal_strlit("wc");
    reveal_strlit("tail");
    reveal_strlit("file");
    reveal_strlit("find");
    reveal_strlit("sed");
    reveal_strlit("printf");
    reveal_strlit("--pre");
    reveal_strlit("--search-zip");
    reveal_strlit("--follow");
    assert forall|at: int| 1 <= at < words.len() implies {
        &&& !spells(#[trigger] words[at], "--pre"@)
        &&& !spells(words[at], "--search-zip"@)
        &&& !spells(words[at], "--follow"@)
        &&& !has_letter(words[at], 'z')
        &&& !has_letter(words[at], 'L')
    } by {
        let word = words[at];
        if spells(word, "--pre"@) {
            lemma_spelling(word, "--pre"@);
            lemma_any(
                words,
                at,
                |argument: Seq<char>| policy_model::is_search_helper_option(argument),
            );
        }
        if spells(word, "--search-zip"@) {
            lemma_spelling(word, "--search-zip"@);
            lemma_any(
                words,
                at,
                |argument: Seq<char>| policy_model::is_search_helper_option(argument),
            );
        }
        if spells(word, "--follow"@) {
            lemma_spelling(word, "--follow"@);
            lemma_any(
                words,
                at,
                |argument: Seq<char>| policy_model::is_following_option(words[0], argument),
            );
        }
        if has_letter(word, 'z') {
            lemma_letter(word, 'z');
            lemma_any(
                words,
                at,
                |argument: Seq<char>| policy_model::is_search_helper_option(argument),
            );
        }
        if has_letter(word, 'L') {
            lemma_letter(word, 'L');
            lemma_any(
                words,
                at,
                |argument: Seq<char>| policy_model::is_following_option(words[0], argument),
            );
        }
    }
}

proof fn lemma_grep_is_restrained(words: Seq<Seq<char>>)
    requires
        words.len() > 0,
        words[0] == "grep"@,
        policy_model::reason_before_paths(words[0], words.skip(1)) is None,
        policy_model::reason_after_paths(words[0], words.skip(1)) is None,
    ensures
        grep_is_restrained(words),
{
    reveal_strlit("git");
    reveal_strlit("cargo");
    reveal_strlit("rg");
    reveal_strlit("grep");
    reveal_strlit("ls");
    reveal_strlit("wc");
    reveal_strlit("tail");
    reveal_strlit("file");
    reveal_strlit("find");
    reveal_strlit("sed");
    reveal_strlit("printf");
    reveal_strlit("--dereference-recursive");
    assert forall|at: int| 1 <= at < words.len() implies {
        &&& !spells(#[trigger] words[at], "--dereference-recursive"@)
        &&& !has_letter(words[at], 'R')
    } by {
        let word = words[at];
        if spells(word, "--dereference-recursive"@) {
            lemma_spelling(word, "--dereference-recursive"@);
            lemma_any(
                words,
                at,
                |argument: Seq<char>| policy_model::is_following_option(words[0], argument),
            );
        }
        if has_letter(word, 'R') {
            lemma_letter(word, 'R');
            lemma_any(
                words,
                at,
                |argument: Seq<char>| policy_model::is_following_option(words[0], argument),
            );
        }
    }
}

proof fn lemma_ls_is_restrained(words: Seq<Seq<char>>)
    requires
        words.len() > 0,
        words[0] == "ls"@,
        policy_model::reason_before_paths(words[0], words.skip(1)) is None,
        policy_model::reason_after_paths(words[0], words.skip(1)) is None,
    ensures
        ls_is_restrained(words),
{
    reveal_strlit("git");
    reveal_strlit("cargo");
    reveal_strlit("rg");
    reveal_strlit("grep");
    reveal_strlit("ls");
    reveal_strlit("wc");
    reveal_strlit("tail");
    reveal_strlit("file");
    reveal_strlit("find");
    reveal_strlit("sed");
    reveal_strlit("printf");
    reveal_strlit("--dereference");
    assert forall|at: int| 1 <= at < words.len() implies {
        &&& !spells(#[trigger] words[at], "--dereference"@)
        &&& !has_letter(words[at], 'L')
    } by {
        let word = words[at];
        if spells(word, "--dereference"@) {
            lemma_spelling(word, "--dereference"@);
            lemma_any(
                words,
                at,
                |argument: Seq<char>| policy_model::is_following_option(words[0], argument),
            );
        }
        if has_letter(word, 'L') {
            lemma_letter(word, 'L');
            lemma_any(
                words,
                at,
                |argument: Seq<char>| policy_model::is_following_option(words[0], argument),
            );
        }
    }
}

proof fn lemma_wc_is_restrained(words: Seq<Seq<char>>)
    requires
        words.len() > 0,
        words[0] == "wc"@,
        policy_model::reason_before_paths(words[0], words.skip(1)) is None,
        policy_model::reason_after_paths(words[0], words.skip(1)) is None,
    ensures
        wc_is_restrained(words),
{
    reveal_strlit("git");
    reveal_strlit("cargo");
    reveal_strlit("rg");
    reveal_strlit("grep");
    reveal_strlit("ls");
    reveal_strlit("wc");
    reveal_strlit("tail");
    reveal_strlit("file");
    reveal_strlit("find");
    reveal_strlit("sed");
    reveal_strlit("printf");
    reveal_strlit("--files0-from");
    assert forall|at: int| 1 <= at < words.len() implies {
        &&& !spells(#[trigger] words[at], "--files0-from"@)
    } by {
        let word = words[at];
        if spells(word, "--files0-from"@) {
            lemma_spelling(word, "--files0-from"@);
            lemma_any(
                words,
                at,
                |argument: Seq<char>| policy_model::is_following_option(words[0], argument),
            );
        }
    }
}

proof fn lemma_tail_is_restrained(words: Seq<Seq<char>>)
    requires
        words.len() > 0,
        words[0] == "tail"@,
        policy_model::reason_before_paths(words[0], words.skip(1)) is None,
        policy_model::reason_after_paths(words[0], words.skip(1)) is None,
    ensures
        tail_is_restrained(words),
{
    reveal_strlit("git");
    reveal_strlit("cargo");
    reveal_strlit("rg");
    reveal_strlit("grep");
    reveal_strlit("ls");
    reveal_strlit("wc");
    reveal_strlit("tail");
    reveal_strlit("file");
    reveal_strlit("find");
    reveal_strlit("sed");
    reveal_strlit("printf");
    reveal_strlit("--follow");
    reveal_strlit("--retry");
    reveal_strlit("--pid");
    assert forall|at: int| 1 <= at < words.len() implies {
        &&& !spells(#[trigger] words[at], "--follow"@)
        &&& !spells(words[at], "--retry"@)
        &&& !spells(words[at], "--pid"@)
        &&& !has_letter(words[at], 'f')
        &&& !has_letter(words[at], 'F')
    } by {
        let word = words[at];
        if spells(word, "--follow"@) {
            lemma_spelling(word, "--follow"@);
            lemma_any(
                words,
                at,
                |argument: Seq<char>| policy_model::is_monitor_option(argument),
            );
        }
        if spells(word, "--retry"@) {
            lemma_spelling(word, "--retry"@);
            lemma_any(
                words,
                at,
                |argument: Seq<char>| policy_model::is_monitor_option(argument),
            );
        }
        if spells(word, "--pid"@) {
            lemma_spelling(word, "--pid"@);
            lemma_any(
                words,
                at,
                |argument: Seq<char>| policy_model::is_monitor_option(argument),
            );
        }
        if has_letter(word, 'f') {
            lemma_letter(word, 'f');
            lemma_any(
                words,
                at,
                |argument: Seq<char>| policy_model::is_monitor_option(argument),
            );
        }
        if has_letter(word, 'F') {
            lemma_letter(word, 'F');
            lemma_any(
                words,
                at,
                |argument: Seq<char>| policy_model::is_monitor_option(argument),
            );
        }
    }
}

proof fn lemma_file_is_restrained(words: Seq<Seq<char>>)
    requires
        words.len() > 0,
        words[0] == "file"@,
        policy_model::reason_before_paths(words[0], words.skip(1)) is None,
        policy_model::reason_after_paths(words[0], words.skip(1)) is None,
    ensures
        file_is_restrained(words),
{
    reveal_strlit("git");
    reveal_strlit("cargo");
    reveal_strlit("rg");
    reveal_strlit("grep");
    reveal_strlit("ls");
    reveal_strlit("wc");
    reveal_strlit("tail");
    reveal_strlit("file");
    reveal_strlit("find");
    reveal_strlit("sed");
    reveal_strlit("printf");
    reveal_strlit("--uncompress");
    reveal_strlit("--uncompress-noreport");
    reveal_strlit("--compile");
    reveal_strlit("--files-from");
    assert forall|at: int| 1 <= at < words.len() implies {
        &&& !spells(#[trigger] words[at], "--uncompress"@)
        &&& !spells(words[at], "--uncompress-noreport"@)
        &&& !spells(words[at], "--compile"@)
        &&& !spells(words[at], "--files-from"@)
        &&& !has_letter(words[at], 'z')
        &&& !has_letter(words[at], 'Z')
        &&& !has_letter(words[at], 'C')
        &&& !has_letter(words[at], 'f')
    } by {
        let word = words[at];
        if spells(word, "--uncompress"@) {
            lemma_spelling(word, "--uncompress"@);
            lemma_any(
                words,
                at,
                |argument: Seq<char>| policy_model::is_uncompress_option(argument),
            );
        }
        if spells(word, "--uncompress-noreport"@) {
            lemma_spelling(word, "--uncompress-noreport"@);
            lemma_any(
                words,
                at,
                |argument: Seq<char>| policy_model::is_uncompress_option(argument),
            );
        }
        if spells(word, "--compile"@) {
            lemma_spelling(word, "--compile"@);
            lemma_any(
                words,
                at,
                |argument: Seq<char>| policy_model::is_file_compile_option(argument),
            );
        }
        if spells(word, "--files-from"@) {
            lemma_spelling(word, "--files-from"@);
            lemma_any(
                words,
                at,
                |argument: Seq<char>| policy_model::is_following_option(words[0], argument),
            );
        }
        if has_letter(word, 'z') {
            lemma_letter(word, 'z');
            lemma_any(
                words,
                at,
                |argument: Seq<char>| policy_model::is_uncompress_option(argument),
            );
        }
        if has_letter(word, 'Z') {
            lemma_letter(word, 'Z');
            lemma_any(
                words,
                at,
                |argument: Seq<char>| policy_model::is_uncompress_option(argument),
            );
        }
        if has_letter(word, 'C') {
            lemma_letter(word, 'C');
            lemma_any(
                words,
                at,
                |argument: Seq<char>| policy_model::is_file_compile_option(argument),
            );
        }
        if has_letter(word, 'f') {
            lemma_letter(word, 'f');
            lemma_any(
                words,
                at,
                |argument: Seq<char>| policy_model::is_following_option(words[0], argument),
            );
        }
    }
}

proof fn lemma_find_is_restrained(words: Seq<Seq<char>>)
    requires
        words.len() > 0,
        words[0] == "find"@,
        policy_model::reason_before_paths(words[0], words.skip(1)) is None,
        policy_model::reason_after_paths(words[0], words.skip(1)) is None,
    ensures
        find_is_restrained(words),
{
    reveal_strlit("git");
    reveal_strlit("cargo");
    reveal_strlit("rg");
    reveal_strlit("grep");
    reveal_strlit("ls");
    reveal_strlit("wc");
    reveal_strlit("tail");
    reveal_strlit("file");
    reveal_strlit("find");
    reveal_strlit("sed");
    reveal_strlit("printf");
    assert forall|at: int| 1 <= at < words.len() implies {
        &&& #[trigger] words[at] != "-delete"@
        &&& words[at] != "-exec"@
        &&& words[at] != "-execdir"@
        &&& words[at] != "-ok"@
        &&& words[at] != "-okdir"@
        &&& words[at] != "-fprint"@
        &&& words[at] != "-fprint0"@
        &&& words[at] != "-fprintf"@
        &&& words[at] != "-fls"@
        &&& words[at] != "-L"@
        &&& words[at] != "-follow"@
        &&& !"-files0-from"@.is_prefix_of(words[at])
    } by {
        let word = words[at];
        if word == "-delete"@ {
            lemma_any(
                words,
                at,
                |argument: Seq<char>| policy_model::is_find_action(argument),
            );
        }
        if word == "-exec"@ {
            lemma_any(
                words,
                at,
                |argument: Seq<char>| policy_model::is_find_action(argument),
            );
        }
        if word == "-execdir"@ {
            lemma_any(
                words,
                at,
                |argument: Seq<char>| policy_model::is_find_action(argument),
            );
        }
        if word == "-ok"@ {
            lemma_any(
                words,
                at,
                |argument: Seq<char>| policy_model::is_find_action(argument),
            );
        }
        if word == "-okdir"@ {
            lemma_any(
                words,
                at,
                |argument: Seq<char>| policy_model::is_find_action(argument),
            );
        }
        if word == "-fprint"@ {
            lemma_any(
                words,
                at,
                |argument: Seq<char>| policy_model::is_find_action(argument),
            );
        }
        if word == "-fprint0"@ {
            lemma_any(
                words,
                at,
                |argument: Seq<char>| policy_model::is_find_action(argument),
            );
        }
        if word == "-fprintf"@ {
            lemma_any(
                words,
                at,
                |argument: Seq<char>| policy_model::is_find_action(argument),
            );
        }
        if word == "-fls"@ {
            lemma_any(
                words,
                at,
                |argument: Seq<char>| policy_model::is_find_action(argument),
            );
        }
        if word == "-L"@ {
            lemma_any(
                words,
                at,
                |argument: Seq<char>| policy_model::is_following_option(words[0], argument),
            );
        }
        if word == "-follow"@ {
            lemma_any(
                words,
                at,
                |argument: Seq<char>| policy_model::is_following_option(words[0], argument),
            );
        }
        if "-files0-from"@.is_prefix_of(word) {
            lemma_any(
                words,
                at,
                |argument: Seq<char>| policy_model::is_following_option(words[0], argument),
            );
        }
    }
}

proof fn lemma_cargo_is_restrained(words: Seq<Seq<char>>)
    requires
        words.len() > 0,
        words[0] == "cargo"@,
        policy_model::reason_before_paths(words[0], words.skip(1)) is None,
        policy_model::reason_after_paths(words[0], words.skip(1)) is None,
    ensures
        cargo_is_restrained(words),
{
    reveal_strlit("git");
    reveal_strlit("cargo");
    reveal_strlit("rg");
    reveal_strlit("grep");
    reveal_strlit("ls");
    reveal_strlit("wc");
    reveal_strlit("tail");
    reveal_strlit("file");
    reveal_strlit("find");
    reveal_strlit("sed");
    reveal_strlit("printf");
    reveal_strlit("clippy");
    assert forall|at: int| 1 <= at < words.len() implies {
        &&& #[trigger] words[at] != "--config"@
        &&& !"--config="@.is_prefix_of(words[at])
    } by {
        let word = words[at];
        if word == "--config"@ {
            lemma_any(
                words,
                at,
                |argument: Seq<char>| policy_model::is_cargo_config_option(argument),
            );
        }
        if "--config="@.is_prefix_of(word) {
            lemma_any(
                words,
                at,
                |argument: Seq<char>| policy_model::is_cargo_config_option(argument),
            );
        }
    }
    if words.len() >= 2 && words[1] == "clippy"@ && has_argument(words, "--fix"@) {
        let at = choose|at: int| 1 <= at < words.len() && #[trigger] words[at] == "--fix"@;
        reveal_strlit("--fix");
        let arguments = words.skip(1);
        assert(arguments[0] == words[1]);
        assert(arguments.skip(1)[at - 2] == words[at]);
    }
}

proof fn lemma_sed_scripts(arguments: Seq<Seq<char>>, at: int, scripts: Seq<Seq<char>>)
    requires
        0 <= at,
        policy_model::sed_scripts(arguments, at, scripts) is Some,
    ensures
        ({
            let found = policy_model::sed_scripts(arguments, at, scripts)->Some_0;
            &&& forall|i: int| 0 <= i < scripts.len() ==> found.contains(#[trigger] scripts[i])
            &&& forall|i: int|
                at <= i < arguments.len() && (#[trigger] arguments[i] == "-e"@ || arguments[i]
                    == "--expression"@) && !(exists|before: int|
                    at <= before < i && #[trigger] arguments[before] == "--"@) ==> found.contains(
                    arguments[i],
                ) || i + 1 < arguments.len() && found.contains(arguments[i + 1])
        }),
    decreases arguments.len() - at,
{
    reveal_strlit("--");
    reveal_strlit("-e");
    reveal_strlit("-n");
    reveal_strlit("--quiet");
    reveal_strlit("--silent");
    reveal_strlit("--expression");
    reveal_strlit("--expression=");
    assert("-e"@[1] != "-n"@[1]);
    assert("-e"@.len() != "--quiet"@.len());
    assert("-e"@.len() != "--silent"@.len());
    assert("--expression"@.len() != "-n"@.len());
    assert("--expression"@.len() != "--quiet"@.len());
    assert("--expression"@.len() != "--silent"@.len());
    let found = policy_model::sed_scripts(arguments, at, scripts)->Some_0;
    if at < arguments.len() {
        let argument = arguments[at];
        if argument == "-n"@ || argument == "--quiet"@ || argument == "--silent"@ {
            lemma_sed_scripts(arguments, at + 1, scripts);
        } else if argument == "-e"@ || argument == "--expression"@ {
            let more = scripts.push(arguments[at + 1]);
            lemma_sed_scripts(arguments, at + 2, more);
            assert(at + 1 < arguments.len());
            assert(more[scripts.len() as int] == arguments[at + 1]);
            assert(found.contains(arguments[at + 1]));
            assert forall|i: int| 0 <= i < scripts.len() implies found.contains(
                #[trigger] scripts[i],
            ) by {
                assert(more[i] == scripts[i]);
            }
        } else if argument == "--"@ {
            if scripts.len() > 0 {
                assert(found == scripts);
            } else {
                assert(found == scripts.push(arguments[at + 1]));
            }
            assert(forall|i: int| at < i < arguments.len() ==> at <= at < i && #[trigger] arguments[i]
                == arguments[i]);
        } else if "--expression="@.is_prefix_of(argument) {
            let more = scripts.push(argument.skip("--expression="@.len() as int));
            lemma_sed_scripts(arguments, at + 1, more);
            assert forall|i: int| 0 <= i < scripts.len() implies found.contains(
                #[trigger] scripts[i],
            ) by {
                assert(more[i] == scripts[i]);
            }
        } else if "-e"@.is_prefix_of(argument) {
            let more = scripts.push(argument.skip(2));
            lemma_sed_scripts(arguments, at + 1, more);
            assert forall|i: int| 0 <= i < scripts.len() implies found.contains(
                #[trigger] scripts[i],
            ) by {
                assert(more[i] == scripts[i]);
            }
        } else if scripts.len() == 0 {
            let more = scripts.push(argument);
            lemma_sed_scripts(arguments, at + 1, more);
        } else {
            lemma_sed_scripts(arguments, at + 1, scripts);
        }
        assert forall|i: int|
            at <= i < arguments.len() && (#[trigger] arguments[i] == "-e"@ || arguments[i]
                == "--expression"@) && !(exists|before: int|
                at <= before < i && #[trigger] arguments[before] == "--"@) implies found.contains(
            arguments[i],
        ) || i + 1 < arguments.len() && found.contains(arguments[i + 1]) by {
            assert forall|before: int| at <= before < i implies #[trigger] arguments[before]
                != "--"@ by {}
            if i == at {
                assert(argument == arguments[i]);
                assert(found.contains(arguments[i + 1]));
            } else {
                assert(arguments[at] != "--"@);
                if argument == "-e"@ || argument == "--expression"@ {
                    if i == at + 1 {
                        assert(found.contains(arguments[i]));
                    } else {
                        assert(found.contains(arguments[i]) || i + 1 < arguments.len()
                            && found.contains(arguments[i + 1]));
                    }
                } else {
                    assert(found.contains(arguments[i]) || i + 1 < arguments.len()
                        && found.contains(arguments[i + 1]));
                }
            }
        }
    }
}

proof fn lemma_sed_is_restrained(words: Seq<Seq<char>>)
    requires
        words.len() > 0,
        words[0] == "sed"@,
        policy_model::reason_after_paths(words[0], words.skip(1)) is None,
    ensures
        sed_is_restrained(words),
{
    reveal_strlit("sed");
    reveal_strlit("cargo");
    reveal_strlit("rg");
    reveal_strlit("-e");
    reveal_strlit("--expression");
    let arguments = words.skip(1);
    assert forall|at: int| 1 <= at < words.len() implies !"-i"@.is_prefix_of(
        #[trigger] words[at],
    ) by {
        if "-i"@.is_prefix_of(words[at]) {
            lemma_any(words, at, |argument: Seq<char>| "-i"@.is_prefix_of(argument));
        }
    }
    assert(policy_model::is_safe_sed_read(arguments));
    let found = policy_model::sed_scripts(arguments, 0, Seq::empty())->Some_0;
    assert(arguments.len() > 0);
    assert(words.len() >= 2);
    lemma_sed_scripts(arguments, 0, Seq::empty());
    assert forall|script: Seq<char>| found.contains(script) implies #[trigger] only_prints(
        script,
    ) by {
        let i = choose|i: int| 0 <= i < found.len() && found[i] == script;
        assert(policy_model::is_safe_sed_script(found[i]));
    }
    assert forall|at: int|
        1 <= at < words.len() && (#[trigger] words[at] == "-e"@ || words[at] == "--expression"@)
            && !(exists|before: int| 1 <= before < at && #[trigger] words[before] == "--"@) implies
        at + 1 < words.len() && only_prints(words[at + 1]) by {
        assert(arguments[at - 1] == words[at]);
        assert forall|before: int| 0 <= before < at - 1 implies #[trigger] arguments[before]
            != "--"@ by {
            assert(words[before + 1] == arguments[before]);
        }
        if found.contains(arguments[at - 1]) {
            assert(only_prints(arguments[at - 1]));
            assert(arguments[at - 1][0] == '-');
        } else {
            assert(arguments[at] == words[at + 1]);
            assert(only_prints(arguments[at]));
        }
    }
    if words[1].len() == 0 || words[1][0] != '-' {
        lemma_first_sed_script(arguments);
        assert(arguments[0] == words[1]);
        assert(only_prints(arguments[0]));
    }
}

proof fn lemma_first_sed_script(arguments: Seq<Seq<char>>)
    requires
        arguments.len() > 0,
        arguments[0].len() == 0 || arguments[0][0] != '-',
        policy_model::sed_scripts(arguments, 0, Seq::empty()) is Some,
    ensures
        policy_model::sed_scripts(arguments, 0, Seq::empty())->Some_0.contains(arguments[0]),
{
    reveal_strlit("--");
    reveal_strlit("-e");
    reveal_strlit("-n");
    reveal_strlit("--quiet");
    reveal_strlit("--silent");
    reveal_strlit("--expression");
    reveal_strlit("--expression=");
    let scripts = Seq::<Seq<char>>::empty();
    let more = scripts.push(arguments[0]);
    assert(!"--expression="@.is_prefix_of(arguments[0])) by {
        assert("--expression="@[0] == '-');
    }
    assert(!"-e"@.is_prefix_of(arguments[0])) by {
        assert("-e"@[0] == '-');
    }
    lemma_sed_scripts(arguments, 1, more);
    assert(more[0] == arguments[0]);
}

proof fn lemma_format(format: Seq<char>, at: int, percent: int)
    requires
        0 <= at <= percent < format.len() - 1,
        format[percent] == '%',
        forall|before: int| 0 <= before < percent ==> #[trigger] format[before] != '%',
        !policy_model::format_has_width(format, at, false),
    ensures
        format[percent + 1] != '*',
        !('0' <= format[percent + 1] <= '9'),
    decreases percent - at,
{
    reveal_with_fuel(policy_model::format_has_width, 3);
    if at < percent {
        assert(format[at] != '%');
        lemma_format(format, at + 1, percent);
    }
}

proof fn lemma_printf_is_restrained(words: Seq<Seq<char>>)
    requires
        words.len() > 0,
        words[0] == "printf"@,
        policy_model::reason_after_paths(words[0], words.skip(1)) is None,
    ensures
        printf_is_restrained(words),
{
    reveal_strlit("printf");
    reveal_strlit("rg");
    reveal_strlit("tail");
    reveal_strlit("--");
    reveal_strlit("-v");
    let arguments = words.skip(1);
    if words.len() >= 2 {
        assert(arguments[0] == words[1]);
        let format = if words[1] == "--"@ && words.len() >= 3 {
            assert(arguments[1] == words[2]);
            words[2]
        } else {
            words[1]
        };
        assert(!policy_model::format_has_width(format, 0, false));
        assert forall|at: int|
            0 <= at < format.len() - 1 && #[trigger] format[at] == '%' && (forall|before: int|
                0 <= before < at ==> #[trigger] format[before] != '%') implies format[at + 1]
            != '*' && !('0' <= format[at + 1] <= '9') by {
            lemma_format(format, 0, at);
        }
    }
}

proof fn lemma_listed(root: Seq<char>, words: Seq<Seq<char>>)
    requires
        policy_laws::is_low_risk(root, words),
    ensures
        is_listed(words),
{
    let arguments = words.skip(1);
    reveal_strlit("rg");
    reveal_strlit("pwd");
    if arguments.len() > 0 {
        assert(arguments[0] == words[1]);
    }
    if arguments.len() > 1 {
        assert(arguments[1] == words[2]);
    }
    if words[0] == "pwd"@ {
        if arguments.len() == 0 {
            assert(words =~= seq!["pwd"@]);
        }
    }
    if policy_model::is_low_risk_external_command(words[0], arguments) {
        if words[0] == "git"@ && arguments.len() == 2 {
            if arguments[0] == "branch"@ && arguments[1] == "--show-current"@ {
                assert(words =~= seq!["git"@, "branch"@, "--show-current"@]);
            }
        }
        if words[0] == "cargo"@ && policy_model::first_is(arguments, "fmt"@) {
            if arguments.skip(1).contains("--check"@) {
                let at = choose|at: int|
                    0 <= at < arguments.skip(1).len() && arguments.skip(1)[at] == "--check"@;
                assert(words[at + 2] == "--check"@);
            }
        }
    }
}

proof fn lemma_restrained(root: Seq<char>, words: Seq<Seq<char>>)
    requires
        policy_laws::is_low_risk(root, words),
    ensures
        is_restrained(words),
{
    if words[0] == "git"@ {
        lemma_git_is_restrained(words);
    }
    if words[0] == "cargo"@ {
        lemma_cargo_is_restrained(words);
    }
    if words[0] == "rg"@ {
        lemma_rg_is_restrained(words);
    }
    if words[0] == "grep"@ {
        lemma_grep_is_restrained(words);
    }
    if words[0] == "ls"@ {
        lemma_ls_is_restrained(words);
    }
    if words[0] == "wc"@ {
        lemma_wc_is_restrained(words);
    }
    if words[0] == "tail"@ {
        lemma_tail_is_restrained(words);
    }
    if words[0] == "file"@ {
        lemma_file_is_restrained(words);
    }
    if words[0] == "find"@ {
        lemma_find_is_restrained(words);
    }
    if words[0] == "sed"@ {
        lemma_sed_is_restrained(words);
    }
    if words[0] == "printf"@ {
        lemma_printf_is_restrained(words);
    }
}

/// A command line runs without approval only where every simple command in it is
/// one of a closed list, and its options keep it from writing, from running
/// helpers and from loading further paths.
pub proof fn law_only_listed_commands_are_allowed(
    root: Seq<char>,
    command: Seq<char>,
    answers: Seq<AnswerView>,
    at: int,
)
    requires
        policy_model::verdict(root, command, answers) == Verdict::Decided(DecisionView::Allow),
        shell::parse(command) is Ok ==> 0 <= at < shell::parse(command)->Ok_0.commands.len(),
    ensures
        shell::parse(command) is Ok,
        is_listed(shell::parse(command)->Ok_0.commands[at]),
        is_restrained(shell::parse(command)->Ok_0.commands[at]),
{
    policy_laws::law_allowed_commands_are_low_risk(root, command, answers, at);
    let words = shell::parse(command)->Ok_0.commands[at];
    lemma_listed(root, words);
    lemma_restrained(root, words);
}

/// A command that is given word by word runs without approval only where it is
/// one of the closed list, and its options keep it from writing, from running
/// helpers and from loading further paths. So a Git command runs without approval
/// only where it is `git rev-parse` or exactly `git branch --show-current`.
pub proof fn law_only_listed_words_are_allowed(
    root: Seq<char>,
    words: Seq<Seq<char>>,
    answers: Seq<AnswerView>,
)
    requires
        1 <= words.len() <= 256,
        forall|i: int| 0 <= i < words.len() ==> !(#[trigger] words[i]).contains('\''),
        policy_model::verdict(root, shell::quoted_line(words), answers) == Verdict::Decided(
            DecisionView::Allow,
        ),
    ensures
        is_listed(words),
        is_restrained(words),
        words[0] == "git"@ ==> words.len() >= 2 && words[1] == "rev-parse"@ || words
            == seq!["git"@, "branch"@, "--show-current"@],
{
    shell::law_quoted_words_are_read_back(words);
    law_only_listed_commands_are_allowed(root, shell::quoted_line(words), answers, 0);
    if words[0] == "git"@ {
        reveal_strlit("git");
        reveal_strlit("pwd");
        reveal_strlit("command");
        reveal_strlit("echo");
        reveal_strlit("printf");
        reveal_strlit("true");
        reveal_strlit("false");
        reveal_strlit("ls");
        reveal_strlit("cat");
        reveal_strlit("grep");
        reveal_strlit("head");
        reveal_strlit("tail");
        reveal_strlit("wc");
        reveal_strlit("stat");
        reveal_strlit("file");
        reveal_strlit("find");
        reveal_strlit("sed");
        reveal_strlit("rg");
        reveal_strlit("cargo");
    }
}

} // verus!
