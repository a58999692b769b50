//! The rules of the command policy that look at words alone.

use crate::path::{path_components, path_file_name, path_is_absolute, PathComponent};
use crate::policy_model;
use crate::policy_model::{
    TransparentWrapperError, MAX_LOW_RISK_PRINTF_FORMAT_BYTES, MAX_TRANSPARENT_WRAPPER_DEPTH,
};
use crate::path;
use crate::shell;
use crate::text;
use crate::text::{
    begins_with_char, byte_len, chars_of, contains_char, same_text, split_at_first, split_text,
    starts_with, text_of,
};
use vstd::prelude::*;
use vstd::slice::slice_subrange;

verus! {

/// The words from `from` on.
fn words_from(words: &[String], from: usize) -> (rest: &[String])
    requires
        from <= words@.len(),
    ensures
        text::texts(rest@) == text::texts(words@).skip(from as int),
        rest@ == words@.skip(from as int),
{
    let rest = slice_subrange(words, from, words.len());
    assert(rest@ == words@.skip(from as int));
    assert(text::texts(rest@) == text::texts(words@).skip(from as int));
    rest
}

/// Whether some argument satisfies `rule`, which computes `model`.
fn any_argument<F: Fn(&str) -> bool>(
    arguments: &[String],
    rule: F,
    Ghost(model): Ghost<spec_fn(Seq<char>) -> bool>,
) -> (result: bool)
    requires
        forall|argument: &str| #[trigger] rule.requires((argument,)),
        forall|argument: &str, outcome: bool| #[trigger]
            rule.ensures((argument,), outcome) ==> outcome == model(argument@),
    ensures
        result == policy_model::any_argument(text::texts(arguments@), model),
{
    let ghost views = text::texts(arguments@);
    let mut index: usize = 0;
    while index < arguments.len()
        invariant
            index <= arguments@.len(),
            views == text::texts(arguments@),
            forall|argument: &str| #[trigger] rule.requires((argument,)),
            forall|argument: &str, outcome: bool| #[trigger]
                rule.ensures((argument,), outcome) ==> outcome == model(argument@),
            forall|i: int| 0 <= i < index ==> !model(#[trigger] views[i]),
        decreases arguments@.len() - index,
    {
        assert(views[index as int] == arguments@[index as int]@);
        if rule(arguments[index].as_str()) {
            assert(model(views[index as int]));
            return true;
        }
        index += 1;
    }
    false
}

/// Whether the first argument is `wanted`.
fn first_is(arguments: &[String], wanted: &str) -> (result: bool)
    ensures
        result == policy_model::first_is(text::texts(arguments@), wanted@),
{
    arguments.len() > 0 && same_text(arguments[0].as_str(), wanted)
}

/// Whether `wanted` is among the words.
fn contains_word(words: &[String], wanted: &str) -> (result: bool)
    ensures
        result == text::texts(words@).contains(wanted@),
{
    let ghost views = text::texts(words@);
    let mut index: usize = 0;
    while index < words.len()
        invariant
            index <= words@.len(),
            views == text::texts(words@),
            forall|i: int| 0 <= i < index ==> views[i] != wanted@,
        decreases words@.len() - index,
    {
        assert(views[index as int] == words@[index as int]@);
        if same_text(words[index].as_str(), wanted) {
            return true;
        }
        index += 1;
    }
    assert(views.len() == words@.len());
    false
}

fn long_option_matches_or_abbreviates(argument: &str, full_option: &str) -> (result: bool)
    ensures
        result == policy_model::long_option_matches_or_abbreviates(argument@, full_option@),
{
    let (name, _) = split_at_first(argument, '=');
    let chars = chars_of(name.as_str());
    starts_with(name.as_str(), "--") && chars.len() > 2 && starts_with(full_option, name.as_str())
}

fn is_short_option_cluster(argument: &str) -> (result: bool)
    ensures
        result == policy_model::is_short_option_cluster(argument@),
{
    begins_with_char(argument, '-') && !starts_with(argument, "--")
}

fn short_option_cluster_contains(argument: &str, option: char) -> (result: bool)
    ensures
        result == policy_model::short_option_cluster_contains(argument@, option),
{
    if !is_short_option_cluster(argument) {
        return false;
    }
    let chars = chars_of(argument);
    let rest = text_of(&chars, 1, chars.len());
    assert(rest@ == argument@.skip(1));
    contains_char(rest.as_str(), option)
}

fn is_uncompress_option(argument: &str) -> (result: bool)
    ensures
        result == policy_model::is_uncompress_option(argument@),
{
    short_option_cluster_contains(argument, 'z') || short_option_cluster_contains(argument, 'Z')
        || long_option_matches_or_abbreviates(argument, "--uncompress")
        || long_option_matches_or_abbreviates(argument, "--uncompress-noreport")
}

fn file_may_execute_uncompress_helper(arguments: &[String]) -> (result: bool)
    ensures
        result == policy_model::file_may_execute_uncompress_helper(text::texts(arguments@)),
{
    any_argument(
        arguments,
        is_uncompress_option,
        Ghost(|argument: Seq<char>| policy_model::is_uncompress_option(argument)),
    )
}

/// Whether `first` is directly followed by `second` somewhere.
fn holds_pair(argument: &str, first: char, second: char) -> (result: bool)
    ensures
        result == policy_model::holds_pair(argument@, first, second),
{
    let chars = chars_of(argument);
    let mut index: usize = 0;
    while index < chars.len()
        invariant
            index <= chars@.len(),
            chars@ == argument@,
            forall|i: int|
                0 <= i < index && i < argument@.len() - 1 ==> !(#[trigger] argument@[i] == first
                    && argument@[i + 1] == second),
        decreases chars@.len() - index,
    {
        if index + 1 < chars.len() && chars[index] == first && chars[index + 1] == second {
            assert(argument@[index as int] == first);
            return true;
        }
        index += 1;
    }
    false
}

fn is_signature_option(argument: &str) -> (result: bool)
    ensures
        result == policy_model::is_signature_option(argument@),
{
    long_option_matches_or_abbreviates(argument, "--show-signature") || holds_pair(
        argument,
        '%',
        'G',
    )
}

fn git_may_use_signature_verification(arguments: &[String]) -> (result: bool)
    ensures
        result == policy_model::git_may_use_signature_verification(text::texts(arguments@)),
{
    first_is(arguments, "log") || first_is(arguments, "show") || any_argument(
        arguments,
        is_signature_option,
        Ghost(|argument: Seq<char>| policy_model::is_signature_option(argument)),
    )
}

fn is_git_output_option(argument: &str) -> (result: bool)
    ensures
        result == policy_model::is_git_output_option(argument@),
{
    long_option_matches_or_abbreviates(argument, "--output")
}

fn is_git_helper_option(argument: &str) -> (result: bool)
    ensures
        result == policy_model::is_git_helper_option(argument@),
{
    short_option_cluster_contains(argument, 'O') || long_option_matches_or_abbreviates(
        argument,
        "--open-files-in-pager",
    ) || long_option_matches_or_abbreviates(argument, "--ext-diff")
        || long_option_matches_or_abbreviates(argument, "--textconv")
}

/// A reason as it stands in a decision.
pub open spec fn is_reason(reason: Option<&'static str>, model: Option<Seq<char>>) -> bool {
    match reason {
        Some(found) => model == Some(found@),
        None => model is None,
    }
}

/// Why a simple command needs approval before its paths are looked at.
pub(crate) fn reason_before_paths(program: &str, arguments: &[String]) -> (reason: Option<
    &'static str,
>)
    ensures
        is_reason(reason, policy_model::reason_before_paths(program@, text::texts(arguments@))),
{
    let git = same_text(program, "git");
    if same_text(program, "file") && file_may_execute_uncompress_helper(arguments) {
        Some("command executes a helper while inspecting compressed files")
    } else if git && any_argument(
        arguments,
        is_git_output_option,
        Ghost(|argument: Seq<char>| policy_model::is_git_output_option(argument)),
    ) {
        Some("command may mutate workspace files")
    } else if git && git_may_use_signature_verification(arguments) {
        Some("command executes configured signature verification tooling")
    } else if git && any_argument(
        arguments,
        is_git_helper_option,
        Ghost(|argument: Seq<char>| policy_model::is_git_helper_option(argument)),
    ) {
        Some("command executes a helper configured by Git")
    } else if git && (first_is(arguments, "status") || first_is(arguments, "diff") || first_is(
        arguments,
        "ls-files",
    ) || first_is(arguments, "grep")) {
        Some("command may invoke Git's configured fsmonitor helper or start its daemon")
    } else {
        None
    }
}

fn is_package_manager(program: &str) -> (result: bool)
    ensures
        result == policy_model::is_package_manager(program@),
{
    same_text(program, "npm") || same_text(program, "pnpm") || same_text(program, "yarn")
        || same_text(program, "pip") || same_text(program, "pip3")
}

fn installs_dependencies(program: &str, arguments: &[String]) -> (result: bool)
    ensures
        result == policy_model::installs_dependencies(program@, text::texts(arguments@)),
{
    (same_text(program, "cargo") || is_package_manager(program)) && (first_is(arguments, "add")
        || first_is(arguments, "install") || first_is(arguments, "update"))
}

fn is_destructive(program: &str, arguments: &[String]) -> (result: bool)
    ensures
        result == policy_model::is_destructive(program@, text::texts(arguments@)),
{
    same_text(program, "rm") || same_text(program, "git") && (first_is(arguments, "reset")
        || first_is(arguments, "clean"))
}

fn is_mutating_program(program: &str) -> (result: bool)
    ensures
        result == policy_model::is_mutating_program(program@),
{
    same_text(program, "touch") || same_text(program, "mkdir") || same_text(program, "cp")
        || same_text(program, "mv") || same_text(program, "chmod") || same_text(program, "chown")
        || same_text(program, "tee")
}

fn is_file_compile_option(argument: &str) -> (result: bool)
    ensures
        result == policy_model::is_file_compile_option(argument@),
{
    long_option_matches_or_abbreviates(argument, "--compile") || short_option_cluster_contains(
        argument,
        'C',
    )
}

fn is_in_place_option(argument: &str) -> (result: bool)
    ensures
        result == "-i"@.is_prefix_of(argument@),
{
    starts_with(argument, "-i")
}

/// Whether `wanted` is among the arguments behind the first.
fn later_contains(arguments: &[String], wanted: &str) -> (result: bool)
    requires
        arguments@.len() > 0,
    ensures
        result == text::texts(arguments@).skip(1).contains(wanted@),
{
    contains_word(words_from(arguments, 1), wanted)
}

fn mutates_by_option(program: &str, arguments: &[String]) -> (result: bool)
    ensures
        result == policy_model::mutates_by_option(program@, text::texts(arguments@)),
{
    is_mutating_program(program) || same_text(program, "sed") && any_argument(
        arguments,
        is_in_place_option,
        Ghost(|argument: Seq<char>| "-i"@.is_prefix_of(argument)),
    ) || same_text(program, "cargo") && first_is(arguments, "clippy") && later_contains(
        arguments,
        "--fix",
    )
}

fn is_cargo_config_option(argument: &str) -> (result: bool)
    ensures
        result == policy_model::is_cargo_config_option(argument@),
{
    same_text(argument, "--config") || starts_with(argument, "--config=")
}

fn is_search_helper_option(argument: &str) -> (result: bool)
    ensures
        result == policy_model::is_search_helper_option(argument@),
{
    long_option_matches_or_abbreviates(argument, "--pre") || long_option_matches_or_abbreviates(
        argument,
        "--search-zip",
    ) || short_option_cluster_contains(argument, 'z')
}

fn is_following_option(program: &str, argument: &str) -> (result: bool)
    ensures
        result == policy_model::is_following_option(program@, argument@),
{
    same_text(program, "rg") && (long_option_matches_or_abbreviates(argument, "--follow")
        || short_option_cluster_contains(argument, 'L')) || same_text(program, "grep") && (
    long_option_matches_or_abbreviates(argument, "--dereference-recursive")
        || short_option_cluster_contains(argument, 'R')) || same_text(program, "find") && (
    same_text(argument, "-L") || same_text(argument, "-follow") || starts_with(
        argument,
        "-files0-from",
    )) || same_text(program, "file") && (same_text(argument, "-f")
        || short_option_cluster_contains(argument, 'f') || long_option_matches_or_abbreviates(
        argument,
        "--files-from",
    )) || same_text(program, "wc") && long_option_matches_or_abbreviates(argument, "--files0-from")
        || same_text(program, "ls") && (short_option_cluster_contains(argument, 'L')
        || long_option_matches_or_abbreviates(argument, "--dereference"))
}

fn is_monitor_option(argument: &str) -> (result: bool)
    ensures
        result == policy_model::is_monitor_option(argument@),
{
    short_option_cluster_contains(argument, 'f') || short_option_cluster_contains(argument, 'F')
        || long_option_matches_or_abbreviates(argument, "--follow")
        || long_option_matches_or_abbreviates(argument, "--retry")
        || long_option_matches_or_abbreviates(argument, "--pid")
}

fn is_ascii_digit(character: char) -> (result: bool)
    ensures
        result == policy_model::is_ascii_digit(character),
{
    '0' <= character && character <= '9'
}

fn is_ascii_alphabetic(character: char) -> (result: bool)
    ensures
        result == policy_model::is_ascii_alphabetic(character),
{
    'a' <= character && character <= 'z' || 'A' <= character && character <= 'Z'
}

fn format_has_width(format: &str) -> (result: bool)
    ensures
        result == policy_model::format_has_width(format@, 0, false),
{
    let chars = chars_of(format);
    let mut in_directive = false;
    let mut index: usize = 0;
    while index < chars.len()
        invariant
            index <= chars@.len(),
            chars@ == format@,
            policy_model::format_has_width(format@, 0, false) == policy_model::format_has_width(
                format@,
                index as int,
                in_directive,
            ),
        decreases chars@.len() - index,
    {
        let character = chars[index];
        if !in_directive {
            in_directive = character == '%';
        } else if character == '%' {
            in_directive = false;
        } else if character == '*' || is_ascii_digit(character) {
            return true;
        } else if is_ascii_alphabetic(character) {
            in_directive = false;
        }
        index += 1;
    }
    false
}

fn printf_format_may_amplify_output(arguments: &[String]) -> (result: bool)
    ensures
        result == policy_model::printf_format_may_amplify_output(text::texts(arguments@)),
{
    if arguments.len() == 0 {
        return false;
    }
    let skipped: usize = if arguments.len() >= 2 && same_text(arguments[0].as_str(), "--") {
        1
    } else {
        0
    };
    let format = arguments[skipped].as_str();
    let operands: usize = arguments.len() - skipped - 1;
    byte_len(format) > MAX_LOW_RISK_PRINTF_FORMAT_BYTES && operands > 1 || format_has_width(format)
}

fn is_find_action(argument: &str) -> (result: bool)
    ensures
        result == policy_model::is_find_action(argument@),
{
    same_text(argument, "-delete") || same_text(argument, "-exec") || same_text(
        argument,
        "-execdir",
    ) || same_text(argument, "-ok") || same_text(argument, "-okdir") || same_text(
        argument,
        "-fprint",
    ) || same_text(argument, "-fprint0") || same_text(argument, "-fprintf") || same_text(
        argument,
        "-fls",
    )
}

fn find_may_mutate_or_execute(arguments: &[String]) -> (result: bool)
    ensures
        result == policy_model::find_may_mutate_or_execute(text::texts(arguments@)),
{
    any_argument(
        arguments,
        is_find_action,
        Ghost(|argument: Seq<char>| policy_model::is_find_action(argument)),
    )
}

fn is_safe_sed_script(script: &str) -> (result: bool)
    ensures
        result == policy_model::is_safe_sed_script(script@),
{
    let chars = chars_of(script);
    if chars.len() == 0 {
        return false;
    }
    let mut index: usize = 0;
    while index < chars.len()
        invariant
            index <= chars@.len(),
            chars@ == script@,
            script@.len() > 0,
            forall|i: int|
                0 <= i < index ==> {
                    let character = #[trigger] script@[i];
                    policy_model::is_ascii_digit(character) || character == ',' || character == '$'
                        || character == 'p' || character == 'q'
                },
        decreases chars@.len() - index,
    {
        let character = chars[index];
        if !(is_ascii_digit(character) || character == ',' || character == '$' || character == 'p'
            || character == 'q') {
            assert(script@[index as int] == character);
            return false;
        }
        index += 1;
    }
    true
}

/// Appends a copy of `script`.
fn push_script(scripts: &mut Vec<String>, script: &str)
    ensures
        text::texts(final(scripts)@) == text::texts(old(scripts)@).push(script@),
{
    scripts.push(script.to_owned());
    assert(text::texts(scripts@) == text::texts(old(scripts)@).push(script@));
}

/// The text of `argument` behind its first `count` characters.
fn without_prefix(argument: &str, count: usize) -> (rest: String)
    requires
        count <= argument@.len(),
    ensures
        rest@ == argument@.skip(count as int),
{
    let chars = chars_of(argument);
    let rest = text_of(&chars, count, chars.len());
    assert(rest@ == argument@.skip(count as int));
    rest
}

fn sed_scripts(arguments: &[String]) -> (result: Option<Vec<String>>)
    ensures
        match result {
            Some(scripts) => policy_model::sed_scripts(
                text::texts(arguments@),
                0,
                Seq::empty(),
            ) == Some(text::texts(scripts@)),
            None => policy_model::sed_scripts(
                text::texts(arguments@),
                0,
                Seq::empty(),
            ) is None,
        },
{
    let ghost views = text::texts(arguments@);
    let mut scripts: Vec<String> = Vec::new();
    assert(text::texts(scripts@) == Seq::<Seq<char>>::empty());
    let mut index: usize = 0;
    while index < arguments.len()
        invariant
            views == text::texts(arguments@),
            views.len() == arguments@.len(),
            policy_model::sed_scripts(views, 0, Seq::empty()) == policy_model::sed_scripts(
                views,
                index as int,
                text::texts(scripts@),
            ),
        decreases arguments@.len() - index,
    {
        let argument = arguments[index].as_str();
        assert(views[index as int] == argument@);
        assert(text::texts(scripts@).len() == scripts@.len());
        if same_text(argument, "-n") || same_text(argument, "--quiet") || same_text(
            argument,
            "--silent",
        ) {
            index += 1;
        } else if same_text(argument, "-e") || same_text(argument, "--expression") {
            if index + 1 >= arguments.len() {
                return None;
            }
            assert(views[index + 1] == arguments@[index + 1]@);
            push_script(&mut scripts, arguments[index + 1].as_str());
            if index + 2 >= arguments.len() {
                assert(policy_model::sed_scripts(views, index + 2, text::texts(scripts@)) == Some(
                    text::texts(scripts@),
                ));
                return Some(scripts);
            }
            index += 2;
        } else if same_text(argument, "--") {
            if scripts.len() > 0 {
                return Some(scripts);
            }
            if index + 1 >= arguments.len() {
                return None;
            }
            assert(views[index + 1] == arguments@[index + 1]@);
            push_script(&mut scripts, arguments[index + 1].as_str());
            return Some(scripts);
        } else if starts_with(argument, "--expression=") {
            proof {
                reveal_strlit("--expression=");
            }
            let script = without_prefix(argument, 13);
            push_script(&mut scripts, script.as_str());
            index += 1;
        } else if starts_with(argument, "-e") {
            proof {
                reveal_strlit("-e");
            }
            let script = without_prefix(argument, 2);
            push_script(&mut scripts, script.as_str());
            index += 1;
        } else if begins_with_char(argument, '-') {
            return None;
        } else {
            if scripts.len() == 0 {
                push_script(&mut scripts, argument);
            }
            index += 1;
        }
    }
    Some(scripts)
}

fn is_safe_sed_read(arguments: &[String]) -> (result: bool)
    ensures
        result == policy_model::is_safe_sed_read(text::texts(arguments@)),
{
    let scripts = match sed_scripts(arguments) {
        Some(scripts) => scripts,
        None => {
            return false;
        },
    };
    let ghost views = text::texts(scripts@);
    assert(views.len() == scripts@.len());
    if scripts.len() == 0 {
        return false;
    }
    let mut index: usize = 0;
    while index < scripts.len()
        invariant
            index <= scripts@.len(),
            views == text::texts(scripts@),
            views.len() == scripts@.len() > 0,
            policy_model::sed_scripts(text::texts(arguments@), 0, Seq::empty()) == Some(views),
            forall|i: int|
                0 <= i < index ==> policy_model::is_safe_sed_script(#[trigger] views[i]),
        decreases scripts@.len() - index,
    {
        assert(views[index as int] == scripts@[index as int]@);
        if !is_safe_sed_script(scripts[index].as_str()) {
            assert(!policy_model::is_safe_sed_script(views[index as int]));
            return false;
        }
        index += 1;
    }
    true
}

fn is_low_risk_external_program(program: &str) -> (result: bool)
    ensures
        result == policy_model::is_low_risk_external_program(program@),
{
    same_text(program, "git") || same_text(program, "cargo") || same_text(program, "rg")
        || same_text(program, "ls") || same_text(program, "cat") || same_text(program, "grep")
        || same_text(program, "head") || same_text(program, "tail") || same_text(program, "wc")
        || same_text(program, "stat") || same_text(program, "file") || same_text(program, "find")
        || same_text(program, "sed")
}

fn is_low_risk_external_command(program: &str, arguments: &[String]) -> (result: bool)
    ensures
        result == policy_model::is_low_risk_external_command(program@, text::texts(arguments@)),
{
    if !is_low_risk_external_program(program) {
        false
    } else if same_text(program, "git") {
        first_is(arguments, "rev-parse") || arguments.len() == 2 && same_text(
            arguments[0].as_str(),
            "branch",
        ) && same_text(arguments[1].as_str(), "--show-current")
    } else if same_text(program, "cargo") {
        first_is(arguments, "check") || first_is(arguments, "test") || first_is(
            arguments,
            "clippy",
        ) || first_is(arguments, "metadata") || first_is(arguments, "fmt") && later_contains(
            arguments,
            "--check",
        )
    } else if same_text(program, "sed") {
        is_safe_sed_read(arguments)
    } else {
        true
    }
}

fn is_low_risk_builtin(program: &str, arguments: &[String]) -> (result: bool)
    ensures
        result == policy_model::is_low_risk_builtin(program@, text::texts(arguments@)),
{
    same_text(program, "pwd") && arguments.len() == 0 || same_text(program, "command")
        && arguments.len() == 2 && same_text(arguments[0].as_str(), "-v") || same_text(
        program,
        "echo",
    ) || same_text(program, "printf") || same_text(program, "true") || same_text(program, "false")
}

fn mutation_reason(program: &str, arguments: &[String]) -> (reason: Option<&'static str>)
    ensures
        is_reason(reason, policy_model::mutation_reason(program@, text::texts(arguments@))),
{
    if installs_dependencies(program, arguments) {
        Some("command installs or updates dependencies")
    } else if is_destructive(program, arguments) {
        Some("command performs a destructive workspace operation")
    } else if mutates_by_option(program, arguments) {
        Some("command may mutate workspace files")
    } else if same_text(program, "cargo") && any_argument(
        arguments,
        is_cargo_config_option,
        Ghost(|argument: Seq<char>| policy_model::is_cargo_config_option(argument)),
    ) {
        Some("command executes configured tooling")
    } else if same_text(program, "file") && any_argument(
        arguments,
        is_file_compile_option,
        Ghost(|argument: Seq<char>| policy_model::is_file_compile_option(argument)),
    ) {
        Some("command may mutate workspace files")
    } else {
        None
    }
}

fn reading_reason(program: &str, arguments: &[String]) -> (reason: Option<&'static str>)
    ensures
        is_reason(reason, policy_model::reading_reason(program@, text::texts(arguments@))),
{
    let follows = |argument: &str| -> (result: bool)
        ensures
            result == policy_model::is_following_option(program@, argument@),
        { is_following_option(program, argument) };
    if same_text(program, "rg") && any_argument(
        arguments,
        is_search_helper_option,
        Ghost(|argument: Seq<char>| policy_model::is_search_helper_option(argument)),
    ) {
        Some("command executes a helper while searching files")
    } else if same_text(program, "rg") && !first_is(arguments, "--no-config") {
        Some("command may execute a preprocessor from inherited configuration")
    } else if any_argument(
        arguments,
        follows,
        Ghost(|argument: Seq<char>| policy_model::is_following_option(program@, argument)),
    ) {
        Some("command may follow or load paths outside the workspace")
    } else if same_text(program, "tail") && any_argument(
        arguments,
        is_monitor_option,
        Ghost(|argument: Seq<char>| policy_model::is_monitor_option(argument)),
    ) {
        Some("command starts a long-running file monitor")
    } else if same_text(program, "printf") && arguments.len() > 0 && starts_with(
        arguments[0].as_str(),
        "-v",
    ) {
        Some("command changes a shell variable")
    } else if same_text(program, "printf") && printf_format_may_amplify_output(arguments) {
        Some("command may amplify output without a fixed resource bound")
    } else if same_text(program, "find") && find_may_mutate_or_execute(arguments) {
        Some("command may mutate workspace files or execute a helper")
    } else if same_text(program, "sed") && !is_safe_sed_read(arguments) {
        Some("command may mutate workspace files or execute a helper")
    } else {
        None
    }
}

/// Why a simple command needs approval once its paths are known to stay within
/// the workspace.
pub(crate) fn reason_after_paths(program: &str, arguments: &[String]) -> (reason: Option<
    &'static str,
>)
    ensures
        is_reason(reason, policy_model::reason_after_paths(program@, text::texts(arguments@))),
{
    match mutation_reason(program, arguments) {
        Some(reason) => Some(reason),
        None => match reading_reason(program, arguments) {
            Some(reason) => Some(reason),
            None => if is_low_risk_builtin(program, arguments) || is_low_risk_external_command(
                program,
                arguments,
            ) {
                None
            } else {
                Some("command is not classified as low-risk")
            },
        },
    }
}

/// Whether one of `options` is `wanted`.
fn is_option(options: &[char], wanted: char) -> (result: bool)
    ensures
        result == options@.contains(wanted),
{
    let mut index: usize = 0;
    while index < options.len()
        invariant
            index <= options@.len(),
            forall|i: int| 0 <= i < index ==> options@[i] != wanted,
        decreases options@.len() - index,
    {
        if options[index] == wanted {
            return true;
        }
        index += 1;
    }
    false
}

fn is_exact_short_option(argument: &str, options: &[char]) -> (result: bool)
    ensures
        result == policy_model::is_exact_short_option(argument@, options@),
{
    let chars = chars_of(argument);
    chars.len() == 2 && chars[0] == '-' && is_option(options, chars[1])
}

fn attached_short_option_value(argument: &str, options: &[char]) -> (value: Option<String>)
    ensures
        match value {
            Some(found) => policy_model::attached_short_option_value(argument@, options@) == Some(
                found@,
            ),
            None => policy_model::attached_short_option_value(argument@, options@) is None,
        },
{
    if !is_short_option_cluster(argument) {
        return None;
    }
    let chars = chars_of(argument);
    let mut index: usize = 1;
    while index < chars.len()
        invariant
            1 <= index,
            chars@ == argument@,
            policy_model::is_short_option_cluster(argument@),
            policy_model::option_position(argument@, options@, 1) == policy_model::option_position(
                argument@,
                options@,
                index as int,
            ),
        decreases chars@.len() - index,
    {
        if is_option(options, chars[index]) {
            if index + 1 < chars.len() {
                return Some(without_prefix(argument, index + 1));
            }
            return None;
        }
        index += 1;
    }
    None
}

/// The value that the argument at `index` gives to a path-bearing option.
fn option_value(arguments: &[String], index: usize, short: &[char], long: &str) -> (value: Option<
    String,
>)
    requires
        index < arguments@.len(),
    ensures
        forall|option: policy_model::PathOption|
            option.short == short@ && option.long == long@ ==> match value {
                Some(found) => (#[trigger] policy_model::option_value(
                    text::texts(arguments@),
                    index as int,
                    option,
                )) == Some(found@),
                None => policy_model::option_value(
                    text::texts(arguments@),
                    index as int,
                    option,
                ) is None,
            },
{
    let argument = arguments[index].as_str();
    assert(text::texts(arguments@)[index as int] == argument@);
    let is_long = long_option_matches_or_abbreviates(argument, long);
    if is_exact_short_option(argument, short) || is_long && !contains_char(argument, '=') {
        if index + 1 < arguments.len() {
            assert(text::texts(arguments@)[index + 1] == arguments@[index + 1]@);
            Some(arguments[index + 1].as_str().to_owned())
        } else {
            None
        }
    } else {
        let (_, assigned) = split_at_first(argument, '=');
        match assigned {
            Some(value) => if is_long {
                Some(value)
            } else {
                None
            },
            None => attached_short_option_value(argument, short),
        }
    }
}

/// Appends copies of all `more`.
fn push_all(paths: &mut Vec<String>, more: &Vec<String>)
    ensures
        text::texts(final(paths)@) == text::texts(old(paths)@) + text::texts(more@),
{
    let mut index: usize = 0;
    assert(text::texts(more@).take(0) == Seq::<Seq<char>>::empty());
    assert(text::texts(paths@) == text::texts(old(paths)@) + text::texts(more@).take(0));
    while index < more.len()
        invariant
            index <= more@.len(),
            text::texts(paths@) == text::texts(old(paths)@) + text::texts(more@).take(index as int),
        decreases more@.len() - index,
    {
        push_script(paths, more[index].as_str());
        assert(text::texts(more@).take(index + 1) == text::texts(more@).take(index as int).push(
            more@[index as int]@,
        ));
        index += 1;
    }
    assert(text::texts(more@).take(more@.len() as int) == text::texts(more@));
}

/// The paths that a path-bearing option is given.
fn option_paths(
    arguments: &[String],
    short: &[char],
    long: &str,
    colon_separated: bool,
    skipped: usize,
) -> (paths: Vec<String>)
    requires
        skipped <= arguments@.len(),
    ensures
        text::texts(paths@) == policy_model::option_paths(
            text::texts(arguments@),
            (policy_model::PathOption {
                short: short@,
                long: long@,
                colon_separated,
                skipped: skipped as int,
            }),
            arguments@.len() as int,
        ),
{
    let ghost option = policy_model::PathOption {
        short: short@,
        long: long@,
        colon_separated,
        skipped: skipped as int,
    };
    let mut paths: Vec<String> = Vec::new();
    assert(text::texts(paths@) == Seq::<Seq<char>>::empty());
    let mut index: usize = skipped;
    while index < arguments.len()
        invariant
            skipped <= index <= arguments@.len(),
            option.short == short@,
            option.long == long@,
            option.colon_separated == colon_separated,
            option.skipped == skipped,
            text::texts(paths@) == policy_model::option_paths(
                text::texts(arguments@),
                option,
                index as int,
            ),
        decreases arguments@.len() - index,
    {
        let value = option_value(arguments, index, short, long);
        assert(policy_model::option_value(text::texts(arguments@), index as int, option)
            == policy_model::option_value(text::texts(arguments@), index as int, option));
        if let Some(path) = value {
            if colon_separated {
                let pieces = split_text(path.as_str(), ':');
                push_all(&mut paths, &pieces);
            } else {
                push_script(&mut paths, path.as_str());
            }
        }
        index += 1;
    }
    paths
}

fn path_candidate(word: &str) -> (candidate: Option<String>)
    ensures
        match candidate {
            Some(found) => policy_model::path_candidate(word@) == Some(found@),
            None => policy_model::path_candidate(word@) is None,
        },
{
    let candidate = if starts_with(word, "--") {
        let (_, assigned) = split_at_first(word, '=');
        match assigned {
            Some(value) => value,
            None => word.to_owned(),
        }
    } else {
        word.to_owned()
    };
    if !candidate.as_str().is_empty() && !same_text(candidate.as_str(), ".") && !begins_with_char(
        candidate.as_str(),
        '-',
    ) {
        Some(candidate)
    } else {
        None
    }
}

/// Appends the paths that the arguments name.
fn push_argument_paths(paths: &mut Vec<String>, arguments: &[String])
    ensures
        text::texts(final(paths)@) == text::texts(old(paths)@) + policy_model::argument_paths(
            text::texts(arguments@),
            arguments@.len() as int,
        ),
{
    let ghost views = text::texts(arguments@);
    let mut positional_only = false;
    let mut index: usize = 0;
    assert(text::texts(paths@) == text::texts(old(paths)@) + policy_model::argument_paths(
        views,
        0,
    ));
    while index < arguments.len()
        invariant
            index <= arguments@.len(),
            views == text::texts(arguments@),
            positional_only == views.take(index as int).contains("--"@),
            text::texts(paths@) == text::texts(old(paths)@) + policy_model::argument_paths(
                views,
                index as int,
            ),
        decreases arguments@.len() - index,
    {
        let argument = arguments[index].as_str();
        assert(views[index as int] == argument@);
        let ghost earlier = policy_model::argument_paths(views, index as int);
        proof {
            assert(views.take(index + 1) == views.take(index as int).push(argument@));
            text::lemma_contains_after_push(views.take(index as int), argument@, "--"@);
        }
        if positional_only {
            push_script(paths, argument);
        } else if same_text(argument, "--") {
            positional_only = true;
        } else if let Some(candidate) = path_candidate(argument) {
            push_script(paths, candidate.as_str());
        }
        index += 1;
    }
}

/// All the paths that a simple command names, in the order in which they are
/// looked at.
pub(crate) fn named_paths(program: &str, arguments: &[String]) -> (paths: Vec<String>)
    ensures
        text::texts(paths@) == policy_model::named_paths(program@, text::texts(arguments@)),
{
    let file_option: [char; 1] = ['f'];
    let exclude_option: [char; 1] = ['X'];
    let magic_options: [char; 2] = ['m', 'M'];
    assert(file_option@ =~= seq!['f']);
    assert(exclude_option@ =~= seq!['X']);
    assert(magic_options@ =~= seq!['m', 'M']);
    let mut paths: Vec<String> = if same_text(program, "rg") || same_text(program, "grep") {
        option_paths(arguments, &file_option, "--file", false, 0)
    } else if same_text(program, "git") && first_is(arguments, "grep") {
        option_paths(arguments, &file_option, "--file", false, 1)
    } else if same_text(program, "git") && first_is(arguments, "ls-files") {
        option_paths(arguments, &exclude_option, "--exclude-from", false, 1)
    } else if same_text(program, "file") {
        option_paths(arguments, &magic_options, "--magic-file", true, 0)
    } else {
        Vec::new()
    };
    assert(text::texts(arguments@).len() == arguments@.len());
    assert(policy_model::path_option(program@, text::texts(arguments@)) is None ==> text::texts(
        paths@,
    ) == Seq::<Seq<char>>::empty());
    push_argument_paths(&mut paths, arguments);
    paths
}

fn program_basename(program: &str) -> (name: String)
    ensures
        name@ == policy_model::program_basename(program@),
{
    match path_file_name(program) {
        Some(name) => name,
        None => program.to_owned(),
    }
}

/// An executable index and the one of the model.
spec fn same_index(
    found: Result<Option<usize>, TransparentWrapperError>,
    model: Result<Option<int>, TransparentWrapperError>,
    length: nat,
) -> bool {
    match found {
        Ok(Some(index)) => model == Ok::<Option<int>, TransparentWrapperError>(
            Some(index as int),
        ) && 1 <= index < length,
        Ok(None) => model == Ok::<Option<int>, TransparentWrapperError>(None),
        Err(error) => model == Err::<Option<int>, TransparentWrapperError>(error),
    }
}

fn command_wrapped_program_index(words: &[String]) -> (result: Result<
    Option<usize>,
    TransparentWrapperError,
>)
    ensures
        same_index(
            result,
            policy_model::command_wrapped_program_index(text::texts(words@), 1),
            words@.len(),
        ),
{
    let ghost views = text::texts(words@);
    let mut index: usize = 1;
    while index < words.len()
        invariant
            1 <= index,
            views == text::texts(words@),
            views.len() == words@.len(),
            policy_model::command_wrapped_program_index(views, 1)
                == policy_model::command_wrapped_program_index(views, index as int),
        decreases words@.len() - index,
    {
        let argument = words[index].as_str();
        assert(views[index as int] == argument@);
        if same_text(argument, "--") {
            return if index + 1 < words.len() {
                Ok(Some(index + 1))
            } else {
                Ok(None)
            };
        } else if same_text(argument, "-p") {
            index += 1;
        } else if same_text(argument, "-v") || same_text(argument, "-V") {
            return Ok(None);
        } else if begins_with_char(argument, '-') {
            return Err(TransparentWrapperError::UnsupportedSyntax);
        } else {
            return Ok(Some(index));
        }
    }
    Ok(None)
}

fn is_exec_flag_cluster(argument: &str) -> (result: bool)
    ensures
        result == policy_model::is_exec_flag_cluster(argument@),
{
    if !begins_with_char(argument, '-') {
        return false;
    }
    let chars = chars_of(argument);
    let mut index: usize = 1;
    while index < chars.len()
        invariant
            1 <= index <= chars@.len(),
            chars@ == argument@,
            text::begins_with(argument@, '-'),
            forall|i: int|
                1 <= i < index ==> (#[trigger] argument@[i] == 'c' || argument@[i] == 'l'),
        decreases chars@.len() - index,
    {
        if chars[index] != 'c' && chars[index] != 'l' {
            assert(argument@[index as int] != 'c');
            return false;
        }
        index += 1;
    }
    true
}

fn exec_wrapped_program_index(words: &[String]) -> (result: Result<
    Option<usize>,
    TransparentWrapperError,
>)
    ensures
        same_index(
            result,
            policy_model::exec_wrapped_program_index(text::texts(words@), 1),
            words@.len(),
        ),
{
    let ghost views = text::texts(words@);
    let mut index: usize = 1;
    while index < words.len()
        invariant
            1 <= index,
            views == text::texts(words@),
            views.len() == words@.len(),
            policy_model::exec_wrapped_program_index(views, 1)
                == policy_model::exec_wrapped_program_index(views, index as int),
        decreases words@.len() - index,
    {
        let argument = words[index].as_str();
        assert(views[index as int] == argument@);
        if same_text(argument, "--") {
            return if index + 1 < words.len() {
                Ok(Some(index + 1))
            } else {
                Ok(None)
            };
        } else if same_text(argument, "-a") {
            if words.len() - index <= 2 {
                assert(policy_model::exec_wrapped_program_index(views, index + 2) == Ok::<
                    Option<int>,
                    TransparentWrapperError,
                >(None));
                return Ok(None);
            }
            index += 2;
        } else if is_exec_flag_cluster(argument) {
            index += 1;
        } else if begins_with_char(argument, '-') {
            return Err(TransparentWrapperError::UnsupportedSyntax);
        } else {
            return Ok(Some(index));
        }
    }
    Ok(None)
}

fn is_env_assignment(word: &str) -> (result: bool)
    ensures
        result == policy_model::is_env_assignment(word@),
{
    contains_char(word, '=') && !begins_with_char(word, '=')
}

fn env_short_option_has_attached_value(argument: &str) -> (result: bool)
    ensures
        result == policy_model::env_short_option_has_attached_value(argument@),
{
    let chars = chars_of(argument);
    chars.len() > 2 && (starts_with(argument, "-u") || starts_with(argument, "-C") || starts_with(
        argument,
        "-P",
    ) || starts_with(argument, "-a"))
}

fn env_short_option_cluster_has_no_value(argument: &str) -> (result: bool)
    ensures
        result == policy_model::env_short_option_cluster_has_no_value(argument@),
{
    let chars = chars_of(argument);
    if !begins_with_char(argument, '-') || chars.len() <= 1 {
        return false;
    }
    let mut index: usize = 1;
    while index < chars.len()
        invariant
            1 <= index <= chars@.len(),
            chars@.len() > 1,
            chars@ == argument@,
            text::begins_with(argument@, '-'),
            forall|i: int|
                1 <= i < index ==> (#[trigger] argument@[i] == '0' || argument@[i] == 'i'
                    || argument@[i] == 'v'),
        decreases chars@.len() - index,
    {
        if chars[index] != '0' && chars[index] != 'i' && chars[index] != 'v' {
            assert(argument@[index as int] != '0');
            return false;
        }
        index += 1;
    }
    true
}

fn is_env_option_with_operand(argument: &str) -> (result: bool)
    ensures
        result == policy_model::is_env_option_with_operand(argument@),
{
    same_text(argument, "-u") || same_text(argument, "--unset") || same_text(argument, "-C")
        || same_text(argument, "--chdir") || same_text(argument, "-P") || same_text(argument, "-a")
        || same_text(argument, "--argv0")
}

fn is_env_split_option(argument: &str) -> (result: bool)
    ensures
        result == policy_model::is_env_split_option(argument@),
{
    starts_with(argument, "-S") || same_text(argument, "--split-string") || starts_with(
        argument,
        "--split-string=",
    )
}

fn is_env_flag(argument: &str) -> (result: bool)
    ensures
        result == policy_model::is_env_flag(argument@),
{
    starts_with(argument, "--unset=") || starts_with(argument, "--chdir=") || starts_with(
        argument,
        "--argv0=",
    ) || env_short_option_has_attached_value(argument) || env_short_option_cluster_has_no_value(
        argument,
    ) || starts_with(argument, "--block-signal") || starts_with(argument, "--default-signal")
        || starts_with(argument, "--ignore-signal") || same_text(
        argument,
        "--list-signal-handling",
    ) || same_text(argument, "--debug")
}

fn env_wrapped_program_index(words: &[String]) -> (result: Result<
    Option<usize>,
    TransparentWrapperError,
>)
    ensures
        same_index(
            result,
            policy_model::env_wrapped_program_index(text::texts(words@), 1),
            words@.len(),
        ),
{
    let ghost views = text::texts(words@);
    let mut index: usize = 1;
    while index < words.len()
        invariant
            1 <= index,
            views == text::texts(words@),
            views.len() == words@.len(),
            policy_model::env_wrapped_program_index(views, 1)
                == policy_model::env_wrapped_program_index(views, index as int),
        decreases words@.len() - index,
    {
        let argument = words[index].as_str();
        assert(views[index as int] == argument@);
        if same_text(argument, "--") {
            let start: usize = index + 1;
            let mut next: usize = start;
            while next < words.len() && is_env_assignment(words[next].as_str())
                invariant
                    start <= next,
                    views == text::texts(words@),
                    views.len() == words@.len(),
                    policy_model::after_assignments(views, start as int)
                        == policy_model::after_assignments(views, next as int),
                decreases words@.len() - next,
            {
                assert(views[next as int] == words@[next as int]@);
                next += 1;
            }
            if next < words.len() {
                assert(views[next as int] == words@[next as int]@);
                return Ok(Some(next));
            }
            return Ok(None);
        } else if is_env_option_with_operand(argument) {
            if words.len() - index <= 2 {
                assert(policy_model::env_wrapped_program_index(views, index + 2) == Ok::<
                    Option<int>,
                    TransparentWrapperError,
                >(None));
                return Ok(None);
            }
            index += 2;
        } else if same_text(argument, "--help") || same_text(argument, "--version") {
            return Ok(None);
        } else if is_env_split_option(argument) {
            return Err(TransparentWrapperError::UnsupportedSyntax);
        } else if is_env_flag(argument) {
            index += 1;
        } else if begins_with_char(argument, '-') {
            return Err(TransparentWrapperError::UnsupportedSyntax);
        } else if is_env_assignment(argument) {
            index += 1;
        } else {
            return Ok(Some(index));
        }
    }
    Ok(None)
}

fn wrapped_program_index(words: &[String]) -> (result: Result<
    Option<usize>,
    TransparentWrapperError,
>)
    ensures
        same_index(
            result,
            policy_model::wrapped_program_index(text::texts(words@)),
            words@.len(),
        ),
{
    if words.len() == 0 {
        return Ok(None);
    }
    let name = program_basename(words[0].as_str());
    if same_text(name.as_str(), "command") {
        command_wrapped_program_index(words)
    } else if same_text(name.as_str(), "exec") {
        exec_wrapped_program_index(words)
    } else if same_text(name.as_str(), "env") {
        env_wrapped_program_index(words)
    } else {
        Ok(None)
    }
}

fn unwrap_transparent_command_wrappers(words: &[String]) -> (result: Result<
    &[String],
    TransparentWrapperError,
>)
    ensures
        match result {
            Ok(invocation) => policy_model::unwrap_transparent_command_wrappers(
                text::texts(words@),
                0,
            ) == Ok::<Seq<Seq<char>>, TransparentWrapperError>(text::texts(invocation@)),
            Err(error) => policy_model::unwrap_transparent_command_wrappers(
                text::texts(words@),
                0,
            ) == Err::<Seq<Seq<char>>, TransparentWrapperError>(error),
        },
{
    let mut current: &[String] = words;
    let mut depth: usize = 0;
    loop
        invariant
            depth <= MAX_TRANSPARENT_WRAPPER_DEPTH,
            policy_model::unwrap_transparent_command_wrappers(text::texts(words@), 0)
                == policy_model::unwrap_transparent_command_wrappers(
                text::texts(current@),
                depth as nat,
            ),
        decreases MAX_TRANSPARENT_WRAPPER_DEPTH - depth,
    {
        match wrapped_program_index(current) {
            Err(error) => {
                return Err(error);
            },
            Ok(None) => {
                return Ok(current);
            },
            Ok(Some(index)) => {
                if depth >= MAX_TRANSPARENT_WRAPPER_DEPTH {
                    return Err(TransparentWrapperError::TooDeep);
                }
                current = words_from(current, index);
                depth += 1;
            },
        }
    }
}

fn wrapper_error_reason(error: TransparentWrapperError) -> (reason: &'static str)
    ensures
        reason@ == policy_model::wrapper_error_reason(error),
{
    match error {
        TransparentWrapperError::TooDeep => "command uses too many transparent command wrappers",
        TransparentWrapperError::UnsupportedSyntax => {
            "command uses unsupported transparent command wrapper syntax"
        },
    }
}

fn holds_pattern(name: &str) -> (result: bool)
    ensures
        result == policy_model::holds_pattern(name@),
{
    let chars = chars_of(name);
    let mut index: usize = 0;
    while index < chars.len()
        invariant
            index <= chars@.len(),
            chars@ == name@,
            forall|i: int| 0 <= i < index ==> !shell::is_pattern(#[trigger] name@[i]),
        decreases chars@.len() - index,
    {
        if chars[index] == '*' || chars[index] == '?' || chars[index] == '[' {
            assert(shell::is_pattern(name@[index as int]));
            return true;
        }
        index += 1;
    }
    false
}

fn targets_filesystem_root(argument: &str) -> (result: bool)
    ensures
        result == policy_model::targets_filesystem_root(argument@),
{
    if !path_is_absolute(argument) {
        return false;
    }
    let parts = path_components(argument);
    let ghost views = path::component_views(parts@);
    let mut depth: usize = 0;
    let mut index: usize = 0;
    while index < parts.len()
        invariant
            depth <= index <= parts@.len(),
            views == path::component_views(parts@),
            views == path::components(argument@),
            path::is_absolute(argument@),
            policy_model::ends_at_root(views, 0, 0) == policy_model::ends_at_root(
                views,
                index as int,
                depth as nat,
            ),
        decreases parts@.len() - index,
    {
        assert(views[index as int] == parts@[index as int]@);
        match &parts[index] {
            PathComponent::RootDir => {},
            PathComponent::CurDir => {},
            PathComponent::ParentDir => {
                if depth > 0 {
                    depth -= 1;
                }
            },
            PathComponent::Normal(name) => {
                if depth == 0 && holds_pattern(name.as_str()) {
                    return true;
                }
                depth += 1;
            },
        }
        index += 1;
    }
    depth == 0
}

fn command_mutates_filesystem_root(program: &str, arguments: &[String]) -> (result: bool)
    ensures
        result == policy_model::command_mutates_filesystem_root(program@, text::texts(arguments@)),
{
    if !any_argument(
        arguments,
        targets_filesystem_root,
        Ghost(|argument: Seq<char>| policy_model::targets_filesystem_root(argument)),
    ) {
        return false;
    }
    let name = program_basename(program);
    same_text(name.as_str(), "rm") || same_text(name.as_str(), "chmod") || same_text(
        name.as_str(),
        "chown",
    ) || same_text(name.as_str(), "find") && find_may_mutate_or_execute(arguments)
}

fn elevates_privilege(program: &str) -> (result: bool)
    ensures
        result == policy_model::elevates_privilege(program@),
{
    let name = program_basename(program);
    same_text(name.as_str(), "sudo") || same_text(name.as_str(), "doas") || same_text(
        name.as_str(),
        "su",
    )
}

/// What the hard rules say of a simple command.
pub enum HardRule {
    Reject(&'static str),
    ChangeDirectory(String),
    Pass,
}

impl View for HardRule {
    type V = policy_model::HardRule;

    open spec fn view(&self) -> policy_model::HardRule {
        match self {
            HardRule::Reject(reason) => policy_model::HardRule::Reject(reason@),
            HardRule::ChangeDirectory(path) => policy_model::HardRule::ChangeDirectory(path@),
            HardRule::Pass => policy_model::HardRule::Pass,
        }
    }
}

pub(crate) fn hard_rule(words: &[String]) -> (rule: HardRule)
    ensures
        rule@ == policy_model::hard_rule(text::texts(words@)),
{
    let invocation = match unwrap_transparent_command_wrappers(words) {
        Err(error) => {
            return HardRule::Reject(wrapper_error_reason(error));
        },
        Ok(invocation) => invocation,
    };
    assert(text::texts(invocation@).len() == invocation@.len());
    if invocation.len() == 0 {
        return HardRule::Pass;
    }
    let program = invocation[0].as_str();
    let arguments = words_from(invocation, 1);
    assert(text::texts(invocation@)[0] == program@);
    if elevates_privilege(program) {
        HardRule::Reject("command attempts privilege elevation")
    } else if command_mutates_filesystem_root(program, arguments) {
        HardRule::Reject("command targets the filesystem root")
    } else if same_text(program, "cd") && arguments.len() > 0 {
        assert(text::texts(arguments@)[0] == arguments@[0]@);
        HardRule::ChangeDirectory(arguments[0].as_str().to_owned())
    } else {
        HardRule::Pass
    }
}

} // verus!
