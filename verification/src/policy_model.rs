//! The command policy as mathematics: which simple commands are rejected,
//! which need approval and why, and which paths they name.

use crate::command_input;
use crate::io_failure::ErrorKind;
use crate::path;
use crate::path::ComponentView;
use crate::shell;
use crate::shell::{ParsedView, ShellParseError};
use crate::text;
use vstd::prelude::*;

verus! {

/// The external programs that may be low-risk.
pub open spec fn is_low_risk_external_program(program: Seq<char>) -> bool {
    ||| program == "git"@
    ||| program == "cargo"@
    ||| program == "rg"@
    ||| program == "ls"@
    ||| program == "cat"@
    ||| program == "grep"@
    ||| program == "head"@
    ||| program == "tail"@
    ||| program == "wc"@
    ||| program == "stat"@
    ||| program == "file"@
    ||| program == "find"@
    ||| program == "sed"@
}

/// Whether some argument satisfies `rule`.
pub open spec fn any_argument(
    arguments: Seq<Seq<char>>,
    rule: spec_fn(Seq<char>) -> bool,
) -> bool {
    exists|i: int| 0 <= i < arguments.len() && #[trigger] rule(arguments[i])
}

/// Whether the first argument is `wanted`.
pub open spec fn first_is(arguments: Seq<Seq<char>>, wanted: Seq<char>) -> bool {
    arguments.len() > 0 && arguments[0] == wanted
}

/// Whether `argument` spells the long option `full_option` or a prefix of it,
/// with or without a value.
pub open spec fn long_option_matches_or_abbreviates(
    argument: Seq<char>,
    full_option: Seq<char>,
) -> bool {
    let name = text::before(argument, '=');
    "--"@.is_prefix_of(name) && name.len() > 2 && name.is_prefix_of(full_option)
}

/// Whether `argument` is a cluster of short options.
pub open spec fn is_short_option_cluster(argument: Seq<char>) -> bool {
    text::begins_with(argument, '-') && !"--"@.is_prefix_of(argument)
}

/// Whether `argument` is a cluster of short options with `option` among them.
pub open spec fn short_option_cluster_contains(argument: Seq<char>, option: char) -> bool {
    is_short_option_cluster(argument) && argument.skip(1).contains(option)
}

pub open spec fn file_may_execute_uncompress_helper(arguments: Seq<Seq<char>>) -> bool {
    any_argument(arguments, |argument: Seq<char>| is_uncompress_option(argument))
}

pub open spec fn is_uncompress_option(argument: Seq<char>) -> bool {
    ||| short_option_cluster_contains(argument, 'z')
    ||| short_option_cluster_contains(argument, 'Z')
    ||| long_option_matches_or_abbreviates(argument, "--uncompress"@)
    ||| long_option_matches_or_abbreviates(argument, "--uncompress-noreport"@)
}

/// Whether `first` is directly followed by `second` somewhere.
pub open spec fn holds_pair(argument: Seq<char>, first: char, second: char) -> bool {
    exists|i: int|
        0 <= i < argument.len() - 1 && #[trigger] argument[i] == first && argument[i + 1] == second
}

pub open spec fn is_signature_option(argument: Seq<char>) -> bool {
    ||| long_option_matches_or_abbreviates(argument, "--show-signature"@)
    ||| holds_pair(argument, '%', 'G')
}

pub open spec fn git_may_use_signature_verification(arguments: Seq<Seq<char>>) -> bool {
    ||| first_is(arguments, "log"@)
    ||| first_is(arguments, "show"@)
    ||| any_argument(arguments, |argument: Seq<char>| is_signature_option(argument))
}

pub open spec fn is_git_output_option(argument: Seq<char>) -> bool {
    long_option_matches_or_abbreviates(argument, "--output"@)
}

pub open spec fn is_git_helper_option(argument: Seq<char>) -> bool {
    ||| short_option_cluster_contains(argument, 'O')
    ||| long_option_matches_or_abbreviates(argument, "--open-files-in-pager"@)
    ||| long_option_matches_or_abbreviates(argument, "--ext-diff"@)
    ||| long_option_matches_or_abbreviates(argument, "--textconv"@)
}

/// Why a simple command needs approval before its paths are looked at.
pub open spec fn reason_before_paths(
    program: Seq<char>,
    arguments: Seq<Seq<char>>,
) -> Option<Seq<char>> {
    if program == "file"@ && file_may_execute_uncompress_helper(arguments) {
        Some("command executes a helper while inspecting compressed files"@)
    } else if program == "git"@ && any_argument(
        arguments,
        |argument: Seq<char>| is_git_output_option(argument),
    ) {
        Some("command may mutate workspace files"@)
    } else if program == "git"@ && git_may_use_signature_verification(arguments) {
        Some("command executes configured signature verification tooling"@)
    } else if program == "git"@ && any_argument(
        arguments,
        |argument: Seq<char>| is_git_helper_option(argument),
    ) {
        Some("command executes a helper configured by Git"@)
    } else if program == "git"@ && (first_is(arguments, "status"@) || first_is(arguments, "diff"@)
        || first_is(arguments, "ls-files"@) || first_is(arguments, "grep"@)) {
        Some("command may invoke Git's configured fsmonitor helper or start its daemon"@)
    } else {
        None
    }
}

pub open spec fn installs_dependencies(program: Seq<char>, arguments: Seq<Seq<char>>) -> bool {
    ||| program == "cargo"@ && (first_is(arguments, "add"@) || first_is(arguments, "install"@)
        || first_is(arguments, "update"@))
    ||| is_package_manager(program) && (first_is(arguments, "install"@) || first_is(
        arguments,
        "add"@,
    ) || first_is(arguments, "update"@))
}

pub open spec fn is_package_manager(program: Seq<char>) -> bool {
    program == "npm"@ || program == "pnpm"@ || program == "yarn"@ || program == "pip"@ || program
        == "pip3"@
}

pub open spec fn is_destructive(program: Seq<char>, arguments: Seq<Seq<char>>) -> bool {
    ||| program == "rm"@
    ||| program == "git"@ && (first_is(arguments, "reset"@) || first_is(arguments, "clean"@))
}

pub open spec fn is_mutating_program(program: Seq<char>) -> bool {
    program == "touch"@ || program == "mkdir"@ || program == "cp"@ || program == "mv"@ || program
        == "chmod"@ || program == "chown"@ || program == "tee"@
}

pub open spec fn is_file_compile_option(argument: Seq<char>) -> bool {
    ||| long_option_matches_or_abbreviates(argument, "--compile"@)
    ||| short_option_cluster_contains(argument, 'C')
}

/// Whether the command may write workspace files by an option of its own.
pub open spec fn mutates_by_option(program: Seq<char>, arguments: Seq<Seq<char>>) -> bool {
    ||| is_mutating_program(program)
    ||| program == "sed"@ && any_argument(
        arguments,
        |argument: Seq<char>| "-i"@.is_prefix_of(argument),
    )
    ||| program == "cargo"@ && first_is(arguments, "clippy"@) && arguments.skip(1).contains(
        "--fix"@,
    )
}

pub open spec fn is_cargo_config_option(argument: Seq<char>) -> bool {
    argument == "--config"@ || "--config="@.is_prefix_of(argument)
}

pub open spec fn is_search_helper_option(argument: Seq<char>) -> bool {
    ||| long_option_matches_or_abbreviates(argument, "--pre"@)
    ||| long_option_matches_or_abbreviates(argument, "--search-zip"@)
    ||| short_option_cluster_contains(argument, 'z')
}

/// Whether an option of `program` follows links or loads further paths.
pub open spec fn is_following_option(program: Seq<char>, argument: Seq<char>) -> bool {
    ||| program == "rg"@ && (long_option_matches_or_abbreviates(argument, "--follow"@)
        || short_option_cluster_contains(argument, 'L'))
    ||| program == "grep"@ && (long_option_matches_or_abbreviates(
        argument,
        "--dereference-recursive"@,
    ) || short_option_cluster_contains(argument, 'R'))
    ||| program == "find"@ && (argument == "-L"@ || argument == "-follow"@
        || "-files0-from"@.is_prefix_of(argument))
    ||| program == "file"@ && (argument == "-f"@ || short_option_cluster_contains(argument, 'f')
        || long_option_matches_or_abbreviates(argument, "--files-from"@))
    ||| program == "wc"@ && long_option_matches_or_abbreviates(argument, "--files0-from"@)
    ||| program == "ls"@ && (short_option_cluster_contains(argument, 'L')
        || long_option_matches_or_abbreviates(argument, "--dereference"@))
}

pub open spec fn is_monitor_option(argument: Seq<char>) -> bool {
    ||| short_option_cluster_contains(argument, 'f')
    ||| short_option_cluster_contains(argument, 'F')
    ||| long_option_matches_or_abbreviates(argument, "--follow"@)
    ||| long_option_matches_or_abbreviates(argument, "--retry"@)
    ||| long_option_matches_or_abbreviates(argument, "--pid"@)
}

/// The longest `printf` format, in bytes, that may be used again for further
/// operands.
pub const MAX_LOW_RISK_PRINTF_FORMAT_BYTES: usize = 1024;

/// Whether a format, read on from `at` inside or outside a directive, holds a
/// directive with a width, a precision or an argument position.
pub open spec fn format_has_width(format: Seq<char>, at: int, in_directive: bool) -> bool
    decreases format.len() - at,
{
    if at < 0 || at >= format.len() {
        false
    } else if !in_directive {
        format_has_width(format, at + 1, format[at] == '%')
    } else if format[at] == '%' {
        format_has_width(format, at + 1, false)
    } else if format[at] == '*' || is_ascii_digit(format[at]) {
        true
    } else {
        format_has_width(format, at + 1, !is_ascii_alphabetic(format[at]))
    }
}

pub open spec fn is_ascii_digit(character: char) -> bool {
    '0' <= character <= '9'
}

pub open spec fn is_ascii_alphabetic(character: char) -> bool {
    'a' <= character <= 'z' || 'A' <= character <= 'Z'
}

/// Whether `printf` may write much more than its arguments hold.
pub open spec fn printf_format_may_amplify_output(arguments: Seq<Seq<char>>) -> bool {
    let skipped: int = if arguments.len() >= 2 && arguments[0] == "--"@ {
        1
    } else {
        0
    };
    if arguments.len() == 0 {
        false
    } else {
        let format = arguments[skipped];
        ||| vstd::utf8::encode_utf8(format).len() > MAX_LOW_RISK_PRINTF_FORMAT_BYTES
            && arguments.len() - skipped - 1 > 1
        ||| format_has_width(format, 0, false)
    }
}

pub open spec fn is_find_action(argument: Seq<char>) -> bool {
    argument == "-delete"@ || argument == "-exec"@ || argument == "-execdir"@ || argument == "-ok"@
        || argument == "-okdir"@ || argument == "-fprint"@ || argument == "-fprint0"@ || argument
        == "-fprintf"@ || argument == "-fls"@
}

pub open spec fn find_may_mutate_or_execute(arguments: Seq<Seq<char>>) -> bool {
    any_argument(arguments, |argument: Seq<char>| is_find_action(argument))
}

/// A `sed` script of line numbers, ranges, `p` and `q` alone.
pub open spec fn is_safe_sed_script(script: Seq<char>) -> bool {
    script.len() > 0 && forall|i: int|
        0 <= i < script.len() ==> {
            let character = #[trigger] script[i];
            is_ascii_digit(character) || character == ',' || character == '$' || character == 'p'
                || character == 'q'
        }
}

/// The scripts that `sed` runs, read on from `at` with `scripts` already found;
/// none where an option is not understood or has no operand.
pub open spec fn sed_scripts(
    arguments: Seq<Seq<char>>,
    at: int,
    scripts: Seq<Seq<char>>,
) -> Option<Seq<Seq<char>>>
    decreases arguments.len() - at,
{
    if at < 0 || at >= arguments.len() {
        Some(scripts)
    } else {
        let argument = arguments[at];
        if argument == "-n"@ || argument == "--quiet"@ || argument == "--silent"@ {
            sed_scripts(arguments, at + 1, scripts)
        } else if argument == "-e"@ || argument == "--expression"@ {
            if at + 1 < arguments.len() {
                sed_scripts(arguments, at + 2, scripts.push(arguments[at + 1]))
            } else {
                None
            }
        } else if argument == "--"@ {
            if scripts.len() > 0 {
                Some(scripts)
            } else if at + 1 < arguments.len() {
                Some(scripts.push(arguments[at + 1]))
            } else {
                None
            }
        } else if "--expression="@.is_prefix_of(argument) {
            sed_scripts(arguments, at + 1, scripts.push(argument.skip("--expression="@.len() as int)))
        } else if "-e"@.is_prefix_of(argument) {
            sed_scripts(arguments, at + 1, scripts.push(argument.skip(2)))
        } else if text::begins_with(argument, '-') {
            None
        } else if scripts.len() == 0 {
            sed_scripts(arguments, at + 1, scripts.push(argument))
        } else {
            sed_scripts(arguments, at + 1, scripts)
        }
    }
}

/// Whether `sed` only prints lines of its input.
pub open spec fn is_safe_sed_read(arguments: Seq<Seq<char>>) -> bool {
    match sed_scripts(arguments, 0, Seq::empty()) {
        Some(scripts) => scripts.len() > 0 && forall|i: int|
            0 <= i < scripts.len() ==> is_safe_sed_script(#[trigger] scripts[i]),
        None => false,
    }
}

/// Whether `printf` stores its output in a variable.
pub open spec fn printf_sets_variable(arguments: Seq<Seq<char>>) -> bool {
    arguments.len() > 0 && "-v"@.is_prefix_of(arguments[0])
}

/// Whether an external program is low-risk with these arguments.
pub open spec fn is_low_risk_external_command(
    program: Seq<char>,
    arguments: Seq<Seq<char>>,
) -> bool {
    &&& is_low_risk_external_program(program)
    &&& if program == "git"@ {
        ||| first_is(arguments, "rev-parse"@)
        ||| arguments.len() == 2 && arguments[0] == "branch"@ && arguments[1] == "--show-current"@
    } else if program == "cargo"@ {
        ||| first_is(arguments, "check"@)
        ||| first_is(arguments, "test"@)
        ||| first_is(arguments, "clippy"@)
        ||| first_is(arguments, "metadata"@)
        ||| first_is(arguments, "fmt"@) && arguments.skip(1).contains("--check"@)
    } else if program == "sed"@ {
        is_safe_sed_read(arguments)
    } else {
        true
    }
}

/// Whether a shell builtin is low-risk with these arguments.
pub open spec fn is_low_risk_builtin(program: Seq<char>, arguments: Seq<Seq<char>>) -> bool {
    ||| program == "pwd"@ && arguments.len() == 0
    ||| program == "command"@ && arguments.len() == 2 && arguments[0] == "-v"@
    ||| program == "echo"@
    ||| program == "printf"@
    ||| program == "true"@
    ||| program == "false"@
}

/// Why a simple command that writes or installs needs approval.
pub open spec fn mutation_reason(program: Seq<char>, arguments: Seq<Seq<char>>) -> Option<
    Seq<char>,
> {
    if installs_dependencies(program, arguments) {
        Some("command installs or updates dependencies"@)
    } else if is_destructive(program, arguments) {
        Some("command performs a destructive workspace operation"@)
    } else if mutates_by_option(program, arguments) {
        Some("command may mutate workspace files"@)
    } else if program == "cargo"@ && any_argument(
        arguments,
        |argument: Seq<char>| is_cargo_config_option(argument),
    ) {
        Some("command executes configured tooling"@)
    } else if program == "file"@ && any_argument(
        arguments,
        |argument: Seq<char>| is_file_compile_option(argument),
    ) {
        Some("command may mutate workspace files"@)
    } else {
        None
    }
}

/// Why a simple command that reads needs approval for what it reads or runs.
pub open spec fn reading_reason(program: Seq<char>, arguments: Seq<Seq<char>>) -> Option<
    Seq<char>,
> {
    if program == "rg"@ && any_argument(
        arguments,
        |argument: Seq<char>| is_search_helper_option(argument),
    ) {
        Some("command executes a helper while searching files"@)
    } else if program == "rg"@ && !first_is(arguments, "--no-config"@) {
        Some("command may execute a preprocessor from inherited configuration"@)
    } else if any_argument(
        arguments,
        |argument: Seq<char>| is_following_option(program, argument),
    ) {
        Some("command may follow or load paths outside the workspace"@)
    } else if program == "tail"@ && any_argument(
        arguments,
        |argument: Seq<char>| is_monitor_option(argument),
    ) {
        Some("command starts a long-running file monitor"@)
    } else if program == "printf"@ && printf_sets_variable(arguments) {
        Some("command changes a shell variable"@)
    } else if program == "printf"@ && printf_format_may_amplify_output(arguments) {
        Some("command may amplify output without a fixed resource bound"@)
    } else if program == "find"@ && find_may_mutate_or_execute(arguments) {
        Some("command may mutate workspace files or execute a helper"@)
    } else if program == "sed"@ && !is_safe_sed_read(arguments) {
        Some("command may mutate workspace files or execute a helper"@)
    } else {
        None
    }
}

/// Why a simple command needs approval once its paths are known to stay within
/// the workspace.
pub open spec fn reason_after_paths(
    program: Seq<char>,
    arguments: Seq<Seq<char>>,
) -> Option<Seq<char>> {
    match mutation_reason(program, arguments) {
        Some(reason) => Some(reason),
        None => match reading_reason(program, arguments) {
            Some(reason) => Some(reason),
            None => if is_low_risk_builtin(program, arguments) || is_low_risk_external_command(
                program,
                arguments,
            ) {
                None
            } else {
                Some("command is not classified as low-risk"@)
            },
        },
    }
}

/// An option of a program whose value is a path.
pub struct PathOption {
    pub short: Seq<char>,
    pub long: Seq<char>,
    pub colon_separated: bool,
    /// The arguments before the options.
    pub skipped: int,
}

/// The path-bearing option of a program.
pub open spec fn path_option(program: Seq<char>, arguments: Seq<Seq<char>>) -> Option<PathOption> {
    if program == "rg"@ || program == "grep"@ {
        Some(
            PathOption {
                short: seq!['f'],
                long: "--file"@,
                colon_separated: false,
                skipped: 0,
            },
        )
    } else if program == "git"@ && first_is(arguments, "grep"@) {
        Some(
            PathOption {
                short: seq!['f'],
                long: "--file"@,
                colon_separated: false,
                skipped: 1,
            },
        )
    } else if program == "git"@ && first_is(arguments, "ls-files"@) {
        Some(
            PathOption {
                short: seq!['X'],
                long: "--exclude-from"@,
                colon_separated: false,
                skipped: 1,
            },
        )
    } else if program == "file"@ {
        Some(
            PathOption {
                short: seq!['m', 'M'],
                long: "--magic-file"@,
                colon_separated: true,
                skipped: 0,
            },
        )
    } else {
        None
    }
}

/// Whether `argument` is `-` and one of the short options, nothing more.
pub open spec fn is_exact_short_option(argument: Seq<char>, options: Seq<char>) -> bool {
    argument.len() == 2 && argument[0] == '-' && options.contains(argument[1])
}

/// The position of the first of `options` in a cluster, at or after `at`.
pub open spec fn option_position(argument: Seq<char>, options: Seq<char>, at: int) -> Option<int>
    decreases argument.len() - at,
{
    if at < 0 || at >= argument.len() {
        None
    } else if options.contains(argument[at]) {
        Some(at)
    } else {
        option_position(argument, options, at + 1)
    }
}

/// What stands behind the first of `options` in a cluster.
pub open spec fn attached_short_option_value(
    argument: Seq<char>,
    options: Seq<char>,
) -> Option<Seq<char>> {
    if !is_short_option_cluster(argument) {
        None
    } else {
        match option_position(argument, options, 1) {
            Some(position) => if position + 1 < argument.len() {
                Some(argument.skip(position + 1))
            } else {
                None
            },
            None => None,
        }
    }
}

/// The value that the argument at `at` gives to a path-bearing option.
pub open spec fn option_value(arguments: Seq<Seq<char>>, at: int, option: PathOption) -> Option<
    Seq<char>,
> {
    let argument = arguments[at];
    let long = long_option_matches_or_abbreviates(argument, option.long);
    if is_exact_short_option(argument, option.short) || long && !argument.contains('=') {
        if at + 1 < arguments.len() {
            Some(arguments[at + 1])
        } else {
            None
        }
    } else {
        match text::after(argument, '=') {
            Some(value) => if long {
                Some(value)
            } else {
                None
            },
            None => attached_short_option_value(argument, option.short),
        }
    }
}

/// The paths that the first `count` arguments give to a path-bearing option.
pub open spec fn option_paths(
    arguments: Seq<Seq<char>>,
    option: PathOption,
    count: int,
) -> Seq<Seq<char>>
    decreases count,
{
    if count <= option.skipped || count <= 0 {
        Seq::empty()
    } else {
        let earlier = option_paths(arguments, option, count - 1);
        match option_value(arguments, count - 1, option) {
            Some(value) => if option.colon_separated {
                earlier + text::split(value, ':')
            } else {
                earlier.push(value)
            },
            None => earlier,
        }
    }
}

/// The path that a plain argument may name.
pub open spec fn path_candidate(word: Seq<char>) -> Option<Seq<char>> {
    let candidate = if "--"@.is_prefix_of(word) {
        match text::after(word, '=') {
            Some(value) => value,
            None => word,
        }
    } else {
        word
    };
    if candidate.len() > 0 && candidate != "."@ && !text::begins_with(candidate, '-') {
        Some(candidate)
    } else {
        None
    }
}

/// The paths that the first `count` arguments name, everything behind the first
/// `--` being one.
pub open spec fn argument_paths(arguments: Seq<Seq<char>>, count: int) -> Seq<Seq<char>>
    decreases count,
{
    if count <= 0 {
        Seq::empty()
    } else {
        let earlier = argument_paths(arguments, count - 1);
        let argument = arguments[count - 1];
        if arguments.take(count - 1).contains("--"@) {
            earlier.push(argument)
        } else if argument == "--"@ {
            earlier
        } else {
            match path_candidate(argument) {
                Some(candidate) => earlier.push(candidate),
                None => earlier,
            }
        }
    }
}

/// All the paths that a simple command names, in the order in which they are
/// looked at.
pub open spec fn named_paths(program: Seq<char>, arguments: Seq<Seq<char>>) -> Seq<Seq<char>> {
    let by_option = match path_option(program, arguments) {
        Some(option) => option_paths(arguments, option, arguments.len() as int),
        None => Seq::empty(),
    };
    by_option + argument_paths(arguments, arguments.len() as int)
}

/// The name under which a program is known, whatever its directory.
pub open spec fn program_basename(program: Seq<char>) -> Seq<char> {
    match path::file_name(program) {
        Some(name) => name,
        None => program,
    }
}

/// Why a wrapped command cannot be seen through.
#[derive(Clone, Copy, Debug, PartialEq, Eq, Structural)]
pub enum TransparentWrapperError {
    TooDeep,
    UnsupportedSyntax,
}

/// The nesting of wrappers that the policy sees through.
pub const MAX_TRANSPARENT_WRAPPER_DEPTH: usize = 4;

/// The index, where it is one of a word.
pub open spec fn index_in(words: Seq<Seq<char>>, index: int) -> Option<int> {
    if index < words.len() {
        Some(index)
    } else {
        None
    }
}

/// The program behind `command`, read on from `at`.
pub open spec fn command_wrapped_program_index(words: Seq<Seq<char>>, at: int) -> Result<
    Option<int>,
    TransparentWrapperError,
>
    decreases words.len() - at,
{
    if at < 0 || at >= words.len() {
        Ok(None)
    } else if words[at] == "--"@ {
        Ok(index_in(words, at + 1))
    } else if words[at] == "-p"@ {
        command_wrapped_program_index(words, at + 1)
    } else if words[at] == "-v"@ || words[at] == "-V"@ {
        Ok(None)
    } else if text::begins_with(words[at], '-') {
        Err(TransparentWrapperError::UnsupportedSyntax)
    } else {
        Ok(Some(at))
    }
}

/// A cluster of `exec` options without a value.
pub open spec fn is_exec_flag_cluster(argument: Seq<char>) -> bool {
    text::begins_with(argument, '-') && forall|i: int|
        1 <= i < argument.len() ==> (#[trigger] argument[i] == 'c' || argument[i] == 'l')
}

/// The program behind `exec`, read on from `at`.
pub open spec fn exec_wrapped_program_index(words: Seq<Seq<char>>, at: int) -> Result<
    Option<int>,
    TransparentWrapperError,
>
    decreases words.len() + 1 - at,
{
    if at < 0 || at >= words.len() {
        Ok(None)
    } else if words[at] == "--"@ {
        Ok(index_in(words, at + 1))
    } else if words[at] == "-a"@ {
        exec_wrapped_program_index(words, at + 2)
    } else if is_exec_flag_cluster(words[at]) {
        exec_wrapped_program_index(words, at + 1)
    } else if text::begins_with(words[at], '-') {
        Err(TransparentWrapperError::UnsupportedSyntax)
    } else {
        Ok(Some(at))
    }
}

/// A `NAME=value` word.
pub open spec fn is_env_assignment(word: Seq<char>) -> bool {
    word.contains('=') && word[0] != '='
}

/// The first word at or after `at` that is no assignment.
pub open spec fn after_assignments(words: Seq<Seq<char>>, at: int) -> int
    decreases words.len() - at,
{
    if 0 <= at < words.len() && is_env_assignment(words[at]) {
        after_assignments(words, at + 1)
    } else {
        at
    }
}

/// `env` options whose value is the next word.
pub open spec fn is_env_option_with_operand(argument: Seq<char>) -> bool {
    argument == "-u"@ || argument == "--unset"@ || argument == "-C"@ || argument == "--chdir"@
        || argument == "-P"@ || argument == "-a"@ || argument == "--argv0"@
}

/// `env` options that hand a text over to be split into words.
pub open spec fn is_env_split_option(argument: Seq<char>) -> bool {
    "-S"@.is_prefix_of(argument) || argument == "--split-string"@
        || "--split-string="@.is_prefix_of(argument)
}

/// `env` options with their value attached.
pub open spec fn env_short_option_has_attached_value(argument: Seq<char>) -> bool {
    argument.len() > 2 && ("-u"@.is_prefix_of(argument) || "-C"@.is_prefix_of(argument)
        || "-P"@.is_prefix_of(argument) || "-a"@.is_prefix_of(argument))
}

/// A cluster of `env` options without a value.
pub open spec fn env_short_option_cluster_has_no_value(argument: Seq<char>) -> bool {
    text::begins_with(argument, '-') && argument.len() > 1 && forall|i: int|
        1 <= i < argument.len() ==> (#[trigger] argument[i] == '0' || argument[i] == 'i'
            || argument[i] == 'v')
}

/// `env` options that take no further word.
pub open spec fn is_env_flag(argument: Seq<char>) -> bool {
    ||| "--unset="@.is_prefix_of(argument)
    ||| "--chdir="@.is_prefix_of(argument)
    ||| "--argv0="@.is_prefix_of(argument)
    ||| env_short_option_has_attached_value(argument)
    ||| env_short_option_cluster_has_no_value(argument)
    ||| "--block-signal"@.is_prefix_of(argument)
    ||| "--default-signal"@.is_prefix_of(argument)
    ||| "--ignore-signal"@.is_prefix_of(argument)
    ||| argument == "--list-signal-handling"@
    ||| argument == "--debug"@
}

/// The program behind `env`, read on from `at`.
pub open spec fn env_wrapped_program_index(words: Seq<Seq<char>>, at: int) -> Result<
    Option<int>,
    TransparentWrapperError,
>
    decreases words.len() + 1 - at,
{
    if at < 0 || at >= words.len() {
        Ok(None)
    } else if words[at] == "--"@ {
        Ok(index_in(words, after_assignments(words, at + 1)))
    } else if is_env_option_with_operand(words[at]) {
        env_wrapped_program_index(words, at + 2)
    } else if words[at] == "--help"@ || words[at] == "--version"@ {
        Ok(None)
    } else if is_env_split_option(words[at]) {
        Err(TransparentWrapperError::UnsupportedSyntax)
    } else if is_env_flag(words[at]) {
        env_wrapped_program_index(words, at + 1)
    } else if text::begins_with(words[at], '-') {
        Err(TransparentWrapperError::UnsupportedSyntax)
    } else if is_env_assignment(words[at]) {
        env_wrapped_program_index(words, at + 1)
    } else {
        Ok(Some(at))
    }
}

/// The program that a wrapper runs; none where `words` is no wrapped command.
pub open spec fn wrapped_program_index(words: Seq<Seq<char>>) -> Result<
    Option<int>,
    TransparentWrapperError,
> {
    if words.len() == 0 {
        Ok(None)
    } else {
        let name = program_basename(words[0]);
        if name == "command"@ {
            command_wrapped_program_index(words, 1)
        } else if name == "exec"@ {
            exec_wrapped_program_index(words, 1)
        } else if name == "env"@ {
            env_wrapped_program_index(words, 1)
        } else {
            Ok(None)
        }
    }
}

/// The command that is left when the wrappers in front of it are taken away,
/// `depth` of them being gone already.
pub open spec fn unwrap_transparent_command_wrappers(words: Seq<Seq<char>>, depth: nat) -> Result<
    Seq<Seq<char>>,
    TransparentWrapperError,
>
    decreases MAX_TRANSPARENT_WRAPPER_DEPTH - depth,
{
    match wrapped_program_index(words) {
        Err(error) => Err(error),
        Ok(None) => Ok(words),
        Ok(Some(index)) => if depth >= MAX_TRANSPARENT_WRAPPER_DEPTH {
            Err(TransparentWrapperError::TooDeep)
        } else {
            unwrap_transparent_command_wrappers(words.skip(index), depth + 1)
        },
    }
}

/// What a wrapper error is reported as.
pub open spec fn wrapper_error_reason(error: TransparentWrapperError) -> Seq<char> {
    match error {
        TransparentWrapperError::TooDeep => "command uses too many transparent command wrappers"@,
        TransparentWrapperError::UnsupportedSyntax => {
            "command uses unsupported transparent command wrapper syntax"@
        },
    }
}

/// Whether a name matches any file of its directory.
pub open spec fn holds_pattern(name: Seq<char>) -> bool {
    exists|i: int| 0 <= i < name.len() && shell::is_pattern(#[trigger] name[i])
}

/// Whether a path, read on from the component at `at` and `depth` names below
/// the root, comes out at the root or at a pattern right below it.
pub open spec fn ends_at_root(parts: Seq<ComponentView>, at: int, depth: nat) -> bool
    decreases parts.len() - at,
{
    if at < 0 || at >= parts.len() {
        depth == 0
    } else {
        match parts[at] {
            ComponentView::RootDir => ends_at_root(parts, at + 1, depth),
            ComponentView::CurDir => ends_at_root(parts, at + 1, depth),
            ComponentView::ParentDir => ends_at_root(
                parts,
                at + 1,
                if depth == 0 {
                    0
                } else {
                    (depth - 1) as nat
                },
            ),
            ComponentView::Normal(name) => depth == 0 && holds_pattern(name) || ends_at_root(
                parts,
                at + 1,
                depth + 1,
            ),
        }
    }
}

pub open spec fn targets_filesystem_root(argument: Seq<char>) -> bool {
    path::is_absolute(argument) && ends_at_root(path::components(argument), 0, 0)
}

pub open spec fn command_mutates_filesystem_root(
    program: Seq<char>,
    arguments: Seq<Seq<char>>,
) -> bool {
    let name = program_basename(program);
    &&& any_argument(arguments, |argument: Seq<char>| targets_filesystem_root(argument))
    &&& name == "rm"@ || name == "chmod"@ || name == "chown"@ || name == "find"@
        && find_may_mutate_or_execute(arguments)
}

pub open spec fn elevates_privilege(program: Seq<char>) -> bool {
    let name = program_basename(program);
    name == "sudo"@ || name == "doas"@ || name == "su"@
}

/// What the hard rules say of a simple command.
pub enum HardRule {
    /// It is rejected for this reason.
    Reject(Seq<char>),
    /// It changes the working directory to this path.
    ChangeDirectory(Seq<char>),
    /// They do not concern it.
    Pass,
}

pub open spec fn hard_rule(words: Seq<Seq<char>>) -> HardRule {
    match unwrap_transparent_command_wrappers(words, 0) {
        Err(error) => HardRule::Reject(wrapper_error_reason(error)),
        Ok(invocation) => if invocation.len() == 0 {
            HardRule::Pass
        } else {
            let program = invocation[0];
            let arguments = invocation.skip(1);
            if elevates_privilege(program) {
                HardRule::Reject("command attempts privilege elevation"@)
            } else if command_mutates_filesystem_root(program, arguments) {
                HardRule::Reject("command targets the filesystem root"@)
            } else if program == "cd"@ && arguments.len() > 0 {
                HardRule::ChangeDirectory(arguments[0])
            } else {
                HardRule::Pass
            }
        },
    }
}

/// The number of different paths that one line may have looked at.
pub const MAX_PATH_PROBE_CANDIDATES: usize = 256;

/// The number of file system lookups that one line may cost.
pub const MAX_WORKSPACE_PATH_INSPECTIONS: usize = 256;

/// A lookup that the policy asks for.
pub enum RequestView {
    /// What stands at the path, links not followed.
    Inspect(Seq<char>),
    /// Where the link at the path leads.
    Follow(Seq<char>),
}

/// What a lookup came to.
pub enum AnswerView {
    Symlink,
    Present,
    Failed(ErrorKind),
    Resolved(Seq<char>),
    Unresolved,
}

/// What is known of a path.
pub enum InspectionView {
    Missing,
    Existing,
    Symlink(Seq<char>),
    Inaccessible,
}

/// What the policy has spent and learned on a line.
pub struct ProbeState {
    pub candidates: nat,
    pub inspections: nat,
    pub cached: Map<Seq<char>, bool>,
    /// How many of the answers have been used.
    pub used: nat,
}

/// The outcome of a part of the policy that may need a lookup.
pub enum Probe<T> {
    /// It is known.
    Known(T),
    /// The budget of the line is spent.
    Exhausted,
    /// The next lookup has not been made yet.
    Pending(RequestView),
}

impl ProbeState {
    /// A line before its first lookup.
    pub open spec fn initial() -> ProbeState {
        ProbeState {
            candidates: MAX_PATH_PROBE_CANDIDATES as nat,
            inspections: MAX_WORKSPACE_PATH_INSPECTIONS as nat,
            cached: Map::empty(),
            used: 0,
        }
    }

    /// One lookup spent, and its answer used.
    pub open spec fn after_answer(self) -> ProbeState {
        ProbeState {
            inspections: (self.inspections - 1) as nat,
            used: self.used + 1,
            ..self
        }
    }
}

/// Whether a failed lookup means that nothing is there.
pub open spec fn means_missing(kind: ErrorKind) -> bool {
    kind == ErrorKind::NotFound || kind == ErrorKind::NotADirectory
}

/// What stands at `path`: one lookup, and a second one behind a link.
pub open spec fn inspect(state: ProbeState, path: Seq<char>, answers: Seq<AnswerView>) -> (
    ProbeState,
    Probe<InspectionView>,
) {
    if state.inspections == 0 {
        (state, Probe::Exhausted)
    } else if state.used >= answers.len() {
        (state, Probe::Pending(RequestView::Inspect(path)))
    } else {
        let next = state.after_answer();
        match answers[state.used as int] {
            AnswerView::Symlink => if next.inspections == 0 {
                (next, Probe::Exhausted)
            } else if next.used >= answers.len() {
                (next, Probe::Pending(RequestView::Follow(path)))
            } else {
                (
                    next.after_answer(),
                    Probe::Known(
                        match answers[next.used as int] {
                            AnswerView::Resolved(target) => InspectionView::Symlink(target),
                            _ => InspectionView::Inaccessible,
                        },
                    ),
                )
            },
            AnswerView::Present => (next, Probe::Known(InspectionView::Existing)),
            AnswerView::Failed(kind) => (
                next,
                Probe::Known(
                    if means_missing(kind) {
                        InspectionView::Missing
                    } else {
                        InspectionView::Inaccessible
                    },
                ),
            ),
            _ => (next, Probe::Known(InspectionView::Inaccessible)),
        }
    }
}

/// Whether walking the components from `at` on, starting in `current`, leads out
/// of `root`.
pub open spec fn walk_escapes(
    root: Seq<char>,
    parts: Seq<ComponentView>,
    at: int,
    current: Seq<char>,
    state: ProbeState,
    answers: Seq<AnswerView>,
) -> (ProbeState, Probe<bool>)
    decreases parts.len() - at,
{
    if at < 0 || at >= parts.len() {
        (state, Probe::Known(false))
    } else {
        match parts[at] {
            ComponentView::CurDir => walk_escapes(root, parts, at + 1, current, state, answers),
            ComponentView::Normal(name) => {
                let entered = path::joined(current, name);
                let (next, found) = inspect(state, entered, answers);
                match found {
                    Probe::Exhausted => (next, Probe::Exhausted),
                    Probe::Pending(request) => (next, Probe::Pending(request)),
                    Probe::Known(InspectionView::Missing) => (next, Probe::Known(false)),
                    Probe::Known(InspectionView::Existing) => walk_escapes(
                        root,
                        parts,
                        at + 1,
                        entered,
                        next,
                        answers,
                    ),
                    Probe::Known(InspectionView::Symlink(target)) => if path::is_within(
                        target,
                        root,
                    ) {
                        walk_escapes(root, parts, at + 1, target, next, answers)
                    } else {
                        (next, Probe::Known(true))
                    },
                    Probe::Known(InspectionView::Inaccessible) => (next, Probe::Known(true)),
                }
            },
            _ => (state, Probe::Known(true)),
        }
    }
}

/// Whether the path `resolved` leads out of `root`.
pub open spec fn path_escapes(
    root: Seq<char>,
    resolved: Seq<char>,
    state: ProbeState,
    answers: Seq<AnswerView>,
) -> (ProbeState, Probe<bool>) {
    match path::components_below(resolved, root) {
        None => (state, Probe::Known(true)),
        Some(parts) => walk_escapes(root, parts, 0, root, state, answers),
    }
}

/// Whether a path is known to leave the workspace from its text alone.
pub open spec fn escapes_by_text(root: Seq<char>, candidate: Seq<char>) -> bool {
    ||| text::begins_with(candidate, '~')
    ||| path::has_parent_step(candidate)
    ||| path::is_absolute(candidate) && !path::is_within(candidate, root)
}

/// Whether `candidate` leads out of the workspace.
pub open spec fn escapes_workspace(
    root: Seq<char>,
    candidate: Seq<char>,
    state: ProbeState,
    answers: Seq<AnswerView>,
) -> (ProbeState, Probe<bool>) {
    if escapes_by_text(root, candidate) {
        (state, Probe::Known(true))
    } else {
        path_escapes(root, path::joined(root, candidate), state, answers)
    }
}

/// Whether `candidate` leads out of the workspace, each path being looked at
/// once.
pub open spec fn classify_candidate(
    root: Seq<char>,
    candidate: Seq<char>,
    state: ProbeState,
    answers: Seq<AnswerView>,
) -> (ProbeState, Probe<bool>) {
    if state.cached.contains_key(candidate) {
        (state, Probe::Known(state.cached[candidate]))
    } else if state.candidates == 0 {
        (state, Probe::Exhausted)
    } else {
        let begun = ProbeState { candidates: (state.candidates - 1) as nat, ..state };
        let (next, found) = escapes_workspace(root, candidate, begun, answers);
        match found {
            Probe::Known(escapes) => (
                ProbeState { cached: next.cached.insert(candidate, escapes), ..next },
                found,
            ),
            _ => (next, found),
        }
    }
}

/// Whether some candidate from `at` on leads out of the workspace.
pub open spec fn classify_candidates(
    root: Seq<char>,
    candidates: Seq<Seq<char>>,
    at: int,
    state: ProbeState,
    answers: Seq<AnswerView>,
) -> (ProbeState, Probe<bool>)
    decreases candidates.len() - at,
{
    if at < 0 || at >= candidates.len() {
        (state, Probe::Known(false))
    } else {
        let (next, found) = classify_candidate(root, candidates[at], state, answers);
        match found {
            Probe::Known(false) => classify_candidates(root, candidates, at + 1, next, answers),
            _ => (next, found),
        }
    }
}

/// What the policy decides on a command line.
pub enum DecisionView {
    Allow,
    RequiresApproval(Seq<char>),
    Reject(Seq<char>),
}

/// How far the policy has come: a decision, a lookup that it needs first, or
/// nothing that stands in the way.
pub enum Verdict {
    Pass,
    Decided(DecisionView),
    Pending(RequestView),
}

/// What the hard rules decide on a simple command.
pub open spec fn hard_verdict(
    root: Seq<char>,
    words: Seq<Seq<char>>,
    state: ProbeState,
    answers: Seq<AnswerView>,
) -> (ProbeState, Verdict) {
    match hard_rule(words) {
        HardRule::Reject(reason) => (state, Verdict::Decided(DecisionView::Reject(reason))),
        HardRule::Pass => (state, Verdict::Pass),
        HardRule::ChangeDirectory(directory) => {
            let (next, found) = classify_candidate(root, directory, state, answers);
            (
                next,
                match found {
                    Probe::Known(false) => Verdict::Pass,
                    Probe::Known(true) => Verdict::Decided(
                        DecisionView::Reject(
                            "command changes its working directory outside the workspace"@,
                        ),
                    ),
                    Probe::Exhausted => Verdict::Decided(budget_decision()),
                    Probe::Pending(request) => Verdict::Pending(request),
                },
            )
        },
    }
}

/// The decision where the budget of lookups is spent.
pub open spec fn budget_decision() -> DecisionView {
    DecisionView::RequiresApproval("command exceeds the workspace path inspection budget"@)
}

/// What the hard rules decide on the simple commands from `at` on.
pub open spec fn hard_verdicts(
    root: Seq<char>,
    commands: Seq<Seq<Seq<char>>>,
    at: int,
    state: ProbeState,
    answers: Seq<AnswerView>,
) -> (ProbeState, Verdict)
    decreases commands.len() - at,
{
    if at < 0 || at >= commands.len() {
        (state, Verdict::Pass)
    } else {
        let (next, verdict) = hard_verdict(root, commands[at], state, answers);
        match verdict {
            Verdict::Pass => hard_verdicts(root, commands, at + 1, next, answers),
            _ => (next, verdict),
        }
    }
}

/// What the rules decide on a simple command.
pub open spec fn simple_verdict(
    root: Seq<char>,
    words: Seq<Seq<char>>,
    state: ProbeState,
    answers: Seq<AnswerView>,
) -> (ProbeState, Verdict) {
    if words.len() == 0 {
        (
            state,
            Verdict::Decided(DecisionView::Reject("command contains malformed shell syntax"@)),
        )
    } else {
        let program = words[0];
        let arguments = words.skip(1);
        match reason_before_paths(program, arguments) {
            Some(reason) => (state, Verdict::Decided(DecisionView::RequiresApproval(reason))),
            None => {
                let (next, found) = classify_candidates(
                    root,
                    named_paths(program, arguments),
                    0,
                    state,
                    answers,
                );
                (
                    next,
                    match found {
                        Probe::Pending(request) => Verdict::Pending(request),
                        Probe::Exhausted => Verdict::Decided(budget_decision()),
                        Probe::Known(true) => Verdict::Decided(
                            DecisionView::RequiresApproval(
                                "command may access a path outside the workspace"@,
                            ),
                        ),
                        Probe::Known(false) => match reason_after_paths(program, arguments) {
                            Some(reason) => Verdict::Decided(
                                DecisionView::RequiresApproval(reason),
                            ),
                            None => Verdict::Pass,
                        },
                    },
                )
            },
        }
    }
}

/// What the rules decide on the simple commands from `at` on.
pub open spec fn simple_verdicts(
    root: Seq<char>,
    commands: Seq<Seq<Seq<char>>>,
    at: int,
    state: ProbeState,
    answers: Seq<AnswerView>,
) -> (ProbeState, Verdict)
    decreases commands.len() - at,
{
    if at < 0 || at >= commands.len() {
        (state, Verdict::Pass)
    } else {
        let (next, verdict) = simple_verdict(root, commands[at], state, answers);
        match verdict {
            Verdict::Pass => simple_verdicts(root, commands, at + 1, next, answers),
            _ => (next, verdict),
        }
    }
}

/// Why a line needs approval for the kinds of syntax in it.
pub open spec fn syntax_reason(parsed: ParsedView) -> Option<Seq<char>> {
    if parsed.has_background {
        Some("command starts or manages a background process"@)
    } else if parsed.has_redirection {
        Some("command redirects input or output"@)
    } else if parsed.has_dynamic_expansion || parsed.has_pathname_expansion {
        Some("command uses dynamic shell expansion"@)
    } else if parsed.has_comment || parsed.has_unclassified_syntax {
        Some("command contains shell syntax that is not classified as low-risk"@)
    } else {
        None
    }
}

/// What the policy decides on a line whose text is valid.
pub open spec fn line_verdict(
    root: Seq<char>,
    line: Seq<char>,
    answers: Seq<AnswerView>,
) -> Verdict {
    match shell::parse(line) {
        Err(ShellParseError::Malformed) => Verdict::Decided(
            DecisionView::Reject("command contains malformed shell syntax"@),
        ),
        Err(ShellParseError::TooComplex) => Verdict::Decided(
            DecisionView::Reject(
                "command is too complex for the first-phase approval policy"@,
            ),
        ),
        Ok(parsed) => {
            let (state, hard) = hard_verdicts(
                root,
                parsed.commands,
                0,
                ProbeState::initial(),
                answers,
            );
            match hard {
                Verdict::Pass => match syntax_reason(parsed) {
                    Some(reason) => Verdict::Decided(DecisionView::RequiresApproval(reason)),
                    None => match simple_verdicts(root, parsed.commands, 0, state, answers).1 {
                        Verdict::Pass => Verdict::Decided(DecisionView::Allow),
                        verdict => verdict,
                    },
                },
                verdict => verdict,
            }
        },
    }
}

/// What the policy decides on a command.
pub open spec fn verdict(
    root: Seq<char>,
    command: Seq<char>,
    answers: Seq<AnswerView>,
) -> Verdict {
    match command_input::text_error(command) {
        Some(error) => Verdict::Decided(DecisionView::Reject(error.reason_text())),
        None => line_verdict(root, command, answers),
    }
}

/// What the policy decides on a call, given the members of its arguments.
pub open spec fn call_verdict(
    root: Seq<char>,
    members: Option<Seq<(Seq<char>, Option<Seq<char>>)>>,
    answers: Seq<AnswerView>,
) -> Verdict {
    match command_input::command_argument(members) {
        Err(error) => Verdict::Decided(DecisionView::Reject(error.reason_text())),
        Ok(command) => line_verdict(root, command, answers),
    }
}

} // verus!
