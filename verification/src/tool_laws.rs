//! What the built-in tools may do, and what is told to those who use them.

use crate::cli::CliExitStatus;
use crate::command_input;
use crate::command_input::RunCommandInputError;
use crate::fake_provider;
use crate::git_environment;
use crate::policy_model;
use crate::policy_model::{AnswerView, DecisionView, Verdict};
use crate::run;
use crate::run::TerminalView;
use crate::text;
use crate::text_laws;
use crate::tool::OutputView;
use crate::tool_support;
use crate::tools;
use crate::tools::{BuiltinCodingTool, ToolManifestView, ToolSafetyClass};
use vstd::prelude::*;

verus! {

/// Reading and searching never need an approval, whatever the policy of commands
/// says.
pub proof fn law_reads_and_searches_are_made(
    tool: BuiltinCodingTool,
    command: DecisionView,
    granted: bool,
)
    requires
        tool.tool_name() == "read_file"@ || tool.tool_name() == "search_files"@,
    ensures
        tools::refusal(tools::call_policy_view(tool, command), granted) is None,
{
    reveal_strlit("read_file");
    reveal_strlit("search_files");
    reveal_strlit("apply_patch");
    reveal_strlit("run_command");
    assert("read_file"@.len() == 9 && "search_files"@.len() == 12);
    assert("apply_patch"@.len() == 11 && "run_command"@.len() == 11);
}

/// A patch is made with an approval and not without one, whatever the policy of
/// commands says.
pub proof fn law_patches_are_made_with_an_approval(
    tool: BuiltinCodingTool,
    command: DecisionView,
    granted: bool,
)
    requires
        tool.tool_name() == "apply_patch"@,
    ensures
        tools::refusal(tools::call_policy_view(tool, command), granted) is None <==> granted,
        !granted ==> (tools::refusal(tools::call_policy_view(tool, command), granted) matches Some(
            OutputView::Failure { error, .. },
        ) && error.code == "approval_required"@),
{
    lemma_tool_names(tool);
}

proof fn lemma_tool_names(tool: BuiltinCodingTool)
    ensures
        tool.tool_name() == "apply_patch"@ ==> tool == BuiltinCodingTool::ApplyPatch,
        tool.tool_name() == "run_command"@ ==> tool == BuiltinCodingTool::RunCommand,
{
    reveal_strlit("read_file");
    reveal_strlit("search_files");
    reveal_strlit("apply_patch");
    reveal_strlit("run_command");
    assert("read_file"@.len() == 9 && "search_files"@.len() == 12);
    assert("apply_patch"@[0] == 'a' && "run_command"@[0] == 'r');
    assert("apply_patch"@.len() == 11 && "run_command"@.len() == 11);
}

/// A command is run exactly where the policy of commands allows it, or asks for an
/// approval that was given; a command that the policy rejects is never run. What is
/// told says why.
pub proof fn law_commands_are_run_as_the_policy_says(
    tool: BuiltinCodingTool,
    command: DecisionView,
    granted: bool,
)
    requires
        tool.tool_name() == "run_command"@,
    ensures
        tools::refusal(tools::call_policy_view(tool, command), granted) is None <==> (
        command is Allow || command is RequiresApproval && granted),
        command matches DecisionView::Reject(reason) ==> (tools::refusal(
            tools::call_policy_view(tool, command),
            granted,
        ) matches Some(OutputView::Failure { error, .. }) && error.code == "tool_rejected"@
            && error.message == tool_support::json_prefix(reason, 8192) && !error.retryable),
        command matches DecisionView::RequiresApproval(reason) ==> !granted ==> (tools::refusal(
            tools::call_policy_view(tool, command),
            granted,
        ) matches Some(OutputView::Failure { error, .. }) && error.code == "approval_required"@
            && error.message == tool_support::json_prefix(reason, 8192) && !error.retryable),
{
    lemma_tool_names(tool);
}

proof fn lemma_preflight(
    declared: Seq<ToolManifestView>,
    registered: Seq<Seq<char>>,
    at: int,
)
    requires
        0 <= at <= declared.len(),
    ensures
        tools::preflight_error(declared, registered, at) is None <==> forall|i: int|
            at <= i < declared.len() ==> is_new(#[trigger] declared[i], registered),
    decreases declared.len() - at,
{
    let names = tools::builtin_tool_names();
    assert(names =~= seq!["read_file"@, "search_files"@, "apply_patch"@, "run_command"@]);
    if at < declared.len() {
        let name = declared[at].name;
        assert(names.contains(name) <==> is_known(name)) by {
            if names.contains(name) {
                let i = choose|i: int| 0 <= i < names.len() && names[i] == name;
                assert(i == 0 || i == 1 || i == 2 || i == 3);
            }
            if is_known(name) {
                assert(names[0] == name || names[1] == name || names[2] == name || names[3]
                    == name);
            }
        }
        lemma_preflight(declared, registered, at + 1);
    }
}

/// Whether a name is one of the four built-in tools.
pub open spec fn is_known(name: Seq<char>) -> bool {
    name == "read_file"@ || name == "search_files"@ || name == "apply_patch"@ || name
        == "run_command"@
}

/// Whether a declared tool can be registered beside those that are.
pub open spec fn is_new(declared: ToolManifestView, registered: Seq<Seq<char>>) -> bool {
    is_known(declared.name) && !registered.contains(declared.name)
}

/// A pack of tools is registered exactly where every tool that it declares is built
/// in, and none of them is registered already.
pub proof fn law_packs_are_registered_whole(
    declared: Seq<ToolManifestView>,
    registered: Seq<Seq<char>>,
)
    ensures
        tools::preflight_error(declared, registered, 0) is None <==> forall|i: int|
            0 <= i < declared.len() ==> is_new(#[trigger] declared[i], registered),
{
    lemma_preflight(declared, registered, 0);
}

/// Whether a variable sets or traces what Git is configured with.
pub open spec fn sets_git_configuration(name: Seq<char>) -> bool {
    ||| exists|rest: Seq<char>| name == #[trigger] ("GIT_CONFIG_KEY_"@ + rest)
    ||| exists|rest: Seq<char>| name == #[trigger] ("GIT_CONFIG_VALUE_"@ + rest)
    ||| exists|rest: Seq<char>| name == #[trigger] ("GIT_TRACE"@ + rest)
}

proof fn lemma_family(name: Seq<char>)
    ensures
        git_environment::is_in_removed_family(name) <==> sets_git_configuration(name),
{
    lemma_begins(name, "GIT_CONFIG_KEY_"@);
    lemma_begins(name, "GIT_CONFIG_VALUE_"@);
    lemma_begins(name, "GIT_TRACE"@);
}

proof fn lemma_begins(name: Seq<char>, prefix: Seq<char>)
    ensures
        prefix.is_prefix_of(name) <==> exists|rest: Seq<char>| name == #[trigger] (prefix + rest),
{
    if prefix.is_prefix_of(name) {
        let rest = name.skip(prefix.len() as int);
        assert(name =~= prefix + rest);
    }
    if exists|rest: Seq<char>| name == #[trigger] (prefix + rest) {
        let rest = choose|rest: Seq<char>| name == #[trigger] (prefix + rest);
        assert(name.subrange(0, prefix.len() as int) =~= prefix);
    }
}

proof fn lemma_removed(inherited: Seq<Seq<char>>, count: int, name: Seq<char>)
    requires
        0 <= count <= inherited.len(),
    ensures
        git_environment::removed_inherited(inherited, count).contains(name) <==> inherited.take(
            count,
        ).contains(name) && sets_git_configuration(name),
    decreases count,
{
    if count > 0 {
        let last = inherited[count - 1];
        lemma_removed(inherited, count - 1, name);
        lemma_family(last);
        text::lemma_contains_after_push(
            git_environment::removed_inherited(inherited, count - 1),
            last,
            name,
        );
        text::lemma_contains_after_push(inherited.take(count - 1), last, name);
        assert(inherited.take(count) =~= inherited.take(count - 1).push(last));
    }
}

/// Of the variables that a process inherits, exactly those are removed that set or
/// trace what Git is configured with.
pub proof fn law_git_configuration_is_removed(inherited: Seq<Seq<char>>, name: Seq<char>)
    ensures
        git_environment::removed_inherited(inherited, inherited.len() as int).contains(name)
            <==> inherited.contains(name) && sets_git_configuration(name),
{
    lemma_removed(inherited, inherited.len() as int, name);
    assert(inherited.take(inherited.len() as int) =~= inherited);
}

/// Whether a variable leads Git to another repository, another configuration or other
/// programs.
pub open spec fn leads_git(name: Seq<char>) -> bool {
    ||| name == "GIT_DIR"@
    ||| name == "GIT_WORK_TREE"@
    ||| name == "GIT_COMMON_DIR"@
    ||| name == "GIT_INDEX_FILE"@
    ||| name == "GIT_OBJECT_DIRECTORY"@
    ||| name == "GIT_ALTERNATE_OBJECT_DIRECTORIES"@
    ||| name == "GIT_CONFIG"@
    ||| name == "GIT_CONFIG_PARAMETERS"@
    ||| name == "GIT_CONFIG_COUNT"@
    ||| name == "GIT_CONFIG_SYSTEM"@
    ||| name == "GIT_CONFIG_GLOBAL"@
    ||| name == "GIT_CONFIG_NOSYSTEM"@
    ||| name == "GIT_EXEC_PATH"@
    ||| name == "GIT_IMPLICIT_WORK_TREE"@
    ||| name == "GIT_GRAFT_FILE"@
    ||| name == "GIT_NO_REPLACE_OBJECTS"@
    ||| name == "GIT_REPLACE_REF_BASE"@
    ||| name == "GIT_INTERNAL_SUPER_PREFIX"@
    ||| name == "GIT_SHALLOW_FILE"@
    ||| name == "GIT_QUARANTINE_PATH"@
    ||| name == "GIT_PREFIX"@
    ||| name == "GIT_CEILING_DIRECTORIES"@
    ||| name == "GIT_DISCOVERY_ACROSS_FILESYSTEM"@
    ||| name == "GIT_NAMESPACE"@
}

/// The variables that lead Git elsewhere are removed whether or not they are inherited,
/// and no others.
pub proof fn law_git_is_not_led_elsewhere(name: Seq<char>)
    ensures
        git_environment::repository_environment().contains(name) <==> leads_git(name),
{
    let names = git_environment::repository_environment();
    assert(names.len() == 24);
    if leads_git(name) {
        assert(names[0] == name || names[1] == name || names[2] == name || names[3] == name || names[4] == name || names[5] == name || names[6] == name || names[7] == name || names[8] == name || names[9] == name || names[10] == name || names[11] == name || names[12] == name || names[13] == name || names[14] == name || names[15] == name || names[16] == name || names[17] == name || names[18] == name || names[19] == name || names[20] == name || names[21] == name || names[22] == name || names[23] == name);
    }
}

/// The number of events of all turns together.
pub open spec fn all_events(lengths: Seq<nat>) -> nat
    decreases lengths.len(),
{
    if lengths.len() == 0 {
        0
    } else {
        all_events(lengths.drop_last()) + lengths.last()
    }
}

proof fn lemma_events(lengths: Seq<nat>, count: int)
    requires
        0 <= count <= lengths.len(),
    ensures
        fake_provider::events_up_to(lengths, count) == all_events(lengths.take(count)),
        all_events(lengths.take(count)) <= all_events(lengths),
    decreases lengths.len() - count, count,
{
    lemma_events_up_to(lengths, count);
    if count < lengths.len() {
        lemma_events(lengths, count + 1);
        assert(lengths.take(count + 1).drop_last() =~= lengths.take(count));
        assert(all_events(lengths.take(count)) <= all_events(lengths.take(count + 1)));
    } else {
        assert(lengths.take(count) =~= lengths);
    }
}

proof fn lemma_events_up_to(lengths: Seq<nat>, count: int)
    requires
        0 <= count <= lengths.len(),
    ensures
        fake_provider::events_up_to(lengths, count) == all_events(lengths.take(count)),
    decreases count,
{
    if count > 0 {
        lemma_events_up_to(lengths, count - 1);
        assert(lengths.take(count).drop_last() =~= lengths.take(count - 1));
        assert(lengths.take(count).last() == lengths[count - 1]);
    }
}

proof fn lemma_within_limits(lengths: Seq<nat>, at: int)
    requires
        0 <= at <= lengths.len(),
        forall|i: int| 0 <= i < lengths.len() ==> #[trigger] lengths[i] <= 4096,
        all_events(lengths) <= 16384,
    ensures
        fake_provider::turn_limit(lengths, at) is None,
    decreases lengths.len() - at,
{
    if at < lengths.len() {
        lemma_events(lengths, at + 1);
        lemma_within_limits(lengths, at + 1);
    }
}

/// A script of 1 to 128 turns, with no more than 4096 events in a turn and 16384 in
/// all, is used.
pub proof fn law_scripts_within_the_limits_are_used(path: Seq<char>, lengths: Seq<nat>)
    requires
        1 <= lengths.len() <= 128,
        forall|i: int| 0 <= i < lengths.len() ==> #[trigger] lengths[i] <= 4096,
        all_events(lengths) <= 16384,
    ensures
        fake_provider::script_error(path, lengths) is None,
{
    lemma_within_limits(lengths, 0);
}

/// The program exits with 0 behind a run that completed, with 2 behind one that
/// failed, with 130 behind one that was interrupted, and with 125 behind one that was
/// cancelled.
pub proof fn law_runs_end_the_program(status: TerminalView)
    ensures
        CliExitStatus::behind(status).exit_code() == if status is Completed {
            0u8
        } else if status is Failed {
            2
        } else if status is Interrupted {
            130
        } else {
            125
        },
{
}

proof fn lemma_digits_value_of_padding(digits: Seq<char>, zeros: nat, count: int)
    requires
        0 <= count <= digits.len(),
    ensures
        ({
            let padded = Seq::new(zeros, |i: int| '0') + digits;
            text::digits_value(padded, zeros + count) == text::digits_value(digits, count)
        }),
    decreases count,
{
    let padded = Seq::new(zeros, |i: int| '0') + digits;
    if count > 0 {
        lemma_digits_value_of_padding(digits, zeros, count - 1);
        assert(padded[zeros + count - 1] == digits[count - 1]);
    } else {
        lemma_zeros(padded, zeros as int);
    }
}

proof fn lemma_zeros(padded: Seq<char>, count: int)
    requires
        0 <= count <= padded.len(),
        forall|i: int| 0 <= i < count ==> #[trigger] padded[i] == '0',
    ensures
        text::digits_value(padded, count) == 0,
    decreases count,
{
    if count > 0 {
        lemma_zeros(padded, count - 1);
        assert(padded[count - 1] == '0');
    }
}

proof fn lemma_padded_value(number: nat)
    ensures
        ({
            let padded = text::zero_padded(text::decimal_text(number), 3);
            &&& text::digits_value(padded, padded.len() as int) == number
            &&& padded.len() >= 3
        }),
{
    let digits = text::decimal_text(number);
    text_laws::law_decimal_texts_are_worth_their_number(number);
    if digits.len() < 3 {
        let zeros = (3 - digits.len()) as nat;
        lemma_digits_value_of_padding(digits, zeros, digits.len() as int);
    }
}

/// A name with a number behind it begins with the text that it was made with, has three
/// digits behind it, or as many more as the number takes, and is worth its number, so
/// that names with different numbers are told apart.
pub proof fn law_numbered_names_are_told_apart(prefix: Seq<char>, first: nat, second: nat)
    ensures
        prefix.is_prefix_of(run::numbered(prefix, first)),
        run::numbered(prefix, first).len() >= prefix.len() + 3,
        run::numbered(prefix, first).len() > prefix.len() + 3 ==> run::numbered(prefix, first)[
            prefix.len() as int
        ] != '0',
        text::digits_value(
            run::numbered(prefix, first).skip(prefix.len() as int),
            run::numbered(prefix, first).len() - prefix.len(),
        ) == first,
        run::numbered(prefix, first) == run::numbered(prefix, second) ==> first == second,
{
    lemma_padded_value(first);
    lemma_padded_value(second);
    let one = text::zero_padded(text::decimal_text(first), 3);
    let two = text::zero_padded(text::decimal_text(second), 3);
    text_laws::law_decimal_texts_are_worth_their_number(first);
    assert(run::numbered(prefix, first).skip(prefix.len() as int) =~= one);
    assert(run::numbered(prefix, first)[prefix.len() as int] == one[0]);
    assert(run::numbered(prefix, second).skip(prefix.len() as int) =~= two);
    assert(run::numbered(prefix, first).subrange(0, prefix.len() as int) =~= prefix);
}

/// A call to run a command gives one text, which is what is run; one that is blank or
/// takes more than 65536 bytes, or comes with anything else, is refused.
pub proof fn law_calls_give_their_command(command: Seq<char>, at: int)
    ensures
        ({
            let members = seq![("command"@, Some(command))];
            let result = command_input::command_argument(Some(members));
            if vstd::utf8::encode_utf8(command).len() > 65536 {
                result == Err::<Seq<char>, RunCommandInputError>(
                    RunCommandInputError::CommandTooLarge,
                )
            } else if 0 <= at < command.len() && !text::is_whitespace(command[at]) {
                result == Ok::<Seq<char>, RunCommandInputError>(command)
            } else {
                result matches Ok(given) ==> given == command
            }
        }),
        command_input::command_argument(None) is Err,
        command_input::command_argument(Some(Seq::empty())) is Err,
        command_input::command_argument(Some(seq![("command"@, None)])) is Err,
        text::is_blank(command) ==> command_input::command_argument(
            Some(seq![("command"@, Some(command))]),
        ) is Err,
{
    let members = seq![("command"@, Some(command))];
    assert(members[0] == ("command"@, Some(command)));
    let empty = seq![("command"@, None::<Seq<char>>)];
    assert(empty[0] == ("command"@, None::<Seq<char>>));
    reveal_with_fuel(tool_support::member, 2);
}

/// A call to run a command that comes with anything but its command is refused.
pub proof fn law_other_command_arguments_are_refused(
    members: Seq<(Seq<char>, Option<Seq<char>>)>,
)
    requires
        members.len() != 1 || members[0].0 != "command"@,
    ensures
        command_input::command_argument(Some(members)) is Err,
{
    if members.len() == 1 {
        reveal_with_fuel(tool_support::member, 2);
    }
}

/// What a tool is declared as agrees with what is said of its calls: one that is always
/// allowed needs no approval, one that requires approval needs it for every call, and
/// the calls of the last go by the policy of commands. Each tool is declared.
pub proof fn law_tools_are_declared_as_they_are(
    tool: BuiltinCodingTool,
    at: int,
    command: DecisionView,
)
    ensures
        tools::builtin_tools().len() == 4,
        tools::declared_names(tools::builtin_tools()).contains(tool.tool_name()),
        0 <= at < 4 && tools::builtin_tools()[at].name == tool.tool_name() ==> match tools::builtin_tools()[at].safety_class {
            ToolSafetyClass::AlwaysAllow => tools::call_policy_view(tool, command) is Allow,
            ToolSafetyClass::RequiresApproval => tools::call_policy_view(
                tool,
                command,
            ) is RequiresApproval,
            ToolSafetyClass::CallDependent => tools::call_policy_view(tool, command) is Allow
                <==> command is Allow,
        },
{
    reveal_strlit("read_file");
    reveal_strlit("search_files");
    reveal_strlit("apply_patch");
    reveal_strlit("run_command");
    assert("read_file"@.len() == 9 && "search_files"@.len() == 12);
    assert("apply_patch"@[0] == 'a' && "run_command"@[0] == 'r');
    assert("apply_patch"@.len() == 11 && "run_command"@.len() == 11);
    let names = tools::declared_names(tools::builtin_tools());
    assert(names[0] == "read_file"@ && names[1] == "search_files"@ && names[2] == "apply_patch"@
        && names[3] == "run_command"@);
    assert(at == 0 || at == 1 || at == 2 || at == 3 || at < 0 || at > 3);
}

/// What is decided on a call to run a command is what is decided on its command; a call
/// that gives none is rejected.
pub proof fn law_calls_are_judged_by_their_command(
    root: Seq<char>,
    command: Seq<char>,
    answers: Seq<AnswerView>,
)
    ensures
        policy_model::call_verdict(root, Some(seq![("command"@, Some(command))]), answers)
            == policy_model::verdict(root, command, answers),
        policy_model::call_verdict(root, None, answers) matches Verdict::Decided(
            DecisionView::Reject(_),
        ),
        policy_model::call_verdict(root, Some(Seq::empty()), answers) matches Verdict::Decided(
            DecisionView::Reject(_),
        ),
{
    let members = seq![("command"@, Some(command))];
    assert(members[0] == ("command"@, Some(command)));
    reveal_with_fuel(tool_support::member, 2);
}

} // verus!
