//! The arguments of the command line.

use crate::text::{begins_with_char, concat3, same_text, text_is_blank};
use crate::text;
use vstd::prelude::*;

verus! {

/// What to do when the process is signalled.
#[derive(Clone, Copy, Debug, PartialEq, Eq, Structural)]
pub enum SignalAction {
    Interrupt,
    Cancel,
}

/// One argument: text, or bytes that are none.
#[derive(Clone, Debug, PartialEq, Eq)]
pub enum CliArgument {
    Text(String),
    Bytes(Vec<u8>),
}

/// The mathematical value of a [`CliArgument`].
pub enum ArgumentView {
    Text(Seq<char>),
    Bytes(Seq<u8>),
}

impl View for CliArgument {
    type V = ArgumentView;

    open spec fn view(&self) -> ArgumentView {
        match *self {
            CliArgument::Text(word) => ArgumentView::Text(word@),
            CliArgument::Bytes(bytes) => ArgumentView::Bytes(bytes@),
        }
    }
}

fn copy_bytes(bytes: &Vec<u8>) -> (copy: Vec<u8>)
    ensures
        copy@ == bytes@,
{
    let mut copy: Vec<u8> = Vec::new();
    copy.extend_from_slice(bytes.as_slice());
    assert(copy@ =~= bytes@);
    copy
}

impl CliArgument {
    /// A copy.
    pub fn copy(&self) -> (copy: CliArgument)
        ensures
            copy@ == self@,
    {
        match self {
            CliArgument::Text(word) => CliArgument::Text(word.as_str().to_owned()),
            CliArgument::Bytes(bytes) => CliArgument::Bytes(copy_bytes(bytes)),
        }
    }
}

/// The values of a sequence of arguments.
pub open spec fn argument_views(arguments: Seq<CliArgument>) -> Seq<ArgumentView> {
    arguments.map_values(|argument: CliArgument| argument@)
}

/// What the command line asks for.
#[derive(Debug, PartialEq, Eq)]
pub struct CliOptions {
    pub prompt: String,
    pub workspace: CliArgument,
    pub event_log: Option<CliArgument>,
    pub fake_script: Option<CliArgument>,
    pub signal_action: SignalAction,
}

/// The mathematical value of a [`CliOptions`].
pub struct OptionsView {
    pub prompt: Seq<char>,
    pub workspace: ArgumentView,
    pub event_log: Option<ArgumentView>,
    pub fake_script: Option<ArgumentView>,
    pub signal_action: SignalAction,
}

/// The value of an optional argument.
pub open spec fn optional_argument(argument: Option<CliArgument>) -> Option<ArgumentView> {
    match argument {
        Some(value) => Some(value@),
        None => None,
    }
}

impl View for CliOptions {
    type V = OptionsView;

    open spec fn view(&self) -> OptionsView {
        OptionsView {
            prompt: self.prompt@,
            workspace: self.workspace@,
            event_log: optional_argument(self.event_log),
            fake_script: optional_argument(self.fake_script),
            signal_action: self.signal_action,
        }
    }
}

/// What the command line comes to.
#[derive(Debug, PartialEq, Eq)]
pub enum ParseResult {
    Options(CliOptions),
    Help,
}

/// The mathematical value of a [`ParseResult`].
pub enum ParsedView {
    Options(OptionsView),
    Help,
}

impl View for ParseResult {
    type V = ParsedView;

    open spec fn view(&self) -> ParsedView {
        match *self {
            ParseResult::Options(options) => ParsedView::Options(options@),
            ParseResult::Help => ParsedView::Help,
        }
    }
}

/// How the program is used.
pub open spec fn usage_text() -> Seq<char> {
    "Usage: young-agent --fake --prompt <PROMPT> --workspace <PATH> [--event-log <PATH>] [--fake-script <PATH>] [--on-signal <interrupt|cancel>]"@
}

/// How the program is used.
pub fn usage() -> (text: &'static str)
    ensures
        text@ == usage_text(),
{
    "Usage: young-agent --fake --prompt <PROMPT> --workspace <PATH> [--event-log <PATH>] [--fake-script <PATH>] [--on-signal <interrupt|cancel>]"
}

/// What was found on the command line so far.
pub struct FoundView {
    pub fake: bool,
    pub prompt: Option<Seq<char>>,
    pub workspace: Option<ArgumentView>,
    pub event_log: Option<ArgumentView>,
    pub fake_script: Option<ArgumentView>,
    pub signal_action: SignalAction,
}

/// An error, with the usage behind it.
pub open spec fn refused(message: Seq<char>) -> Result<ParsedView, Seq<char>> {
    Err(message + "\n"@ + usage_text())
}

/// What the command line comes to when all of it was looked at.
pub open spec fn concluded(found: FoundView) -> Result<ParsedView, Seq<char>> {
    if !found.fake {
        refused("--fake is required until a real provider adapter is available"@)
    } else if found.prompt is None {
        refused("--prompt is required"@)
    } else if text::is_blank(found.prompt->Some_0) {
        refused("--prompt must not be empty"@)
    } else if found.workspace is None {
        refused("--workspace is required"@)
    } else {
        Ok(
            ParsedView::Options(
                OptionsView {
                    prompt: found.prompt->Some_0,
                    workspace: found.workspace->Some_0,
                    event_log: found.event_log,
                    fake_script: found.fake_script,
                    signal_action: found.signal_action,
                },
            ),
        )
    }
}

/// What the command line comes to from the argument `at` on.
pub open spec fn parsed_from(arguments: Seq<ArgumentView>, at: int, found: FoundView) -> Result<
    ParsedView,
    Seq<char>,
>
    decreases arguments.len() + 1 - at,
{
    if at < 0 || at >= arguments.len() {
        concluded(found)
    } else {
        match arguments[at] {
            ArgumentView::Bytes(_) => refused("arguments must be valid UTF-8 options"@),
            ArgumentView::Text(word) => {
                let missing = at + 1 >= arguments.len();
                let value = arguments[at + 1];
                if word == "--fake"@ {
                    parsed_from(arguments, at + 1, FoundView { fake: true, ..found })
                } else if word == "--prompt"@ {
                    if missing {
                        refused("--prompt requires a value"@)
                    } else {
                        match value {
                            ArgumentView::Bytes(_) => refused("--prompt must be valid UTF-8"@),
                            ArgumentView::Text(prompt) => parsed_from(
                                arguments,
                                at + 2,
                                FoundView { prompt: Some(prompt), ..found },
                            ),
                        }
                    }
                } else if word == "--workspace"@ {
                    if missing {
                        refused("--workspace requires a value"@)
                    } else {
                        parsed_from(
                            arguments,
                            at + 2,
                            FoundView { workspace: Some(value), ..found },
                        )
                    }
                } else if word == "--event-log"@ {
                    if missing {
                        refused("--event-log requires a value"@)
                    } else {
                        parsed_from(
                            arguments,
                            at + 2,
                            FoundView { event_log: Some(value), ..found },
                        )
                    }
                } else if word == "--fake-script"@ {
                    if missing {
                        refused("--fake-script requires a value"@)
                    } else {
                        parsed_from(
                            arguments,
                            at + 2,
                            FoundView { fake_script: Some(value), ..found },
                        )
                    }
                } else if word == "--on-signal"@ {
                    if missing {
                        refused("--on-signal requires a value"@)
                    } else {
                        match value {
                            ArgumentView::Bytes(_) => refused("--on-signal must be valid UTF-8"@),
                            ArgumentView::Text(action) => if action == "interrupt"@ {
                                parsed_from(
                                    arguments,
                                    at + 2,
                                    FoundView { signal_action: SignalAction::Interrupt, ..found },
                                )
                            } else if action == "cancel"@ {
                                parsed_from(
                                    arguments,
                                    at + 2,
                                    FoundView { signal_action: SignalAction::Cancel, ..found },
                                )
                            } else {
                                refused(
                                    "--on-signal must be 'interrupt' or 'cancel', got '"@ + action
                                        + "'"@,
                                )
                            },
                        }
                    }
                } else if word == "--help"@ || word == "-h"@ {
                    Ok(ParsedView::Help)
                } else if text::begins_with(word, '-') {
                    refused("unknown option '"@ + word + "'"@)
                } else {
                    refused("unexpected argument '"@ + word + "'"@)
                }
            },
        }
    }
}

/// What a command line comes to.
pub open spec fn parsed(arguments: Seq<ArgumentView>) -> Result<ParsedView, Seq<char>> {
    parsed_from(
        arguments,
        0,
        FoundView {
            fake: false,
            prompt: None,
            workspace: None,
            event_log: None,
            fake_script: None,
            signal_action: SignalAction::Interrupt,
        },
    )
}

/// The value of what a command line comes to.
pub open spec fn result_view(result: Result<ParseResult, String>) -> Result<
    ParsedView,
    Seq<char>,
> {
    match result {
        Ok(value) => Ok(value@),
        Err(message) => Err(message@),
    }
}

struct Found {
    fake: bool,
    prompt: Option<String>,
    workspace: Option<CliArgument>,
    event_log: Option<CliArgument>,
    fake_script: Option<CliArgument>,
    signal_action: SignalAction,
}

impl View for Found {
    type V = FoundView;

    closed spec fn view(&self) -> FoundView {
        FoundView {
            fake: self.fake,
            prompt: match self.prompt {
                Some(prompt) => Some(prompt@),
                None => None,
            },
            workspace: optional_argument(self.workspace),
            event_log: optional_argument(self.event_log),
            fake_script: optional_argument(self.fake_script),
            signal_action: self.signal_action,
        }
    }
}

fn refuse(message: &str) -> (result: Result<ParseResult, String>)
    ensures
        result_view(result) == refused(message@),
{
    Err(concat3(message, "\n", usage()))
}

fn refuse_quoted(before: &str, quoted: &str) -> (result: Result<ParseResult, String>)
    ensures
        result_view(result) == refused(before@ + quoted@ + "'"@),
{
    let message = concat3(before, quoted, "'");
    refuse(message.as_str())
}

fn conclude(found: Found) -> (result: Result<ParseResult, String>)
    ensures
        result_view(result) == concluded(found@),
{
    if !found.fake {
        return refuse("--fake is required until a real provider adapter is available");
    }
    let prompt = match found.prompt {
        Some(prompt) => prompt,
        None => {
            return refuse("--prompt is required");
        },
    };
    if text_is_blank(prompt.as_str()) {
        return refuse("--prompt must not be empty");
    }
    match found.workspace {
        Some(workspace) => Ok(
            ParseResult::Options(
                CliOptions {
                    prompt,
                    workspace,
                    event_log: found.event_log,
                    fake_script: found.fake_script,
                    signal_action: found.signal_action,
                },
            ),
        ),
        None => refuse("--workspace is required"),
    }
}

/// What one option comes to: it takes no value, it took one, or it settles the
/// command line.
enum OptionStep {
    Taken,
    TakenWithValue,
    Settled(Result<ParseResult, String>),
}

fn take_option(word: &str, value: Option<&CliArgument>, found: &mut Found) -> (step: OptionStep)
    ensures
        forall|arguments: Seq<ArgumentView>, at: int|
            #![trigger parsed_from(arguments, at, old(found)@)]
            0 <= at < arguments.len() && arguments[at] == ArgumentView::Text(word@) && (match value {
                Some(next) => at + 1 < arguments.len() && arguments[at + 1] == next@,
                None => at + 1 >= arguments.len(),
            }) ==> match step {
                OptionStep::Taken => parsed_from(arguments, at, old(found)@) == parsed_from(
                    arguments,
                    at + 1,
                    final(found)@,
                ),
                OptionStep::TakenWithValue => value is Some && parsed_from(
                    arguments,
                    at,
                    old(found)@,
                ) == parsed_from(arguments, at + 2, final(found)@),
                OptionStep::Settled(result) => parsed_from(arguments, at, old(found)@)
                    == result_view(result),
            },
        step is TakenWithValue ==> value is Some,
{
    if same_text(word, "--fake") {
        found.fake = true;
        return OptionStep::Taken;
    }
    let is_text_option = same_text(word, "--prompt") || same_text(word, "--on-signal");
    let is_path_option = same_text(word, "--workspace") || same_text(word, "--event-log")
        || same_text(word, "--fake-script");
    if !is_text_option && !is_path_option {
        if same_text(word, "--help") || same_text(word, "-h") {
            return OptionStep::Settled(Ok(ParseResult::Help));
        }
        return OptionStep::Settled(
            if begins_with_char(word, '-') {
                refuse_quoted("unknown option '", word)
            } else {
                refuse_quoted("unexpected argument '", word)
            },
        );
    }
    let next = match value {
        Some(next) => next,
        None => {
            let message = text::concat2(word, " requires a value");
            proof {
                lemma_messages_about(word@);
            }
            return OptionStep::Settled(refuse(message.as_str()));
        },
    };
    proof {
        lemma_path_options_take_no_text();
    }
    if is_path_option {
        if same_text(word, "--workspace") {
            found.workspace = Some(next.copy());
        } else if same_text(word, "--event-log") {
            found.event_log = Some(next.copy());
        } else {
            found.fake_script = Some(next.copy());
        }
        return OptionStep::TakenWithValue;
    }
    let taken = match next {
        CliArgument::Text(taken) => taken.as_str(),
        CliArgument::Bytes(_) => {
            let message = text::concat2(word, " must be valid UTF-8");
            proof {
                lemma_messages_about(word@);
            }
            return OptionStep::Settled(refuse(message.as_str()));
        },
    };
    if same_text(word, "--prompt") {
        found.prompt = Some(taken.to_owned());
    } else if same_text(taken, "interrupt") {
        found.signal_action = SignalAction::Interrupt;
    } else if same_text(taken, "cancel") {
        found.signal_action = SignalAction::Cancel;
    } else {
        return OptionStep::Settled(
            refuse_quoted("--on-signal must be 'interrupt' or 'cancel', got '", taken),
        );
    }
    OptionStep::TakenWithValue
}

proof fn lemma_path_options_take_no_text()
    ensures
        "--workspace"@ != "--prompt"@,
        "--workspace"@ != "--on-signal"@,
        "--event-log"@ != "--prompt"@,
        "--event-log"@ != "--on-signal"@,
        "--fake-script"@ != "--prompt"@,
        "--fake-script"@ != "--on-signal"@,
{
    reveal_strlit("--prompt");
    reveal_strlit("--on-signal");
    reveal_strlit("--workspace");
    reveal_strlit("--event-log");
    reveal_strlit("--fake-script");
    assert("--fake-script"@.len() == 13);
    assert("--prompt"@.len() == 8);
    assert("--workspace"@[2] == 'w');
    assert("--event-log"@[2] == 'e');
    assert("--on-signal"@[2] == 'o');
}

proof fn lemma_messages_about(word: Seq<char>)
    ensures
        word == "--prompt"@ ==> word + " requires a value"@ == "--prompt requires a value"@ && word
            + " must be valid UTF-8"@ == "--prompt must be valid UTF-8"@,
        word == "--on-signal"@ ==> word + " requires a value"@ == "--on-signal requires a value"@
            && word + " must be valid UTF-8"@ == "--on-signal must be valid UTF-8"@,
        word == "--workspace"@ ==> word + " requires a value"@ == "--workspace requires a value"@,
        word == "--event-log"@ ==> word + " requires a value"@ == "--event-log requires a value"@,
        word == "--fake-script"@ ==> word + " requires a value"@
            == "--fake-script requires a value"@,
{
    reveal_strlit("--prompt");
    reveal_strlit("--on-signal");
    reveal_strlit("--workspace");
    reveal_strlit("--event-log");
    reveal_strlit("--fake-script");
    reveal_strlit(" requires a value");
    reveal_strlit(" must be valid UTF-8");
    reveal_strlit("--prompt requires a value");
    reveal_strlit("--prompt must be valid UTF-8");
    reveal_strlit("--on-signal requires a value");
    reveal_strlit("--on-signal must be valid UTF-8");
    reveal_strlit("--workspace requires a value");
    reveal_strlit("--event-log requires a value");
    reveal_strlit("--fake-script requires a value");
    assert("--prompt"@ + " requires a value"@ =~= "--prompt requires a value"@);
    assert("--prompt"@ + " must be valid UTF-8"@ =~= "--prompt must be valid UTF-8"@);
    assert("--on-signal"@ + " requires a value"@ =~= "--on-signal requires a value"@);
    assert("--on-signal"@ + " must be valid UTF-8"@ =~= "--on-signal must be valid UTF-8"@);
    assert("--workspace"@ + " requires a value"@ =~= "--workspace requires a value"@);
    assert("--event-log"@ + " requires a value"@ =~= "--event-log requires a value"@);
    assert("--fake-script"@ + " requires a value"@ =~= "--fake-script requires a value"@);
}

/// Reads a command line, without the name of the program.
pub fn parse_args(arguments: &[CliArgument]) -> (result: Result<ParseResult, String>)
    ensures
        result_view(result) == parsed(argument_views(arguments@)),
{
    let ghost views = argument_views(arguments@);
    let mut found = Found {
        fake: false,
        prompt: None,
        workspace: None,
        event_log: None,
        fake_script: None,
        signal_action: SignalAction::Interrupt,
    };
    let length: usize = arguments.len();
    let mut index: usize = 0;
    while index < length
        invariant
            index <= length,
            length == arguments@.len(),
            views == argument_views(arguments@),
            views.len() == arguments@.len(),
            parsed(views) == parsed_from(views, index as int, found@),
        decreases length - index,
    {
        assert(views[index as int] == arguments@[index as int]@);
        let word = match &arguments[index] {
            CliArgument::Text(word) => word.as_str(),
            CliArgument::Bytes(_) => {
                return refuse("arguments must be valid UTF-8 options");
            },
        };
        let value = if index < length - 1 {
            assert(views[index + 1] == arguments@[index + 1]@);
            Some(&arguments[index + 1])
        } else {
            None
        };
        match take_option(word, value, &mut found) {
            OptionStep::Taken => {
                index = index + 1;
            },
            OptionStep::TakenWithValue => {
                index = index + 2;
            },
            OptionStep::Settled(result) => {
                return result;
            },
        }
    }
    conclude(found)
}

} // verus!
