//! The argument of the command tool.

use crate::text;
use crate::text::{byte_len, text_is_blank};
use crate::tool_support;
use crate::tool_support::{object_members, Members};
use vstd::prelude::*;

verus! {

/// The longest command, in bytes.
pub const MAX_COMMAND_BYTES: usize = 65536;

/// Why the arguments of the command tool are refused.
#[derive(Clone, Copy, Debug, PartialEq, Eq, Structural)]
pub enum RunCommandInputError {
    ArgumentsNotObject,
    CommandMissingOrNotString,
    UnknownArguments,
    CommandTooLarge,
    CommandEmpty,
}

impl RunCommandInputError {
    /// What the error is reported as.
    pub open spec fn reason_text(self) -> Seq<char> {
        match self {
            RunCommandInputError::ArgumentsNotObject => {
                "run_command arguments must be an object"@
            },
            RunCommandInputError::CommandMissingOrNotString => {
                "run_command requires a string 'command' argument"@
            },
            RunCommandInputError::UnknownArguments => {
                "run_command does not accept unknown arguments"@
            },
            RunCommandInputError::CommandTooLarge => {
                "command exceeds the 65536 bytes policy limit"@
            },
            RunCommandInputError::CommandEmpty => "command must not be empty"@,
        }
    }

    /// The error in words.
    pub fn reason(self) -> (reason: &'static str)
        ensures
            reason@ == self.reason_text(),
    {
        match self {
            RunCommandInputError::ArgumentsNotObject => "run_command arguments must be an object",
            RunCommandInputError::CommandMissingOrNotString => {
                "run_command requires a string 'command' argument"
            },
            RunCommandInputError::UnknownArguments => {
                "run_command does not accept unknown arguments"
            },
            RunCommandInputError::CommandTooLarge => "command exceeds the 65536 bytes policy limit",
            RunCommandInputError::CommandEmpty => "command must not be empty",
        }
    }
}

/// Why a command text is refused.
pub open spec fn text_error(command: Seq<char>) -> Option<RunCommandInputError> {
    if vstd::utf8::encode_utf8(command).len() > MAX_COMMAND_BYTES {
        Some(RunCommandInputError::CommandTooLarge)
    } else if text::is_blank(command) {
        Some(RunCommandInputError::CommandEmpty)
    } else {
        None
    }
}

/// Checks a command text.
pub fn validate_run_command_text(command: &str) -> (result: Result<(), RunCommandInputError>)
    ensures
        match result {
            Ok(()) => text_error(command@) is None,
            Err(error) => text_error(command@) == Some(error),
        },
{
    if byte_len(command) > MAX_COMMAND_BYTES {
        return Err(RunCommandInputError::CommandTooLarge);
    }
    if text_is_blank(command) {
        return Err(RunCommandInputError::CommandEmpty);
    }
    Ok(())
}

/// The command that the members of an arguments object give.
pub open spec fn command_argument(
    members: Option<Seq<(Seq<char>, Option<Seq<char>>)>>,
) -> Result<Seq<char>, RunCommandInputError> {
    match members {
        None => Err(RunCommandInputError::ArgumentsNotObject),
        Some(found) => match tool_support::member(found, "command"@, 0) {
            Some(Some(command)) => if found.len() != 1 {
                Err(RunCommandInputError::UnknownArguments)
            } else {
                match text_error(command) {
                    Some(error) => Err(error),
                    None => Ok(command),
                }
            },
            _ => Err(RunCommandInputError::CommandMissingOrNotString),
        },
    }
}

/// The command that the members of an arguments object give.
pub fn command_from_members(members: Option<Members>) -> (result: Result<
    String,
    RunCommandInputError,
>)
    ensures
        match result {
            Ok(command) => command_argument(tool_support::optional_member_views(members)) == Ok::<
                Seq<char>,
                RunCommandInputError,
            >(command@),
            Err(error) => command_argument(tool_support::optional_member_views(members)) == Err::<
                Seq<char>,
                RunCommandInputError,
            >(error),
        },
{
    let found = match members {
        Some(found) => found,
        None => {
            return Err(RunCommandInputError::ArgumentsNotObject);
        },
    };
    let count: usize = found.len();
    assert(tool_support::member_views(found@).len() == found@.len());
    let command = match tool_support::find_member(&found, "command") {
        Some(Some(command)) => command,
        _ => {
            return Err(RunCommandInputError::CommandMissingOrNotString);
        },
    };
    if count != 1 {
        return Err(RunCommandInputError::UnknownArguments);
    }
    match validate_run_command_text(command.as_str()) {
        Ok(()) => Ok(command),
        Err(error) => Err(error),
    }
}

/// The command that the arguments of a call give, read from their JSON text.
pub fn parse_run_command_arguments(arguments: &str) -> (result: Result<
    String,
    RunCommandInputError,
>)
    ensures
        match result {
            Ok(command) => command_argument(tool_support::json_object_members(arguments@)) == Ok::<
                Seq<char>,
                RunCommandInputError,
            >(command@),
            Err(error) => command_argument(tool_support::json_object_members(arguments@)) == Err::<
                Seq<char>,
                RunCommandInputError,
            >(error),
        },
{
    let members = object_members(arguments);
    command_from_members(members)
}

} // verus!
