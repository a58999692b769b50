//! What a person sees of a text and of a run.

use crate::model::StreamEventView;
use crate::run::{DecisionView, EventView, TerminalView};
use crate::terminal;
use crate::terminal::RenderedView;
use crate::text;
use crate::tool::{ContentView, OutputView};
use vstd::prelude::*;

verus! {

/// Whether a character moves the cursor, changes how a terminal shows what follows, or
/// is not seen at all.
pub open spec fn is_hidden(character: char) -> bool {
    ||| character < ' '
    ||| '\u{7f}' <= character && character <= '\u{9f}'
    ||| character == '\u{61c}' || character == '\u{feff}'
    ||| '\u{200b}' <= character && character <= '\u{200f}'
    ||| '\u{2028}' <= character && character <= '\u{202e}'
    ||| '\u{2060}' <= character && character <= '\u{206f}'
}

/// No character of what is shown is hidden or controls the terminal.
pub proof fn law_hidden_characters_are_never_shown(content: Seq<char>, at: int)
    requires
        0 <= at < terminal::shown(content, content.len() as int).len(),
    ensures
        !is_hidden(terminal::shown(content, content.len() as int)[at]),
{
    terminal::law_shown_text_controls_nothing(content, content.len() as int);
}

proof fn lemma_shown_joined(first: Seq<char>, second: Seq<char>, count: int)
    requires
        0 <= count <= second.len(),
    ensures
        terminal::shown(first + second, first.len() + count) == terminal::shown(
            first,
            first.len() as int,
        ) + terminal::shown(second, count),
    decreases count,
{
    let both = first + second;
    if count > 0 {
        lemma_shown_joined(first, second, count - 1);
        assert(both[first.len() + count - 1] == second[count - 1]);
        let head = terminal::shown(first, first.len() as int);
        let middle = terminal::shown(second, count - 1);
        let last = terminal::shown_char(second[count - 1]);
        assert((head + middle) + last =~= head + (middle + last));
    } else {
        lemma_shown_prefix(first, second, first.len() as int);
        assert(terminal::shown(first, first.len() as int) + terminal::shown(second, 0)
            =~= terminal::shown(first, first.len() as int));
    }
}

proof fn lemma_shown_prefix(first: Seq<char>, second: Seq<char>, count: int)
    requires
        0 <= count <= first.len(),
    ensures
        terminal::shown(first + second, count) == terminal::shown(first, count),
    decreases count,
{
    if count > 0 {
        lemma_shown_prefix(first, second, count - 1);
        assert((first + second)[count - 1] == first[count - 1]);
    }
}

/// Two texts in a row are shown in a row.
pub proof fn law_texts_in_a_row_are_shown_in_a_row(first: Seq<char>, second: Seq<char>)
    ensures
        terminal::shown(first + second, (first + second).len() as int) == terminal::shown(
            first,
            first.len() as int,
        ) + terminal::shown(second, second.len() as int),
{
    lemma_shown_joined(first, second, second.len() as int);
}

/// The value of the first `count` hexadecimal digits.
pub open spec fn hex_value(digits: Seq<char>, count: int) -> nat
    decreases count,
{
    if count <= 0 {
        0
    } else {
        let digit = digits[count - 1];
        hex_value(digits, count - 1) * 16 + if '0' <= digit <= '9' {
            (digit as u32 - '0' as u32) as nat
        } else {
            (digit as u32 - 'a' as u32 + 10) as nat
        }
    }
}

/// Whether a text is made of hexadecimal digits alone.
pub open spec fn is_hex(digits: Seq<char>) -> bool {
    forall|i: int|
        0 <= i < digits.len() ==> ('0' <= #[trigger] digits[i] <= '9' || 'a' <= digits[i] <= 'f')
}

proof fn lemma_hex_of_pushed(digits: Seq<char>, last: char, count: int)
    requires
        0 <= count <= digits.len(),
    ensures
        hex_value(digits.push(last), count) == hex_value(digits, count),
    decreases count,
{
    if count > 0 {
        lemma_hex_of_pushed(digits, last, count - 1);
        assert(digits.push(last)[count - 1] == digits[count - 1]);
    }
}

proof fn lemma_hex(value: nat)
    ensures
        is_hex(terminal::hex_text(value)),
        hex_value(terminal::hex_text(value), terminal::hex_text(value).len() as int) == value,
    decreases value,
{
    let digits = terminal::hex_text(value);
    if value < 16 {
        assert(digits[0] == text::digit_char(value));
        assert(digits.len() == 1);
        assert(hex_value(digits, 0) == 0);
    } else {
        lemma_hex(value / 16);
        let front = terminal::hex_text(value / 16);
        let last = text::digit_char(value % 16);
        lemma_hex_of_pushed(front, last, front.len() as int);
        assert(digits[front.len() as int] == last);
        assert(value == (value / 16) * 16 + value % 16);
        assert forall|i: int| 0 <= i < digits.len() implies ('0' <= #[trigger] digits[i] <= '9'
            || 'a' <= digits[i] <= 'f') by {
            if i < front.len() {
                assert(digits[i] == front[i]);
            }
        }
    }
}

proof fn lemma_hex_of_padded(digits: Seq<char>, zeros: nat, count: int)
    requires
        0 <= count <= digits.len(),
    ensures
        hex_value(Seq::new(zeros, |i: int| '0') + digits, zeros + count) == hex_value(
            digits,
            count,
        ),
    decreases count,
{
    let padded = Seq::new(zeros, |i: int| '0') + digits;
    if count > 0 {
        lemma_hex_of_padded(digits, zeros, count - 1);
        assert(padded[zeros + count - 1] == digits[count - 1]);
    } else {
        lemma_hex_of_zeros(padded, zeros as int);
    }
}

proof fn lemma_hex_of_zeros(padded: Seq<char>, count: int)
    requires
        0 <= count <= padded.len(),
        forall|i: int| 0 <= i < count ==> #[trigger] padded[i] == '0',
    ensures
        hex_value(padded, count) == 0,
    decreases count,
{
    if count > 0 {
        lemma_hex_of_zeros(padded, count - 1);
        assert(padded[count - 1] == '0');
    }
}

/// A character that is not hidden is shown as it is, and any other by its number, in at
/// least four hexadecimal digits between braces.
pub proof fn law_characters_are_shown_or_written_out(character: char)
    ensures
        !is_hidden(character) ==> terminal::shown(seq![character], 1) == seq![character],
        is_hidden(character) ==> exists|digits: Seq<char>| #[trigger]
            writes_out(terminal::shown(seq![character], 1), digits, character),
{
    let alone = seq![character];
    assert(alone[0] == character);
    reveal_with_fuel(terminal::shown, 2);
    assert(terminal::shown(alone, 0) + terminal::shown_char(character) =~= terminal::shown_char(
        character,
    ));
    assert(terminal::controls_terminal(character) == is_hidden(character));
    if is_hidden(character) {
        let digits = terminal::hex_text(character as u32 as nat);
        lemma_hex(character as u32 as nat);
        let padded = text::zero_padded(digits, 4);
        if digits.len() < 4 {
            let zeros = (4 - digits.len()) as nat;
            lemma_hex_of_padded(digits, zeros, digits.len() as int);
            assert forall|i: int| 0 <= i < padded.len() implies ('0' <= #[trigger] padded[i] <= '9'
                || 'a' <= padded[i] <= 'f') by {
                if i >= zeros {
                    assert(padded[i] == digits[i - zeros]);
                }
            }
        }
        assert(writes_out(terminal::shown(alone, 1), padded, character));
    }
}

/// Whether a text writes a character out by its number.
pub open spec fn writes_out(written: Seq<char>, digits: Seq<char>, character: char) -> bool {
    &&& written == "\\u{"@ + digits + "}"@
    &&& digits.len() >= 4
    &&& is_hex(digits)
    &&& hex_value(digits, digits.len() as int) == character as u32
}

proof fn lemma_part(before: Seq<char>, part: Seq<char>, after: Seq<char>)
    ensures
        text::has_part(before + part + after, part),
{
    let whole = before + part + after;
    let at = before.len() as int;
    assert(whole.subrange(at, at + part.len()) =~= part);
    assert(text::stands_at(whole, part, at));
}

proof fn lemma_last_part(before: Seq<char>, part: Seq<char>)
    ensures
        text::has_part(before + part, part),
{
    lemma_part(before, part, Seq::empty());
    assert(before + part + Seq::<char>::empty() =~= before + part);
}

/// The line of an event of the model holds what the model said, called, used or failed
/// with.
pub proof fn law_model_lines_hold_what_was_said(event: StreamEventView)
    ensures
        match event {
            StreamEventView::Started { request_id, .. } => request_id matches Some(id)
                ==> text::has_part(terminal::model_line(event), id),
            StreamEventView::TextDelta { delta, .. } => text::has_part(
                terminal::model_line(event),
                delta,
            ),
            StreamEventView::ToolCallDelta { id, arguments_delta, .. } => text::has_part(
                terminal::model_line(event),
                id,
            ) && text::has_part(terminal::model_line(event), arguments_delta),
            StreamEventView::ToolCall { call, .. } => text::has_part(
                terminal::model_line(event),
                call.id,
            ) && text::has_part(terminal::model_line(event), call.name) && text::has_part(
                terminal::model_line(event),
                call.arguments,
            ),
            StreamEventView::Usage { usage, .. } => text::has_part(
                terminal::model_line(event),
                text::decimal_text(usage.input_tokens as nat),
            ) && text::has_part(
                terminal::model_line(event),
                text::decimal_text(usage.output_tokens as nat),
            ),
            StreamEventView::Completed { finish_reason, .. } => finish_reason matches Some(reason)
                ==> text::has_part(terminal::model_line(event), reason),
            StreamEventView::Failed { error, .. } => text::has_part(
                terminal::model_line(event),
                error.code,
            ) && text::has_part(terminal::model_line(event), error.message),
        },
{
    let line = terminal::model_line(event);
    match event {
        StreamEventView::Started { request_id, .. } => {
            if let Some(id) = request_id {
                lemma_last_part("[model] started "@, id);
            }
        },
        StreamEventView::TextDelta { delta, .. } => {
            lemma_last_part("[model] "@, delta);
        },
        StreamEventView::ToolCallDelta { id, name, arguments_delta, .. } => {
            let known = match name {
                Some(known) => known,
                None => "<pending>"@,
            };
            let before = "[model-tool-delta] "@ + id + " "@ + known + " "@;
            lemma_last_part(before, arguments_delta);
            let after = " "@ + known + " "@ + arguments_delta;
            lemma_part("[model-tool-delta] "@, id, after);
            assert("[model-tool-delta] "@ + id + after =~= line);
        },
        StreamEventView::ToolCall { call, .. } => {
            let after = " "@ + call.name + " "@ + call.arguments;
            lemma_part("[model-tool-call] "@, call.id, after);
            assert("[model-tool-call] "@ + call.id + after =~= line);
            let before = "[model-tool-call] "@ + call.id + " "@;
            lemma_part(before, call.name, " "@ + call.arguments);
            assert(before + call.name + (" "@ + call.arguments) =~= line);
            lemma_last_part(before + call.name + " "@, call.arguments);
        },
        StreamEventView::Usage { usage, .. } => {
            let input = text::decimal_text(usage.input_tokens as nat);
            let output = text::decimal_text(usage.output_tokens as nat);
            lemma_last_part("[usage] input="@ + input + " output="@, output);
            lemma_part("[usage] input="@, input, " output="@ + output);
            assert("[usage] input="@ + input + (" output="@ + output) =~= line);
        },
        StreamEventView::Completed { finish_reason, .. } => {
            if let Some(reason) = finish_reason {
                lemma_part("[model] completed ("@, reason, ")"@);
            }
        },
        StreamEventView::Failed { error, .. } => {
            lemma_last_part("[model-error] "@ + error.code + ": "@, error.message);
            lemma_part("[model-error] "@, error.code, ": "@ + error.message);
            assert("[model-error] "@ + error.code + (": "@ + error.message) =~= line);
        },
    }
}

/// The line of the end of a run holds what the run ended with, and the ways in which a
/// run can end are told apart by how it begins.
pub proof fn law_status_lines_tell_ends_apart(first: TerminalView, second: TerminalView)
    ensures
        match first {
            TerminalView::Completed { final_message } => text::has_part(
                terminal::status_line(first),
                final_message,
            ),
            TerminalView::Failed { error } => text::has_part(
                terminal::status_line(first),
                error.code,
            ) && text::has_part(terminal::status_line(first), error.message),
            TerminalView::Interrupted { reason } => text::has_part(
                terminal::status_line(first),
                reason,
            ),
            TerminalView::Cancelled { reason } => text::has_part(
                terminal::status_line(first),
                reason,
            ),
        },
        terminal::status_line(first) == terminal::status_line(second) ==> {
            &&& first is Completed <==> second is Completed
            &&& first is Failed <==> second is Failed
            &&& first is Interrupted <==> second is Interrupted
            &&& first is Cancelled <==> second is Cancelled
        },
{
    let line = terminal::status_line(first);
    match first {
        TerminalView::Completed { final_message } => {
            lemma_last_part("[status] completed: "@, final_message);
        },
        TerminalView::Failed { error } => {
            lemma_last_part("[status] failed "@ + error.code + ": "@, error.message);
            lemma_part("[status] failed "@, error.code, ": "@ + error.message);
            assert("[status] failed "@ + error.code + (": "@ + error.message) =~= line);
        },
        TerminalView::Interrupted { reason } => {
            lemma_last_part("[status] interrupted: "@, reason);
        },
        TerminalView::Cancelled { reason } => {
            lemma_last_part("[status] cancelled: "@, reason);
        },
    }
    lemma_status_begins(first);
    lemma_status_begins(second);
}

/// The letters behind the label of a status line.
spec fn status_letters(status: TerminalView) -> (char, char) {
    match status {
        TerminalView::Completed { .. } => ('c', 'o'),
        TerminalView::Failed { .. } => ('f', 'a'),
        TerminalView::Interrupted { .. } => ('i', 'n'),
        TerminalView::Cancelled { .. } => ('c', 'a'),
    }
}

proof fn lemma_status_begins(status: TerminalView)
    ensures
        terminal::status_line(status).len() > 11,
        terminal::status_line(status)[9] == status_letters(status).0,
        terminal::status_line(status)[10] == status_letters(status).1,
{
    reveal_strlit("[status] completed: ");
    reveal_strlit("[status] failed ");
    reveal_strlit("[status] interrupted: ");
    reveal_strlit("[status] cancelled: ");
}

/// The lines of an event hold what it is about: who was called with what, what was asked
/// and decided and why, and all of what a tool put out.
pub proof fn law_event_lines_hold_what_happened(event: EventView)
    ensures
        match event {
            EventView::ToolCallRequested { call, .. } => {
                &&& terminal::event_lines(event).len() == 1
                &&& terminal::event_lines(event)[0] matches RenderedView::Text(line)
                &&& text::has_part(line, call.id)
                &&& text::has_part(line, call.tool_name)
                &&& text::has_part(line, call.arguments)
            },
            EventView::ApprovalResolved { approval_id, decision, .. } => {
                &&& terminal::event_lines(event).len() == 1
                &&& terminal::event_lines(event)[0] matches RenderedView::Text(line)
                &&& text::has_part(line, approval_id)
                &&& decision matches DecisionView::Deny { reason } ==> text::has_part(line, reason)
            },
            EventView::ToolResult { result, .. } => match result.output {
                OutputView::Success { content, .. } => {
                    &&& terminal::event_lines(event).len() == content.len() + 1
                    &&& forall|i: int|
                        0 <= i < content.len() ==> match #[trigger] content[i] {
                            ContentView::Text(value) => terminal::event_lines(event)[i + 1]
                                == RenderedView::Text("[tool-output] "@ + value),
                            ContentView::Json(fields) => terminal::event_lines(event)[i + 1]
                                matches RenderedView::Json { fields: shown, .. } && shown == fields,
                        }
                },
                OutputView::Failure { error, .. } => {
                    &&& terminal::event_lines(event).len() == 1
                    &&& terminal::event_lines(event)[0] matches RenderedView::Text(line)
                    &&& text::has_part(line, result.call_id)
                    &&& text::has_part(line, error.code)
                    &&& text::has_part(line, error.message)
                },
            },
            EventView::ModelOutput { event: said, .. } => terminal::event_lines(event) == seq![
                RenderedView::Text(terminal::model_line(said)),
            ],
            EventView::RunFinished { status, .. } => terminal::event_lines(event) == seq![
                RenderedView::Text(terminal::status_line(status)),
            ],
            _ => terminal::event_lines(event).len() == 1,
        },
{
    match event {
        EventView::ToolCallRequested { call, .. } => {
            let line = "[tool-call] "@ + call.id + " "@ + call.tool_name + " "@ + call.arguments;
            let after = " "@ + call.tool_name + " "@ + call.arguments;
            lemma_part("[tool-call] "@, call.id, after);
            assert("[tool-call] "@ + call.id + after =~= line);
            let before = "[tool-call] "@ + call.id + " "@;
            lemma_part(before, call.tool_name, " "@ + call.arguments);
            assert(before + call.tool_name + (" "@ + call.arguments) =~= line);
            lemma_last_part(before + call.tool_name + " "@, call.arguments);
        },
        EventView::ApprovalResolved { approval_id, decision, .. } => {
            match decision {
                DecisionView::Approve => {
                    lemma_part("[approval] "@, approval_id, " approved"@);
                },
                DecisionView::Deny { reason } => {
                    let line = "[approval] "@ + approval_id + " denied: "@ + reason;
                    lemma_part("[approval] "@, approval_id, " denied: "@ + reason);
                    assert("[approval] "@ + approval_id + (" denied: "@ + reason) =~= line);
                    lemma_last_part("[approval] "@ + approval_id + " denied: "@, reason);
                },
            }
        },
        EventView::ToolResult { result, .. } => {
            if let OutputView::Failure { error, .. } = result.output {
                let line = "[tool-result] "@ + result.call_id + " failed "@ + error.code + ": "@
                    + error.message;
                let after = " failed "@ + error.code + ": "@ + error.message;
                lemma_part("[tool-result] "@, result.call_id, after);
                assert("[tool-result] "@ + result.call_id + after =~= line);
                let before = "[tool-result] "@ + result.call_id + " failed "@;
                lemma_part(before, error.code, ": "@ + error.message);
                assert(before + error.code + (": "@ + error.message) =~= line);
                lemma_last_part(before + error.code + ": "@, error.message);
            }
        },
        _ => {},
    }
}

} // verus!
