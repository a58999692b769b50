//! What a person is asked, and what their answers mean.

use crate::approval;
use crate::approval::{
    ApprovalInputView, DialogInputView, DialogPhase, DialogView, ReceivedView,
};
use crate::run::DecisionView;
use crate::search_text_laws;
use crate::text;
use vstd::prelude::*;

verus! {

/// Whether a word is `small`, in small letters or capital ones.
pub open spec fn says(word: Seq<char>, small: Seq<char>) -> bool {
    &&& word.len() == small.len()
    &&& forall|i: int|
        0 <= i < word.len() ==> (#[trigger] word[i] == small[i] || 'A' <= word[i] <= 'Z'
            && word[i] as u32 + 32 == small[i] as u32)
}

proof fn lemma_begin(line: Seq<char>, at: int, begin: int)
    requires
        0 <= at <= begin <= line.len(),
        forall|i: int| at <= i < begin ==> text::is_whitespace(#[trigger] line[i]),
        begin < line.len() ==> !text::is_whitespace(line[begin]),
    ensures
        approval::text_begin(line, at) == begin,
    decreases begin - at,
{
    if at < begin {
        assert(text::is_whitespace(line[at]));
        lemma_begin(line, at + 1, begin);
    }
}

proof fn lemma_end(line: Seq<char>, begin: int, end: int, to: int)
    requires
        0 <= begin <= end <= to <= line.len(),
        forall|i: int| end <= i < to ==> text::is_whitespace(#[trigger] line[i]),
        begin < end ==> !text::is_whitespace(line[end - 1]),
    ensures
        approval::text_end(line, begin, to) == end,
    decreases to - end,
{
    if end < to {
        assert(text::is_whitespace(line[to - 1]));
        lemma_end(line, begin, end, to - 1);
    }
}

proof fn lemma_trimmed(before: Seq<char>, word: Seq<char>, after: Seq<char>)
    requires
        text::is_blank(before),
        text::is_blank(after),
        word.len() > 0 ==> !text::is_whitespace(word[0]) && !text::is_whitespace(word.last()),
    ensures
        approval::trimmed(before + word + after) == word,
{
    let line = before + word + after;
    let count = line.len() as int;
    if word.len() > 0 {
        let begin = before.len() as int;
        let end = begin + word.len() as int;
        assert(line[begin] == word[0]);
        assert(line[end - 1] == word.last());
        assert forall|i: int| 0 <= i < begin implies text::is_whitespace(#[trigger] line[i]) by {
            assert(line[i] == before[i]);
        }
        assert forall|i: int| end <= i < count implies text::is_whitespace(#[trigger] line[i]) by {
            assert(line[i] == after[i - end]);
        }
        lemma_begin(line, 0, begin);
        lemma_end(line, begin, end, count);
        assert(line.subrange(begin, end) =~= word);
    } else {
        assert forall|i: int| 0 <= i < count implies text::is_whitespace(#[trigger] line[i]) by {
            if i < before.len() {
                assert(line[i] == before[i]);
            } else {
                assert(line[i] == after[i - before.len()]);
            }
        }
        lemma_begin(line, 0, count);
        lemma_end(line, count, count, count);
        assert(line.subrange(count, count) =~= word);
    }
}

proof fn lemma_says(word: Seq<char>, small: Seq<char>)
    requires
        forall|i: int| 0 <= i < small.len() ==> 'a' <= #[trigger] small[i] <= 'z',
    ensures
        says(word, small) <==> approval::lowered(word) == small,
{
    let lowered = approval::lowered(word);
    if says(word, small) {
        assert forall|i: int| 0 <= i < small.len() implies lowered[i] == small[i] by {
            assert(word[i] == small[i] || 'A' <= word[i] <= 'Z' && word[i] as u32 + 32
                == small[i] as u32);
            assert('a' <= small[i] <= 'z');
        }
        assert(lowered =~= small);
    }
    if lowered == small {
        assert forall|i: int| 0 <= i < word.len() implies (#[trigger] word[i] == small[i] || 'A'
            <= word[i] <= 'Z' && word[i] as u32 + 32 == small[i] as u32) by {
            assert(lowered[i] == approval::lowered_char(word[i]));
            assert(lowered[i] == small[i]);
        }
    }
}

/// Whatever blanks stand around it, `y` or `yes` approves, `n`, `no` or nothing at
/// all denies, in small letters or capital ones, and everything else decides nothing.
pub proof fn law_answers_mean_what_they_say(before: Seq<char>, word: Seq<char>, after: Seq<char>)
    requires
        text::is_blank(before),
        text::is_blank(after),
        word.len() > 0 ==> !text::is_whitespace(word[0]) && !text::is_whitespace(word.last()),
    ensures
        approval::line_decision(before + word + after) == if says(word, "y"@) || says(
            word,
            "yes"@,
        ) {
            Some(DecisionView::Approve)
        } else if word.len() == 0 || says(word, "n"@) || says(word, "no"@) {
            Some(DecisionView::Deny { reason: "user denied the tool call"@ })
        } else {
            None
        },
{
    lemma_trimmed(before, word, after);
    reveal_strlit("y");
    reveal_strlit("yes");
    reveal_strlit("n");
    reveal_strlit("no");
    lemma_says(word, "y"@);
    assert forall|i: int| 0 <= i < "yes"@.len() implies 'a' <= #[trigger] "yes"@[i] <= 'z' by {
        assert(i == 0 || i == 1 || i == 2);
    }
    lemma_says(word, "yes"@);
    lemma_says(word, "n"@);
    assert forall|i: int| 0 <= i < "no"@.len() implies 'a' <= #[trigger] "no"@[i] <= 'z' by {
        assert(i == 0 || i == 1);
    }
    lemma_says(word, "no"@);
}

/// A person is shown who asks, for which tool, with what arguments and why, one line
/// after another, and is then asked; a line that decides ends the dialog with what it
/// says, and one that does not asks again.
pub proof fn law_people_are_asked(dialog: DialogView, line: Seq<char>)
    requires
        dialog.phase == DialogPhase::Prepare,
        dialog.decision is None,
    ensures
        ({
            let written = DialogInputView::Written(true);
            let first = dialog.step(written);
            let second = first.step(written);
            let third = second.step(written);
            let fourth = third.step(written);
            let asked = fourth.step(written).step(DialogInputView::Cancellation(false));
            let answered = asked.step(
                DialogInputView::Received(ReceivedView::Input(ApprovalInputView::Line(line))),
            );
            &&& first.line() == Some(
                "[approval-prompt] "@ + dialog.request.id + " "@ + dialog.request.call.tool_name,
            )
            &&& second.line() == Some("  arguments: "@ + dialog.request.call.arguments)
            &&& third.line() == Some("  reason: "@ + dialog.request.reason)
            &&& fourth.line() == Some("Approve? [y/N]"@)
            &&& asked.phase == DialogPhase::AwaitInput
            &&& asked.decision is None
            &&& match approval::line_decision(line) {
                Some(decision) => answered.decision == Some(decision) && answered.phase
                    == DialogPhase::Decided,
                None => answered.decision is None && answered.line() is Some && answered.step(
                    written,
                ).step(DialogInputView::Cancellation(false)) == asked,
            }
            &&& asked.step(DialogInputView::Received(ReceivedView::Timeout)).step(
                DialogInputView::Cancellation(false),
            ) == asked
        }),
{
}

/// A dialog that fails to be shown, that is to stop, or whose input ends or breaks
/// off, denies.
pub proof fn law_broken_dialogs_deny(dialog: DialogView, input: DialogInputView)
    requires
        dialog.decision is None,
        match input {
            DialogInputView::Written(done) => !done && (dialog.phase is Prepare
                || dialog.phase is Prompt || dialog.phase is Correct),
            DialogInputView::Cancellation(requested) => requested && dialog.phase
                == DialogPhase::PollCancellation,
            DialogInputView::Received(received) => dialog.phase == DialogPhase::AwaitInput
                && match received {
                ReceivedView::Timeout => false,
                ReceivedView::Disconnected => true,
                ReceivedView::Input(given) => !(given is Line),
            },
        },
    ensures
        dialog.step(input).decision matches Some(DecisionView::Deny { .. }),
        dialog.step(input).phase == DialogPhase::Decided,
{
}

/// A dialog that has decided stays as it is.
pub proof fn law_decided_dialogs_stay(dialog: DialogView, input: DialogInputView)
    requires
        dialog.phase == DialogPhase::Decided,
    ensures
        dialog.step(input) == dialog,
{
}

/// A line that is typed is the next input, up to its line feed, however many bytes
/// follow it, where it takes no more than 4096 bytes; a longer one is too long.
pub proof fn law_typed_lines_are_read(line: Seq<char>, rest: Seq<u8>)
    requires
        !line.contains('\n'),
    ensures
        ({
            let typed = vstd::utf8::encode_utf8(line.push('\n'));
            let step = approval::fed(Seq::empty(), typed + rest);
            if typed.len() <= 4096 {
                step.consumed == typed.len() && step.input == Some(
                    ApprovalInputView::Line(line.push('\n')),
                )
            } else {
                step.input == Some(ApprovalInputView::TooLong)
            }
        }),
        approval::fed(Seq::empty(), Seq::empty()).input == Some(ApprovalInputView::Eof),
{
    let end = seq!['\n'];
    let body = vstd::utf8::encode_utf8(line);
    let typed = vstd::utf8::encode_utf8(line.push('\n'));
    assert(line.push('\n') =~= line + end);
    search_text_laws::lemma_encode_concat(line, end);
    search_text_laws::lemma_newline_bytes('\n');
    reveal_with_fuel(vstd::utf8::encode_utf8, 2);
    assert(end.drop_first() =~= Seq::<char>::empty());
    assert(vstd::utf8::encode_utf8(end) =~= seq![10u8]);
    assert(typed =~= body.push(10u8));
    search_text_laws::lemma_line_bytes(line);
    let bytes = typed + rest;
    let place = body.len() as int;
    assert(bytes[place] == 10u8);
    assert forall|i: int| 0 <= i < place implies #[trigger] bytes[i] != 10u8 by {
        assert(bytes[i] == body[i]);
        assert(body.contains(body[i]));
    }
    lemma_line_end(bytes, 0, place);
    assert(approval::ends_line(bytes));
    assert(Seq::<u8>::empty() + bytes.take(typed.len() as int) =~= typed);
    vstd::utf8::encode_utf8_valid_utf8(line.push('\n'));
    vstd::utf8::encode_utf8_decode_utf8(line.push('\n'));
}

proof fn lemma_line_end(bytes: Seq<u8>, at: int, place: int)
    requires
        0 <= at <= place < bytes.len(),
        bytes[place] == 10,
        forall|i: int| 0 <= i < place ==> #[trigger] bytes[i] != 10u8,
    ensures
        approval::line_length(bytes, at) == place + 1,
    decreases place - at,
{
    if at < place {
        assert(bytes[at] != 10u8);
        lemma_line_end(bytes, at + 1, place);
    }
}

} // verus!
