//! Asking a person for an approval: what they are shown, how their input is
//! read, and what it decides.

use crate::io_failure::{ErrorKind, IoFailure, IoFailureView};
use crate::run::{ApprovalDecision, ApprovalRequest, ApprovalView, DecisionView};
use crate::text;
use crate::text::{char_is_whitespace, chars_of, concat2, concat3, same_text};
use crate::utf8;
use crate::utf8::{check_utf8, Utf8Check};
use vstd::prelude::*;
use vstd::slice::slice_subrange;

verus! {

/// How long one wait for input is, in milliseconds.
pub const INPUT_POLL_INTERVAL: u64 = 25;

/// The longest line of input, in bytes.
pub const MAX_APPROVAL_INPUT_BYTES: usize = 4096;

/// What was read of a person.
#[derive(Clone, Debug, PartialEq, Eq)]
pub enum ApprovalInput {
    Line(String),
    TooLong,
    Eof,
    Error(IoFailure),
}

/// The mathematical value of an [`ApprovalInput`].
pub enum ApprovalInputView {
    Line(Seq<char>),
    TooLong,
    Eof,
    Error(IoFailureView),
}

impl View for ApprovalInput {
    type V = ApprovalInputView;

    open spec fn view(&self) -> ApprovalInputView {
        match *self {
            ApprovalInput::Line(line) => ApprovalInputView::Line(line@),
            ApprovalInput::TooLong => ApprovalInputView::TooLong,
            ApprovalInput::Eof => ApprovalInputView::Eof,
            ApprovalInput::Error(error) => ApprovalInputView::Error(error@),
        }
    }
}

impl ApprovalInput {
    /// Whether nothing more is read behind it.
    pub fn is_last(&self) -> (result: bool)
        ensures
            result == !(self@ is Line),
    {
        !matches!(self, ApprovalInput::Line(_))
    }
}

/// The line that some bytes are.
pub open spec fn decoded_line(line: Seq<u8>) -> ApprovalInputView {
    if vstd::utf8::valid_utf8(line) {
        ApprovalInputView::Line(vstd::utf8::decode_utf8(line))
    } else {
        ApprovalInputView::Error(
            IoFailureView {
                kind: ErrorKind::InvalidData,
                message: "approval input is not UTF-8: "@ + utf8::utf8_error_text(line),
                os_error: None,
            },
        )
    }
}

/// Executable form of [`decoded_line`].
pub fn decode_approval_line(line: &[u8]) -> (input: ApprovalInput)
    ensures
        input@ == decoded_line(line@),
{
    match check_utf8(line) {
        Utf8Check::Valid(decoded) => ApprovalInput::Line(decoded),
        Utf8Check::Incomplete { message, .. } => not_utf8(message.as_str()),
        Utf8Check::Invalid { message, .. } => not_utf8(message.as_str()),
    }
}

fn not_utf8(message: &str) -> (input: ApprovalInput)
    ensures
        input@ == ApprovalInputView::Error(
            IoFailureView {
                kind: ErrorKind::InvalidData,
                message: "approval input is not UTF-8: "@ + message@,
                os_error: None,
            },
        ),
{
    let text = concat2("approval input is not UTF-8: ", message);
    ApprovalInput::Error(IoFailure::new(ErrorKind::InvalidData, text.as_str()))
}

/// How many of some bytes belong to the line that they begin, its end included.
pub open spec fn line_length(bytes: Seq<u8>, at: int) -> int
    decreases bytes.len() - at,
{
    if at < 0 || at >= bytes.len() {
        bytes.len() as int
    } else if bytes[at] == 10 {
        at + 1
    } else {
        line_length(bytes, at + 1)
    }
}

/// Whether some bytes hold the end of a line.
pub open spec fn ends_line(bytes: Seq<u8>) -> bool {
    bytes.contains(10u8)
}

/// What a line comes to with some more bytes: the line, how many of the bytes it
/// takes, and the input where it is complete. No bytes stand for the end of the
/// input.
pub struct LineView {
    pub line: Seq<u8>,
    pub consumed: nat,
    pub input: Option<ApprovalInputView>,
}

/// What a line comes to with some more bytes.
pub open spec fn fed(line: Seq<u8>, bytes: Seq<u8>) -> LineView {
    let length = line_length(bytes, 0);
    let room = MAX_APPROVAL_INPUT_BYTES - line.len();
    if bytes.len() == 0 {
        LineView {
            line,
            consumed: 0,
            input: Some(
                if line.len() == 0 {
                    ApprovalInputView::Eof
                } else {
                    decoded_line(line)
                },
            ),
        }
    } else if length > room {
        LineView {
            line: line + bytes.take(room),
            consumed: room as nat,
            input: Some(ApprovalInputView::TooLong),
        }
    } else {
        LineView {
            line: line + bytes.take(length),
            consumed: length as nat,
            input: if ends_line(bytes) {
                Some(decoded_line(line + bytes.take(length)))
            } else {
                None
            },
        }
    }
}

proof fn lemma_line_length(bytes: Seq<u8>, at: int)
    requires
        0 <= at <= bytes.len(),
        forall|i: int| 0 <= i < at ==> (#[trigger] bytes[i]) != 10,
    ensures
        at <= line_length(bytes, at) <= bytes.len(),
        at < bytes.len() ==> at < line_length(bytes, at),
        ends_line(bytes) ==> bytes[line_length(bytes, at) - 1] == 10,
        ends_line(bytes) ==> line_length(bytes, at) >= 1,
        !ends_line(bytes) ==> line_length(bytes, at) == bytes.len(),
    decreases bytes.len() - at,
{
    if at < bytes.len() && bytes[at] != 10 {
        lemma_line_length(bytes, at + 1);
    }
}

/// How a line goes on behind some bytes.
#[derive(Debug, PartialEq, Eq)]
pub struct LineStep {
    /// How many of the bytes the line took.
    pub consumed: usize,
    /// The input, where the line is complete.
    pub input: Option<ApprovalInput>,
}

/// A line of input that is being read.
pub struct ApprovalLine {
    line: Vec<u8>,
}

impl View for ApprovalLine {
    type V = Seq<u8>;

    closed spec fn view(&self) -> Seq<u8> {
        self.line@
    }
}

impl ApprovalLine {
    /// A line before its first byte.
    pub fn new() -> (line: ApprovalLine)
        ensures
            line@ == Seq::<u8>::empty(),
    {
        ApprovalLine { line: Vec::new() }
    }

    /// Takes some more bytes, or none at the end of the input. No more of them
    /// are taken than the line needs or has room for.
    pub fn feed(&mut self, bytes: &[u8]) -> (step: LineStep)
        requires
            old(self)@.len() <= MAX_APPROVAL_INPUT_BYTES,
        ensures
            final(self)@ == fed(old(self)@, bytes@).line,
            step.consumed == fed(old(self)@, bytes@).consumed,
            match step.input {
                Some(input) => fed(old(self)@, bytes@).input == Some(input@),
                None => fed(old(self)@, bytes@).input is None,
            },
            final(self)@.len() <= MAX_APPROVAL_INPUT_BYTES,
            step.consumed <= bytes@.len(),
    {
        if bytes.len() == 0 {
            let input = if self.line.len() == 0 {
                ApprovalInput::Eof
            } else {
                decode_approval_line(self.line.as_slice())
            };
            return LineStep { consumed: 0, input: Some(input) };
        }
        let count: usize = bytes.len();
        let mut length: usize = 0;
        let mut ended = false;
        while length < count && !ended
            invariant
                length <= count,
                count == bytes@.len(),
                !ended ==> (forall|i: int| 0 <= i < length ==> (#[trigger] bytes@[i]) != 10),
                !ended ==> line_length(bytes@, 0) == line_length(bytes@, length as int),
                ended ==> line_length(bytes@, 0) == length && length > 0 && bytes@[length - 1] == 10,
            decreases count - length,
        {
            if bytes[length] == 10 {
                ended = true;
            }
            length = length + 1;
        }
        proof {
            if ended {
                assert(bytes@.contains(10u8));
            } else {
                assert(!bytes@.contains(10u8));
            }
        }
        let room: usize = MAX_APPROVAL_INPUT_BYTES - self.line.len();
        if length > room {
            let taken = slice_subrange(bytes, 0, room);
            self.line.extend_from_slice(taken);
            assert(taken@ =~= bytes@.take(room as int));
            assert(self.line@ =~= old(self)@ + bytes@.take(room as int));
            return LineStep { consumed: room, input: Some(ApprovalInput::TooLong) };
        }
        let taken = slice_subrange(bytes, 0, length);
        self.line.extend_from_slice(taken);
        assert(taken@ =~= bytes@.take(length as int));
        assert(self.line@ =~= old(self)@ + bytes@.take(length as int));
        LineStep {
            consumed: length,
            input: if ended {
                Some(decode_approval_line(self.line.as_slice()))
            } else {
                None
            },
        }
    }
}

impl ApprovalLine {
    /// Takes what filling the buffer of the input came to: some more bytes, none
    /// at its end, or an error, which is the input then.
    pub fn after_fill(&mut self, filled: Result<&[u8], IoFailure>) -> (step: LineStep)
        requires
            old(self)@.len() <= MAX_APPROVAL_INPUT_BYTES,
        ensures
            match filled {
                Ok(bytes) => {
                    &&& final(self)@ == fed(old(self)@, bytes@).line
                    &&& step.consumed == fed(old(self)@, bytes@).consumed
                    &&& match step.input {
                        Some(input) => fed(old(self)@, bytes@).input == Some(input@),
                        None => fed(old(self)@, bytes@).input is None,
                    }
                },
                Err(error) => {
                    &&& final(self)@ == old(self)@
                    &&& step.consumed == 0
                    &&& step.input == Some(ApprovalInput::Error(error))
                },
            },
            final(self)@.len() <= MAX_APPROVAL_INPUT_BYTES,
    {
        match filled {
            Ok(bytes) => self.feed(bytes),
            Err(error) => LineStep { consumed: 0, input: Some(ApprovalInput::Error(error)) },
        }
    }
}

/// The input is read the same whatever pieces it comes in: where some bytes do
/// not complete a line, what follows them completes it as if all had come at
/// once.
pub proof fn law_pieces_make_no_difference(line: Seq<u8>, first: Seq<u8>, second: Seq<u8>)
    requires
        line.len() <= MAX_APPROVAL_INPUT_BYTES,
        first.len() > 0,
        second.len() > 0,
        fed(line, first).input is None,
    ensures
        fed(line, first).consumed == first.len(),
        fed(line, first + second).line == fed(fed(line, first).line, second).line,
        fed(line, first + second).input == fed(fed(line, first).line, second).input,
        fed(line, first + second).consumed == first.len() + fed(
            fed(line, first).line,
            second,
        ).consumed,
{
    lemma_line_length(first, 0);
    lemma_line_length(second, 0);
    let both = first + second;
    assert(!ends_line(first));
    assert(forall|i: int| 0 <= i < first.len() ==> (#[trigger] both[i]) == first[i]);
    lemma_skipped(both, first.len() as int, 0);
    lemma_line_length_of_rest(first, second, 0);
    assert(first.take(first.len() as int) =~= first);
    let middle = fed(line, first).line;
    assert(middle == line + first);
    assert(ends_line(both) == ends_line(second)) by {
        if ends_line(second) {
            let at = choose|i: int| 0 <= i < second.len() && second[i] == 10u8;
            assert(both[first.len() + at] == 10u8);
        }
        if ends_line(both) {
            let at = choose|i: int| 0 <= i < both.len() && both[i] == 10u8;
            assert(at >= first.len());
            assert(second[at - first.len()] == 10u8);
        }
    }
    let length = line_length(second, 0);
    assert(line + both.take(first.len() + length) =~= middle + second.take(length));
    let room = MAX_APPROVAL_INPUT_BYTES - middle.len();
    if length > room {
        assert(line + both.take(first.len() + room) =~= middle + second.take(room));
    }
}

proof fn lemma_skipped(bytes: Seq<u8>, to: int, at: int)
    requires
        0 <= at <= to <= bytes.len(),
        forall|i: int| 0 <= i < to ==> (#[trigger] bytes[i]) != 10,
    ensures
        line_length(bytes, at) == line_length(bytes, to),
    decreases to - at,
{
    if at < to {
        lemma_skipped(bytes, to, at + 1);
    }
}

proof fn lemma_line_length_of_rest(first: Seq<u8>, second: Seq<u8>, at: int)
    requires
        0 <= at <= second.len(),
    ensures
        line_length(first + second, first.len() + at) == first.len() + line_length(second, at),
    decreases second.len() - at,
{
    if at < second.len() {
        assert((first + second)[first.len() + at] == second[at]);
        if second[at] != 10 {
            lemma_line_length_of_rest(first, second, at + 1);
        }
    }
}

/// Where a text begins behind its leading white space.
pub open spec fn text_begin(text: Seq<char>, at: int) -> int
    decreases text.len() - at,
{
    if at < 0 || at >= text.len() {
        text.len() as int
    } else if text::is_whitespace(text[at]) {
        text_begin(text, at + 1)
    } else {
        at
    }
}

/// Where a text, which begins at `begin`, ends before its trailing white space.
pub open spec fn text_end(text: Seq<char>, begin: int, to: int) -> int
    decreases to - begin,
{
    if to <= begin {
        begin
    } else if text::is_whitespace(text[to - 1]) {
        text_end(text, begin, to - 1)
    } else {
        to
    }
}

/// A text without the white space around it.
pub open spec fn trimmed(text: Seq<char>) -> Seq<char> {
    let begin = text_begin(text, 0);
    text.subrange(begin, text_end(text, begin, text.len() as int))
}

/// A letter of the alphabet as a small one.
pub open spec fn lowered_char(character: char) -> char {
    if 'A' <= character <= 'Z' {
        ((character as u8) + 32) as char
    } else {
        character
    }
}

/// A text with the letters of the alphabet as small ones.
pub open spec fn lowered(text: Seq<char>) -> Seq<char> {
    text.map_values(|character: char| lowered_char(character))
}

fn lower_char(character: char) -> (lowered: char)
    ensures
        lowered == lowered_char(character),
{
    if 'A' <= character && character <= 'Z' {
        ((character as u8) + 32) as char
    } else {
        character
    }
}

fn answer_text(line: &str) -> (answer: String)
    ensures
        answer@ == lowered(trimmed(line@)),
{
    let chars = chars_of(line);
    let length: usize = chars.len();
    let mut begin: usize = 0;
    while begin < length && char_is_whitespace(chars[begin])
        invariant
            begin <= length,
            length == chars@.len(),
            chars@ == line@,
            text_begin(line@, 0) == text_begin(line@, begin as int),
        decreases length - begin,
    {
        begin = begin + 1;
    }
    let mut end: usize = length;
    while end > begin && char_is_whitespace(chars[end - 1])
        invariant
            begin <= end <= length,
            length == chars@.len(),
            chars@ == line@,
            text_end(line@, begin as int, length as int) == text_end(
                line@,
                begin as int,
                end as int,
            ),
        decreases end,
    {
        end = end - 1;
    }
    let ghost kept = line@.subrange(begin as int, end as int);
    assert(kept == trimmed(line@));
    let mut answer = String::new();
    let mut index: usize = begin;
    assert(answer@ =~= lowered(kept.take(0)));
    while index < end
        invariant
            begin <= index <= end <= length,
            length == chars@.len(),
            chars@ == line@,
            kept == line@.subrange(begin as int, end as int),
            answer@ == lowered(kept.take(index - begin)),
        decreases end - index,
    {
        answer.push(lower_char(chars[index]));
        index = index + 1;
        assert(kept.take(index - begin) =~= kept.take(index - begin - 1).push(
            kept[index - begin - 1],
        ));
        assert(answer@ =~= lowered(kept.take(index - begin)));
    }
    assert(kept.take(end - begin) =~= kept);
    answer
}

/// What a line decides, where it decides.
pub open spec fn line_decision(line: Seq<char>) -> Option<DecisionView> {
    let answer = lowered(trimmed(line));
    if answer == "y"@ || answer == "yes"@ {
        Some(DecisionView::Approve)
    } else if answer.len() == 0 || answer == "n"@ || answer == "no"@ {
        Some(DecisionView::Deny { reason: "user denied the tool call"@ })
    } else {
        None
    }
}

/// Executable form of [`line_decision`].
pub fn decide_line(line: &str) -> (decision: Option<ApprovalDecision>)
    ensures
        match decision {
            Some(found) => line_decision(line@) == Some(found@),
            None => line_decision(line@) is None,
        },
{
    let answer = answer_text(line);
    if same_text(answer.as_str(), "y") || same_text(answer.as_str(), "yes") {
        return Some(ApprovalDecision::Approve);
    }
    if answer.as_str().is_empty() || same_text(answer.as_str(), "n") || same_text(
        answer.as_str(),
        "no",
    ) {
        return Some(deny("user denied the tool call"));
    }
    None
}

fn deny(reason: &str) -> (decision: ApprovalDecision)
    ensures
        decision@ == (DecisionView::Deny { reason: reason@ }),
{
    ApprovalDecision::Deny { reason: reason.to_owned() }
}

/// What a wait for input gave.
#[derive(Debug, PartialEq, Eq)]
pub enum Received {
    Input(ApprovalInput),
    Timeout,
    /// No input will come any more.
    Disconnected,
}

/// The mathematical value of a [`Received`].
pub enum ReceivedView {
    Input(ApprovalInputView),
    Timeout,
    Disconnected,
}

impl View for Received {
    type V = ReceivedView;

    open spec fn view(&self) -> ReceivedView {
        match *self {
            Received::Input(input) => ReceivedView::Input(input@),
            Received::Timeout => ReceivedView::Timeout,
            Received::Disconnected => ReceivedView::Disconnected,
        }
    }
}

/// What the dialog with a person waits for.
#[derive(Clone, Copy, Debug, PartialEq, Eq, Structural)]
pub enum DialogPhase {
    /// The terminal to be put in order.
    Prepare,
    /// The line of the prompt with that number to be written.
    Prompt(u8),
    /// Whether the run was asked to stop.
    PollCancellation,
    AwaitInput,
    /// The line that asks again to be written.
    Correct,
    Decided,
}

/// What the dialog is handed.
#[derive(Debug, PartialEq, Eq)]
pub enum DialogInput {
    /// Whether what was to be written was.
    Written(bool),
    Cancellation(bool),
    Received(Received),
}

/// The mathematical value of a [`DialogInput`].
pub enum DialogInputView {
    Written(bool),
    Cancellation(bool),
    Received(ReceivedView),
}

impl View for DialogInput {
    type V = DialogInputView;

    open spec fn view(&self) -> DialogInputView {
        match *self {
            DialogInput::Written(done) => DialogInputView::Written(done),
            DialogInput::Cancellation(requested) => DialogInputView::Cancellation(requested),
            DialogInput::Received(received) => DialogInputView::Received(received@),
        }
    }
}

/// The lines of a prompt.
pub open spec fn prompt_line(request: ApprovalView, number: u8) -> Seq<char> {
    if number == 0 {
        "[approval-prompt] "@ + request.id + " "@ + request.call.tool_name
    } else if number == 1 {
        "  arguments: "@ + request.call.arguments
    } else if number == 2 {
        "  reason: "@ + request.reason
    } else {
        "Approve? [y/N]"@
    }
}

/// A dialog with a person.
pub struct DialogView {
    pub request: ApprovalView,
    pub phase: DialogPhase,
    pub decision: Option<DecisionView>,
}

impl DialogView {
    pub open spec fn in_phase(self, phase: DialogPhase) -> DialogView {
        DialogView { phase, ..self }
    }

    pub open spec fn decided(self, decision: DecisionView) -> DialogView {
        DialogView { phase: DialogPhase::Decided, decision: Some(decision), ..self }
    }

    pub open spec fn denied(self, reason: Seq<char>) -> DialogView {
        self.decided(DecisionView::Deny { reason })
    }

    /// Behind a wait for input.
    pub open spec fn received(self, received: ReceivedView) -> DialogView {
        match received {
            ReceivedView::Timeout => self.in_phase(DialogPhase::PollCancellation),
            ReceivedView::Disconnected => self.denied(
                "approval input disconnected without a decision"@,
            ),
            ReceivedView::Input(ApprovalInputView::Eof) => self.denied(
                "approval input closed without a decision"@,
            ),
            ReceivedView::Input(ApprovalInputView::TooLong) => self.denied(
                "approval input exceeded 4096 bytes"@,
            ),
            ReceivedView::Input(ApprovalInputView::Error(error)) => self.denied(
                "approval input failed: "@ + error.message,
            ),
            ReceivedView::Input(ApprovalInputView::Line(line)) => match line_decision(line) {
                Some(decision) => self.decided(decision),
                None => self.in_phase(DialogPhase::Correct),
            },
        }
    }

    /// How an input moves the dialog on. An input that it does not wait for
    /// leaves it where it is.
    pub open spec fn step(self, input: DialogInputView) -> DialogView {
        match (self.phase, input) {
            (DialogPhase::Prepare, DialogInputView::Written(true)) => self.in_phase(
                DialogPhase::Prompt(0),
            ),
            (DialogPhase::Prompt(number), DialogInputView::Written(true)) => self.in_phase(
                if number < 3 {
                    DialogPhase::Prompt((number + 1) as u8)
                } else {
                    DialogPhase::PollCancellation
                },
            ),
            (DialogPhase::Prepare, DialogInputView::Written(false)) => self.denied(
                "terminal output failed before approval decision"@,
            ),
            (DialogPhase::Prompt(_), DialogInputView::Written(false)) => self.denied(
                "terminal output failed before approval decision"@,
            ),
            (DialogPhase::PollCancellation, DialogInputView::Cancellation(requested)) => {
                if requested {
                    self.denied("approval wait stopped before a decision"@)
                } else {
                    self.in_phase(DialogPhase::AwaitInput)
                }
            },
            (DialogPhase::AwaitInput, DialogInputView::Received(received)) => self.received(
                received,
            ),
            (DialogPhase::Correct, DialogInputView::Written(true)) => self.in_phase(
                DialogPhase::PollCancellation,
            ),
            (DialogPhase::Correct, DialogInputView::Written(false)) => self.denied(
                "terminal output failed during approval decision"@,
            ),
            _ => self,
        }
    }

    /// The line to be written, where there is one.
    pub open spec fn line(self) -> Option<Seq<char>> {
        match self.phase {
            DialogPhase::Prompt(number) => Some(prompt_line(self.request, number)),
            DialogPhase::Correct => Some(
                "[approval-prompt] enter 'y' to approve or 'n' to deny"@,
            ),
            _ => None,
        }
    }
}

/// A dialog with a person about an approval.
pub struct ApprovalDialog<'a> {
    request: &'a ApprovalRequest,
    phase: DialogPhase,
    decision: Option<ApprovalDecision>,
}

impl<'a> View for ApprovalDialog<'a> {
    type V = DialogView;

    closed spec fn view(&self) -> DialogView {
        DialogView {
            request: self.request@,
            phase: self.phase,
            decision: match self.decision {
                Some(decision) => Some(decision@),
                None => None,
            },
        }
    }
}

impl<'a> ApprovalDialog<'a> {
    /// A dialog about a request.
    pub fn new(request: &'a ApprovalRequest) -> (dialog: ApprovalDialog<'a>)
        ensures
            dialog@ == (DialogView {
                request: request@,
                phase: DialogPhase::Prepare,
                decision: None,
            }),
    {
        ApprovalDialog { request, phase: DialogPhase::Prepare, decision: None }
    }

    /// What the dialog waits for.
    pub fn phase(&self) -> (phase: DialogPhase)
        ensures
            phase == self@.phase,
    {
        self.phase
    }

    /// The line to be written, where there is one.
    pub fn line(&self) -> (line: Option<String>)
        ensures
            match line {
                Some(text) => self@.line() == Some(text@),
                None => self@.line() is None,
            },
    {
        match self.phase {
            DialogPhase::Prompt(number) => Some(
                if number == 0 {
                    let beginning = concat3("[approval-prompt] ", self.request.id.as_str(), " ");
                    concat2(beginning.as_str(), self.request.call.tool_name.as_str())
                } else if number == 1 {
                    concat2("  arguments: ", self.request.call.arguments.as_str())
                } else if number == 2 {
                    concat2("  reason: ", self.request.reason.as_str())
                } else {
                    "Approve? [y/N]".to_owned()
                },
            ),
            DialogPhase::Correct => Some(
                "[approval-prompt] enter 'y' to approve or 'n' to deny".to_owned(),
            ),
            _ => None,
        }
    }

    fn decide(&mut self, decision: ApprovalDecision)
        ensures
            final(self)@ == old(self)@.decided(decision@),
    {
        self.decision = Some(decision);
        self.phase = DialogPhase::Decided;
    }

    fn received(&mut self, received: Received)
        ensures
            final(self)@ == old(self)@.received(received@),
    {
        match received {
            Received::Timeout => {
                self.phase = DialogPhase::PollCancellation;
            },
            Received::Disconnected => {
                self.decide(deny("approval input disconnected without a decision"));
            },
            Received::Input(ApprovalInput::Eof) => {
                self.decide(deny("approval input closed without a decision"));
            },
            Received::Input(ApprovalInput::TooLong) => {
                self.decide(deny("approval input exceeded 4096 bytes"));
            },
            Received::Input(ApprovalInput::Error(error)) => {
                let reason = concat2("approval input failed: ", error.message.as_str());
                self.decide(ApprovalDecision::Deny { reason });
            },
            Received::Input(ApprovalInput::Line(line)) => {
                match decide_line(line.as_str()) {
                    Some(decision) => {
                        self.decide(decision);
                    },
                    None => {
                        self.phase = DialogPhase::Correct;
                    },
                }
            },
        }
    }

    /// Takes an input.
    pub fn advance(&mut self, input: DialogInput)
        ensures
            final(self)@ == old(self)@.step(input@),
    {
        match (self.phase, input) {
            (DialogPhase::Prepare, DialogInput::Written(true)) => {
                self.phase = DialogPhase::Prompt(0);
            },
            (DialogPhase::Prompt(number), DialogInput::Written(true)) => {
                self.phase = if number < 3 {
                    DialogPhase::Prompt(number + 1)
                } else {
                    DialogPhase::PollCancellation
                };
            },
            (DialogPhase::Prepare, DialogInput::Written(false)) => {
                self.decide(deny("terminal output failed before approval decision"));
            },
            (DialogPhase::Prompt(_), DialogInput::Written(false)) => {
                self.decide(deny("terminal output failed before approval decision"));
            },
            (DialogPhase::PollCancellation, DialogInput::Cancellation(requested)) => {
                if requested {
                    self.decide(deny("approval wait stopped before a decision"));
                } else {
                    self.phase = DialogPhase::AwaitInput;
                }
            },
            (DialogPhase::AwaitInput, DialogInput::Received(received)) => {
                self.received(received);
            },
            (DialogPhase::Correct, DialogInput::Written(true)) => {
                self.phase = DialogPhase::PollCancellation;
            },
            (DialogPhase::Correct, DialogInput::Written(false)) => {
                self.decide(deny("terminal output failed during approval decision"));
            },
            _ => {},
        }
    }

    /// The decision, where there is one.
    pub fn into_decision(self) -> (decision: Option<ApprovalDecision>)
        ensures
            match decision {
                Some(found) => self@.decision == Some(found@),
                None => self@.decision is None,
            },
    {
        self.decision
    }
}

/// Nothing but a line that says yes approves: every other input, the end of the
/// input, a failure or a request to stop denies or asks again.
pub proof fn law_only_a_yes_approves(dialog: DialogView, input: DialogInputView)
    requires
        dialog.decision is None,
        dialog.step(input).decision == Some(DecisionView::Approve),
    ensures
        dialog.phase == DialogPhase::AwaitInput,
        input matches DialogInputView::Received(ReceivedView::Input(ApprovalInputView::Line(line)))
            && (lowered(trimmed(line)) == "y"@ || lowered(trimmed(line)) == "yes"@),
{
}

} // verus!
