//! What a command line is read as when it is made of two others.

use crate::shell;
use crate::shell::{ParsedView, Quote, ShellParseError, ShellState};
use vstd::prelude::*;

verus! {

/// Two commands behind one another.
pub open spec fn composed(first: Seq<char>, second: Seq<char>) -> Seq<char> {
    first + seq![';', ' '] + second
}

/// What is read of two lines behind one another.
pub open spec fn read_together(first: ParsedView, second: ParsedView) -> ParsedView {
    ParsedView {
        commands: first.commands + second.commands,
        has_background: first.has_background || second.has_background,
        has_redirection: first.has_redirection || second.has_redirection,
        has_dynamic_expansion: first.has_dynamic_expansion || second.has_dynamic_expansion,
        has_pathname_expansion: first.has_pathname_expansion || second.has_pathname_expansion,
        has_comment: first.has_comment || second.has_comment,
        has_unclassified_syntax: first.has_unclassified_syntax || second.has_unclassified_syntax,
    }
}

/// A reader that goes on behind commands that are complete.
spec fn behind(first: ParsedView, words: nat, state: ShellState) -> ShellState {
    ShellState {
        parsed: read_together(first, state.parsed),
        word_count: words + state.word_count,
        ..state
    }
}

proof fn lemma_behind_end_word(first: ParsedView, words: nat, state: ShellState)
    ensures
        behind(first, words, state).end_word() matches Ok(next) ==> (
        state.end_word() matches Ok(alone) && next == behind(first, words, alone)),
{
}

proof fn lemma_behind_end_command(first: ParsedView, words: nat, state: ShellState)
    ensures
        behind(first, words, state).end_command() matches Ok(next) ==> (
        state.end_command() matches Ok(alone) && next == behind(first, words, alone)),
{
    if let Ok(next) = behind(first, words, state).end_command() {
        assert((first.commands + state.parsed.commands).push(state.words) =~= first.commands
            + state.parsed.commands.push(state.words));
    }
}

proof fn lemma_behind_separator(
    first: ParsedView,
    words: nat,
    state: ShellState,
    character: char,
    next: Option<char>,
)
    ensures
        behind(first, words, state).step_separator(character, next) matches Ok((after, width)) ==> (
        state.step_separator(character, next) matches Ok((alone, same)) && after == behind(
            first,
            words,
            alone,
        ) && width == same),
{
    lemma_behind_end_word(first, words, state);
    if let Ok(ended) = state.end_word() {
        lemma_behind_end_command(first, words, ended);
    }
}

proof fn lemma_behind_double(
    first: ParsedView,
    words: nat,
    state: ShellState,
    character: char,
    next: Option<char>,
)
    ensures
        ({
            let (after, width) = behind(first, words, state).step_double(character, next);
            let (alone, same) = state.step_double(character, next);
            after == behind(first, words, alone) && width == same
        }),
{
}

proof fn lemma_behind_escape(first: ParsedView, words: nat, state: ShellState, next: Option<char>)
    ensures
        ({
            let (after, width) = behind(first, words, state).step_escape(next);
            let (alone, same) = state.step_escape(next);
            after == behind(first, words, alone) && width == same
        }),
{
}

#[verifier::rlimit(40)]
proof fn lemma_behind_plain(
    first: ParsedView,
    words: nat,
    state: ShellState,
    character: char,
    next: Option<char>,
)
    ensures
        behind(first, words, state).step_plain(character, next) matches Ok((after, width)) ==> (
        state.step_plain(character, next) matches Ok((alone, same)) && after == behind(
            first,
            words,
            alone,
        ) && width == same),
{
    let whole = behind(first, words, state);
    if character == '\'' || character == '"' {
    } else if character == '\\' {
        lemma_behind_escape(first, words, state, next);
    } else if shell::is_expansion(character) {
        assert(whole.dynamic().with_char(character) == behind(
            first,
            words,
            state.dynamic().with_char(character),
        ));
    } else if shell::is_pattern(character) {
        assert(whole.pathname().with_char(character) == behind(
            first,
            words,
            state.pathname().with_char(character),
        ));
    } else if character == '>' || character == '<' {
        lemma_behind_end_word(first, words, state);
    } else if shell::is_separator(character) {
        lemma_behind_separator(first, words, state, character, next);
    } else if character == ' ' || character == '\t' {
        lemma_behind_end_word(first, words, state);
    } else {
        assert(whole.with_char(character) == behind(first, words, state.with_char(character)));
    }
}

proof fn lemma_behind_step(
    first: ParsedView,
    words: nat,
    state: ShellState,
    character: char,
    next: Option<char>,
)
    ensures
        behind(first, words, state).step(character, next) matches Ok((after, width)) ==> (
        state.step(character, next) matches Ok((alone, same)) && after == behind(
            first,
            words,
            alone,
        ) && width == same),
{
    match state.quote {
        Quote::Single => {},
        Quote::Double => {
            lemma_behind_double(first, words, state, character, next);
        },
        Quote::Unquoted => {
            lemma_behind_plain(first, words, state, character, next);
        },
    }
}

proof fn lemma_behind_finish(first: ParsedView, words: nat, state: ShellState)
    ensures
        behind(first, words, state).finish() matches Ok(parsed) ==> (
        state.finish() matches Ok(alone) ==> parsed == read_together(first, alone)),
{
    lemma_behind_end_word(first, words, state);
    if let Ok(ended) = state.end_word() {
        lemma_behind_end_command(first, words, ended);
    }
}

proof fn lemma_read_behind(
    line: Seq<char>,
    at: int,
    first: ParsedView,
    words: nat,
    state: ShellState,
)
    requires
        shell::parse_from(line, at, behind(first, words, state)) is Ok,
        shell::parse_from(line, at, state) is Ok,
    ensures
        shell::parse_from(line, at, behind(first, words, state)) == Ok::<
            ParsedView,
            ShellParseError,
        >(read_together(first, shell::parse_from(line, at, state)->Ok_0)),
    decreases line.len() - at,
{
    let whole = behind(first, words, state);
    if at < 0 || at >= line.len() {
        lemma_behind_finish(first, words, state);
    } else if state.begins_comment(line[at]) {
        assert(whole.commented() == behind(first, words, state.commented()));
        lemma_behind_finish(first, words, state.commented());
    } else {
        let next = shell::char_at(line, at + 1);
        lemma_behind_step(first, words, state, line[at], next);
        if let Ok((after, width)) = whole.step(line[at], next) {
            lemma_read_behind(line, at + width, first, words, state.step(line[at], next)->Ok_0.0);
        }
    }
}

/// Whether the word that is being read is empty until it has begun.
spec fn is_tidy(state: ShellState) -> bool {
    state.word_started || state.word.len() == 0
}

proof fn lemma_steps_stay_tidy(state: ShellState, character: char, next: Option<char>)
    requires
        is_tidy(state),
    ensures
        state.step(character, next) matches Ok((after, width)) ==> is_tidy(after) && width >= 1,
{
}

/// A character that is not a backslash is read alike before a semicolon and at
/// the end of a line.
proof fn lemma_step_before_semicolon(state: ShellState, character: char)
    requires
        character != '\\',
    ensures
        state.step(character, None) == state.step(character, Some(';')),
        state.step(character, None) matches Ok((_, width)) ==> width == 1,
{
}

proof fn lemma_step_width(state: ShellState, character: char, next: Option<char>)
    ensures
        state.step(character, next) matches Ok((_, width)) ==> width == 1 || width == 2 && next
            is Some,
{
}

/// Reading on from the end of the first of two lines.
proof fn lemma_read_second(first: Seq<char>, second: Seq<char>, state: ShellState)
    requires
        is_tidy(state),
        state.finish() is Ok,
        shell::parse_from(second, 0, ShellState::initial()) is Ok,
        shell::parse_from(composed(first, second), first.len() as int, state) is Ok,
    ensures
        shell::parse_from(composed(first, second), first.len() as int, state) == Ok::<
            ParsedView,
            ShellParseError,
        >(
            read_together(
                state.finish()->Ok_0,
                shell::parse_from(second, 0, ShellState::initial())->Ok_0,
            ),
        ),
{
    let line = composed(first, second);
    let at = first.len() as int;
    let alone = state.finish()->Ok_0;
    let none = ShellState::initial();
    assert(line[at] == ';');
    assert(line[at + 1] == ' ');
    assert(state.quote == Quote::Unquoted);
    assert(state.end_word_and_command() is Ok);
    let ended = state.end_word_and_command()->Ok_0.following(false);
    assert(ended.parsed == alone);
    assert(shell::parse_from(line, at, state) == shell::parse_from(line, at + 1, ended));
    assert(ended.step(' ', shell::char_at(line, at + 2)) == Ok::<
        (ShellState, int),
        ShellParseError,
    >((ended, 1int)));
    assert(shell::parse_from(line, at + 1, ended) == shell::parse_from(line, at + 2, ended));
    shell::lemma_parse_from_shift(line, at + 2, ended, at + 2);
    assert(line.skip(at + 2) =~= second);
    assert(ended.parsed.commands =~= read_together(alone, none.parsed).commands);
    assert(ended.word =~= none.word);
    assert(ended.words =~= none.words);
    assert(ended == behind(alone, ended.word_count, none));
    lemma_read_behind(second, 0, alone, ended.word_count, none);
}

/// Reading on from within the first of two lines.
proof fn lemma_read_first(first: Seq<char>, second: Seq<char>, at: int, state: ShellState)
    requires
        0 <= at <= first.len(),
        first.len() > 0 ==> first.last() != '\\',
        is_tidy(state),
        shell::parse_from(first, at, state) is Ok,
        shell::parse_from(second, 0, ShellState::initial()) is Ok,
        shell::parse_from(composed(first, second), at, state) matches Ok(parsed)
            && !parsed.has_comment,
    ensures
        shell::parse_from(composed(first, second), at, state) == Ok::<ParsedView, ShellParseError>(
            read_together(
                shell::parse_from(first, at, state)->Ok_0,
                shell::parse_from(second, 0, ShellState::initial())->Ok_0,
            ),
        ),
    decreases first.len() - at,
{
    let line = composed(first, second);
    if at == first.len() {
        lemma_read_second(first, second, state);
    } else {
        assert(line[at] == first[at]);
        if state.begins_comment(first[at]) {
            lemma_finished_comment(state);
        } else {
            let next = shell::char_at(first, at + 1);
            let seen = shell::char_at(line, at + 1);
            if at + 1 < first.len() {
                assert(line[at + 1] == first[at + 1]);
            } else {
                assert(first.last() == first[at]);
                assert(line[at + 1] == ';');
                lemma_step_before_semicolon(state, first[at]);
            }
            assert(state.step(first[at], next) == state.step(first[at], seen));
            lemma_steps_stay_tidy(state, first[at], next);
            lemma_step_width(state, first[at], next);
            let (after, width) = state.step(first[at], next)->Ok_0;
            lemma_read_first(first, second, at + width, after);
        }
    }
}

proof fn lemma_finished_comment(state: ShellState)
    ensures
        state.commented().finish() matches Ok(parsed) ==> parsed.has_comment,
{
}

/// Where a line is made of two that can be read, the first not ending in a
/// backslash, and no comment hides a part of it, its commands are those of the
/// first and then those of the second, and so is the syntax in it.
pub proof fn law_compositions_are_read_in_parts(first: Seq<char>, second: Seq<char>)
    requires
        shell::parse(first) is Ok,
        shell::parse(second) is Ok,
        first.len() > 0 ==> first.last() != '\\',
        shell::parse(composed(first, second)) matches Ok(parsed) && !parsed.has_comment,
    ensures
        shell::parse(composed(first, second)) == Ok::<ParsedView, ShellParseError>(
            read_together(shell::parse(first)->Ok_0, shell::parse(second)->Ok_0),
        ),
{
    lemma_read_first(first, second, 0, ShellState::initial());
}

} // verus!
