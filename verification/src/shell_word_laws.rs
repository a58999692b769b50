//! What holds of every command line that is written down and read.

use crate::shell;
use crate::shell::{ParsedView, Quote, ShellParseError, ShellState};
use vstd::prelude::*;

verus! {

/// A part of a word, as a line may write it.
pub enum Chunk {
    /// A character that stands for itself.
    Plain(char),
    /// A character behind a backslash.
    Escaped(char),
    /// A text between single quotes.
    Single(Seq<char>),
    /// A text between double quotes.
    Double(Seq<char>),
    /// A character behind a backslash, between double quotes.
    DoubleEscaped(char),
}

/// Whether a character has a meaning of its own outside quotes.
pub open spec fn is_special(character: char) -> bool {
    ||| character == '\'' || character == '"' || character == '\\'
    ||| character == '$' || character == '`'
    ||| character == '(' || character == ')' || character == '{' || character == '}'
    ||| character == '*' || character == '?' || character == '['
    ||| character == '<' || character == '>'
    ||| character == '&' || character == '|' || character == ';' || character == '\n'
    ||| character == ' ' || character == '\t'
}

/// Whether a part can be written down, as the first of its word or a later one.
pub open spec fn is_chunk(chunk: Chunk, is_first: bool) -> bool {
    match chunk {
        Chunk::Plain(character) => !is_special(character) && !(is_first && character == '#'),
        Chunk::Escaped(character) => character != '\n',
        Chunk::Single(content) => !content.contains('\''),
        Chunk::Double(content) => !content.contains('"') && !content.contains('\\')
            && !content.contains('$') && !content.contains('`'),
        Chunk::DoubleEscaped(character) => character == '$' || character == '`' || character == '"'
            || character == '\\',
    }
}

/// A part of a word written down.
pub open spec fn written_chunk(chunk: Chunk) -> Seq<char> {
    match chunk {
        Chunk::Plain(character) => seq![character],
        Chunk::Escaped(character) => seq!['\\', character],
        Chunk::Single(content) => seq!['\''] + content + seq!['\''],
        Chunk::Double(content) => seq!['"'] + content + seq!['"'],
        Chunk::DoubleEscaped(character) => seq!['"', '\\', character, '"'],
    }
}

/// What a part of a word stands for.
pub open spec fn chunk_text(chunk: Chunk) -> Seq<char> {
    match chunk {
        Chunk::Plain(character) => seq![character],
        Chunk::Escaped(character) => seq![character],
        Chunk::Single(content) => content,
        Chunk::Double(content) => content,
        Chunk::DoubleEscaped(character) => seq![character],
    }
}

/// The first `count` parts of a word written down.
pub open spec fn written_word(word: Seq<Chunk>, count: int) -> Seq<char>
    decreases count,
{
    if count <= 0 {
        Seq::empty()
    } else {
        written_word(word, count - 1) + written_chunk(word[count - 1])
    }
}

/// What the first `count` parts of a word stand for.
pub open spec fn word_text(word: Seq<Chunk>, count: int) -> Seq<char>
    decreases count,
{
    if count <= 0 {
        Seq::empty()
    } else {
        word_text(word, count - 1) + chunk_text(word[count - 1])
    }
}

/// Whether a word can be written down.
pub open spec fn is_word(word: Seq<Chunk>) -> bool {
    word.len() > 0 && forall|i: int| 0 <= i < word.len() ==> is_chunk(#[trigger] word[i], i == 0)
}

/// The first `count` words of a command written down, each but the first behind a
/// blank.
pub open spec fn written_words(words: Seq<Seq<Chunk>>, count: int) -> Seq<char>
    decreases count,
{
    if count <= 0 {
        Seq::empty()
    } else if count == 1 {
        written_word(words[0], words[0].len() as int)
    } else {
        written_words(words, count - 1) + seq![' '] + written_word(
            words[count - 1],
            words[count - 1].len() as int,
        )
    }
}

/// What the words of a command stand for.
pub open spec fn words_text(words: Seq<Seq<Chunk>>) -> Seq<Seq<char>> {
    words.map_values(|word: Seq<Chunk>| word_text(word, word.len() as int))
}

/// Whether a command can be written down.
pub open spec fn is_command(words: Seq<Seq<Chunk>>) -> bool {
    words.len() > 0 && forall|i: int| 0 <= i < words.len() ==> is_word(#[trigger] words[i])
}

/// Whether a text stands between two commands that are run one after another.
pub open spec fn is_connective(connective: Seq<char>) -> bool {
    ||| connective == seq![';']
    ||| connective == seq!['&', '&']
    ||| connective == seq!['|', '|']
    ||| connective == seq!['|']
    ||| connective == seq!['\n']
}

/// The first `count` commands of a line written down, with a connective and a blank
/// in front of each but the first.
pub open spec fn written_line(
    commands: Seq<Seq<Seq<Chunk>>>,
    connectives: Seq<Seq<char>>,
    count: int,
) -> Seq<char>
    decreases count,
{
    if count <= 0 {
        Seq::empty()
    } else {
        let command = written_words(commands[count - 1], commands[count - 1].len() as int);
        if count == 1 {
            command
        } else {
            written_line(commands, connectives, count - 1) + connectives[count - 2] + seq![' ']
                + command
        }
    }
}

/// What the commands of a line stand for.
pub open spec fn line_text(commands: Seq<Seq<Seq<Chunk>>>) -> Seq<Seq<Seq<char>>> {
    commands.map_values(|words: Seq<Seq<Chunk>>| words_text(words))
}

proof fn lemma_double_quoted_rest(content: Seq<char>, rest: Seq<char>, state: ShellState)
    requires
        is_chunk(Chunk::Double(content), false),
        state.quote == Quote::Double,
        state.word_started,
    ensures
        shell::parse_from(content + seq!['"'] + rest, 0, state) == shell::parse_from(
            rest,
            0,
            (ShellState { word: state.word + content, quote: Quote::Unquoted, ..state }),
        ),
    decreases content.len(),
{
    let line = content + seq!['"'] + rest;
    if content.len() == 0 {
        assert(line[0] == '"');
        let next = ShellState { quote: Quote::Unquoted, ..state };
        shell::lemma_parse_from_shift(line, 1, next, 1);
        assert(line.skip(1) == rest);
        assert(state.word + content == state.word);
    } else {
        assert(line[0] == content[0]);
        assert(content.contains(content[0]));
        let next = state.with_char(content[0]);
        shell::lemma_parse_from_shift(line, 1, next, 1);
        let tail = content.skip(1);
        assert(line.skip(1) == tail + seq!['"'] + rest);
        assert forall|i: int| 0 <= i < tail.len() implies tail[i] != '"' && tail[i] != '\\'
            && tail[i] != '$' && tail[i] != '`' by {
            assert(content.contains(content[i + 1]));
        }
        lemma_double_quoted_rest(tail, rest, next);
        assert(next.word + tail == state.word + content);
    }
}

proof fn lemma_single_quoted_rest(content: Seq<char>, rest: Seq<char>, state: ShellState)
    requires
        !content.contains('\''),
        state.quote == Quote::Single,
        state.word_started,
    ensures
        shell::parse_from(content + seq!['\''] + rest, 0, state) == shell::parse_from(
            rest,
            0,
            (ShellState { word: state.word + content, quote: Quote::Unquoted, ..state }),
        ),
    decreases content.len(),
{
    let line = content + seq!['\''] + rest;
    if content.len() == 0 {
        assert(line[0] == '\'');
        shell::lemma_parse_from_shift(line, 1, state.in_quote(Quote::Unquoted), 1);
        assert(line.skip(1) == rest);
        assert(state.word + content == state.word);
    } else {
        assert(line[0] == content[0]);
        assert(content.contains(content[0]));
        let next = state.with_char(content[0]);
        shell::lemma_parse_from_shift(line, 1, next, 1);
        let tail = content.skip(1);
        assert(line.skip(1) == tail + seq!['\''] + rest);
        assert forall|i: int| 0 <= i < tail.len() implies tail[i] != '\'' by {
            assert(content.contains(content[i + 1]));
        }
        lemma_single_quoted_rest(tail, rest, next);
        assert(next.word + tail == state.word + content);
    }
}

proof fn lemma_chunk(chunk: Chunk, rest: Seq<char>, state: ShellState)
    requires
        is_chunk(chunk, !state.word_started),
        state.quote == Quote::Unquoted,
    ensures
        shell::parse_from(written_chunk(chunk) + rest, 0, state) == shell::parse_from(
            rest,
            0,
            (ShellState { word: state.word + chunk_text(chunk), word_started: true, ..state }),
        ),
{
    let line = written_chunk(chunk) + rest;
    let after = ShellState { word: state.word + chunk_text(chunk), word_started: true, ..state };
    match chunk {
        Chunk::Plain(character) => {
            assert(line[0] == character);
            assert(state.with_char(character).word =~= after.word);
            assert(state.step(character, shell::char_at(line, 1)) == Ok::<
                (ShellState, int),
                ShellParseError,
            >((after, 1int)));
            shell::lemma_parse_from_shift(line, 1, after, 1);
            assert(line.skip(1) =~= rest);
        },
        Chunk::Escaped(character) => {
            assert(line[0] == '\\' && line[1] == character);
            assert(state.with_char(character).word =~= after.word);
            assert(state.step('\\', Some(character)) == Ok::<(ShellState, int), ShellParseError>(
                (after, 2int),
            ));
            shell::lemma_parse_from_shift(line, 2, after, 2);
            assert(line.skip(2) =~= rest);
        },
        Chunk::Single(content) => {
            assert(line[0] == '\'');
            let inner = state.in_quote(Quote::Single);
            shell::lemma_parse_from_shift(line, 1, inner, 1);
            assert(line.skip(1) =~= content + seq!['\''] + rest);
            lemma_single_quoted_rest(content, rest, inner);
        },
        Chunk::Double(content) => {
            assert(line[0] == '"');
            let inner = state.in_quote(Quote::Double);
            shell::lemma_parse_from_shift(line, 1, inner, 1);
            assert(line.skip(1) =~= content + seq!['"'] + rest);
            lemma_double_quoted_rest(content, rest, inner);
        },
        Chunk::DoubleEscaped(character) => {
            assert(line[0] == '"');
            let inner = state.in_quote(Quote::Double);
            shell::lemma_parse_from_shift(line, 1, inner, 1);
            let second = line.skip(1);
            assert(second =~= seq!['\\', character, '"'] + rest);
            assert(second[0] == '\\' && second[1] == character && second[2] == '"');
            let middle = inner.with_char(character);
            shell::lemma_parse_from_shift(second, 2, middle, 2);
            let third = second.skip(2);
            assert(third =~= seq!['"'] + rest);
            assert(third[0] == '"');
            let last = ShellState { quote: Quote::Unquoted, ..middle };
            shell::lemma_parse_from_shift(third, 1, last, 1);
            assert(third.skip(1) =~= rest);
            assert(last.word =~= after.word);
        },
    }
}

proof fn lemma_word(word: Seq<Chunk>, count: int, rest: Seq<char>, state: ShellState)
    requires
        is_word(word),
        1 <= count <= word.len(),
        state.quote == Quote::Unquoted,
        !state.word_started,
        state.word.len() == 0,
    ensures
        shell::parse_from(written_word(word, count) + rest, 0, state) == shell::parse_from(
            rest,
            0,
            (ShellState { word: word_text(word, count), word_started: true, ..state }),
        ),
    decreases count,
{
    let chunk = word[count - 1];
    let tail = written_chunk(chunk) + rest;
    assert(written_word(word, count) + rest =~= written_word(word, count - 1) + tail);
    if count == 1 {
        assert(written_word(word, 0) + tail =~= tail);
        lemma_chunk(chunk, rest, state);
        assert(word_text(word, 0) == Seq::<char>::empty());
        assert(state.word =~= Seq::<char>::empty());
    } else {
        lemma_word(word, count - 1, tail, state);
        lemma_chunk(
            chunk,
            rest,
            ShellState { word: word_text(word, count - 1), word_started: true, ..state },
        );
    }
}

/// The reader behind the first `count` words of a command, the last still open.
spec fn within_command(start: ShellState, words: Seq<Seq<Chunk>>, count: int) -> ShellState {
    ShellState {
        words: words_text(words).take(count - 1),
        word_count: (start.word_count + count - 1) as nat,
        word: words_text(words)[count - 1],
        word_started: true,
        ..start
    }
}

/// Whether the reader stands in front of a command.
spec fn is_fresh(state: ShellState) -> bool {
    &&& state.quote == Quote::Unquoted
    &&& !state.word_started
    &&& state.word.len() == 0
    &&& state.words.len() == 0
}

proof fn lemma_words(words: Seq<Seq<Chunk>>, count: int, rest: Seq<char>, start: ShellState)
    requires
        is_command(words),
        1 <= count <= words.len(),
        is_fresh(start),
        start.word_count + words.len() <= 256,
    ensures
        shell::parse_from(written_words(words, count) + rest, 0, start) == shell::parse_from(
            rest,
            0,
            within_command(start, words, count),
        ),
    decreases count,
{
    let word = words[count - 1];
    let texts = words_text(words);
    assert(texts[count - 1] == word_text(word, word.len() as int));
    if count == 1 {
        lemma_word(word, word.len() as int, rest, start);
        assert(texts.take(0) =~= start.words);
    } else {
        let tail = written_word(word, word.len() as int) + rest;
        let blank = seq![' '] + tail;
        assert(written_words(words, count) + rest =~= written_words(words, count - 1) + blank);
        lemma_words(words, count - 1, blank, start);
        let open = within_command(start, words, count - 1);
        let ended = ShellState {
            words: texts.take(count - 1),
            word_count: (start.word_count + count - 1) as nat,
            word: Seq::empty(),
            word_started: false,
            ..start
        };
        assert(texts.take(count - 2).push(texts[count - 2]) =~= texts.take(count - 1));
        assert(blank[0] == ' ');
        assert(open.step(' ', shell::char_at(blank, 1)) == Ok::<
            (ShellState, int),
            ShellParseError,
        >((ended, 1int)));
        shell::lemma_parse_from_shift(blank, 1, ended, 1);
        assert(blank.skip(1) =~= tail);
        lemma_word(word, word.len() as int, rest, ended);
    }
}

/// The number of words in the first `count` commands.
pub open spec fn words_in(commands: Seq<Seq<Seq<Chunk>>>, count: int) -> nat
    decreases count,
{
    if count <= 0 {
        0
    } else {
        words_in(commands, count - 1) + commands[count - 1].len()
    }
}

proof fn lemma_words_in(commands: Seq<Seq<Seq<Chunk>>>, first: int, second: int)
    requires
        0 <= first <= second,
    ensures
        words_in(commands, first) <= words_in(commands, second),
    decreases second - first,
{
    if first < second {
        lemma_words_in(commands, first, second - 1);
    }
}

/// Whether the connective in front of the last of the first `count` commands asks
/// for a command behind it.
spec fn asks_for_more(connectives: Seq<Seq<char>>, count: int) -> bool {
    count > 1 && (connectives[count - 2][0] == '&' || connectives[count - 2][0] == '|')
}

/// The reader in front of the last of the first `count` commands.
spec fn before_command(
    commands: Seq<Seq<Seq<Chunk>>>,
    connectives: Seq<Seq<char>>,
    count: int,
) -> ShellState {
    let initial = ShellState::initial();
    ShellState {
        parsed: ParsedView { commands: line_text(commands).take(count - 1), ..initial.parsed },
        word_count: words_in(commands, count - 1),
        requires_following_command: asks_for_more(connectives, count),
        ..initial
    }
}

proof fn lemma_line(
    commands: Seq<Seq<Seq<Chunk>>>,
    connectives: Seq<Seq<char>>,
    count: int,
    rest: Seq<char>,
)
    requires
        1 <= count <= commands.len() <= 32,
        connectives.len() == commands.len() - 1,
        forall|i: int| 0 <= i < commands.len() ==> is_command(#[trigger] commands[i]),
        forall|i: int| 0 <= i < connectives.len() ==> is_connective(#[trigger] connectives[i]),
        words_in(commands, commands.len() as int) <= 256,
    ensures
        shell::parse_from(
            written_line(commands, connectives, count) + rest,
            0,
            ShellState::initial(),
        ) == shell::parse_from(
            rest,
            0,
            within_command(
                before_command(commands, connectives, count),
                commands[count - 1],
                commands[count - 1].len() as int,
            ),
        ),
    decreases count,
{
    let command = commands[count - 1];
    let written = written_words(command, command.len() as int);
    let start = before_command(commands, connectives, count);
    let texts = line_text(commands);
    lemma_words_in(commands, count, commands.len() as int);
    assert(words_in(commands, count) == words_in(commands, count - 1) + command.len());
    if count == 1 {
        assert(texts.take(0) =~= Seq::<Seq<Seq<char>>>::empty());
        assert(start == ShellState::initial());
        lemma_words(command, command.len() as int, rest, start);
    } else {
        let connective = connectives[count - 2];
        let tail = written + rest;
        let blank = seq![' '] + tail;
        let between = connective + blank;
        assert(written_line(commands, connectives, count) + rest =~= written_line(
            commands,
            connectives,
            count - 1,
        ) + between);
        lemma_line(commands, connectives, count - 1, between);
        lemma_words_in(commands, count - 1, commands.len() as int);
        let earlier = commands[count - 2];
        assert(words_in(commands, count - 1) == words_in(commands, count - 2) + earlier.len());
        let open = within_command(
            before_command(commands, connectives, count - 1),
            earlier,
            earlier.len() as int,
        );
        let words = words_text(earlier);
        assert(texts[count - 2] == words);
        assert(words.take(earlier.len() - 1).push(words[earlier.len() - 1]) =~= words);
        assert(texts.take(count - 2).push(words) =~= texts.take(count - 1));
        assert(open.end_word_and_command() is Ok);
        let width = connective.len() as int;
        assert(between[0] == connective[0]);
        assert(width == 2 ==> between[1] == connective[1]);
        assert(width == 1 ==> between[1] == ' ');
        let ended = open.end_word_and_command()->Ok_0;
        assert(open.step(between[0], shell::char_at(between, 1)) == Ok::<
            (ShellState, int),
            ShellParseError,
        >((start, width)));
        shell::lemma_parse_from_shift(between, width, start, width);
        assert(between.skip(width) =~= blank);
        assert(blank[0] == ' ');
        assert(start.step(' ', shell::char_at(blank, 1)) == Ok::<
            (ShellState, int),
            ShellParseError,
        >((start, 1int)));
        shell::lemma_parse_from_shift(blank, 1, start, 1);
        assert(blank.skip(1) =~= tail);
        lemma_words(command, command.len() as int, rest, start);
    }
}

/// A line of commands that is written down and read is the same commands, word for
/// word and character for character, whatever way each character was written in,
/// and no other syntax is seen in it.
pub proof fn law_written_lines_are_read_back(
    commands: Seq<Seq<Seq<Chunk>>>,
    connectives: Seq<Seq<char>>,
)
    requires
        1 <= commands.len() <= 32,
        connectives.len() == commands.len() - 1,
        forall|i: int| 0 <= i < commands.len() ==> is_command(#[trigger] commands[i]),
        forall|i: int| 0 <= i < connectives.len() ==> is_connective(#[trigger] connectives[i]),
        words_in(commands, commands.len() as int) <= 256,
    ensures
        shell::parse(written_line(commands, connectives, commands.len() as int)) == Ok::<
            ParsedView,
            ShellParseError,
        >(
            ParsedView {
                commands: line_text(commands),
                has_background: false,
                has_redirection: false,
                has_dynamic_expansion: false,
                has_pathname_expansion: false,
                has_comment: false,
                has_unclassified_syntax: false,
            },
        ),
{
    let count = commands.len() as int;
    let line = written_line(commands, connectives, count);
    assert(line + Seq::<char>::empty() =~= line);
    lemma_line(commands, connectives, count, Seq::empty());
    let last = commands[count - 1];
    let words = words_text(last);
    let texts = line_text(commands);
    assert(words.take(last.len() - 1).push(words[last.len() - 1]) =~= words);
    assert(texts[count - 1] == words);
    assert(texts.take(count - 1).push(words) =~= texts);
    lemma_words_in(commands, count, count);
    assert(words_in(commands, count) == words_in(commands, count - 1) + last.len());
}

/// Whether a line is free of quotes, backslashes and comments, so that every
/// character has the meaning that it has outside quotes.
pub open spec fn is_bare(line: Seq<char>) -> bool {
    !line.contains('\'') && !line.contains('"') && !line.contains('\\') && !line.contains('#')
}

/// Whether one of the characters from `at` on is a `<` or a `>`.
pub open spec fn redirects(line: Seq<char>, at: int) -> bool {
    exists|i: int| at <= i < line.len() && (#[trigger] line[i] == '<' || line[i] == '>')
}

/// Whether one of the characters from `at` on begins or delimits an expansion.
pub open spec fn expands(line: Seq<char>, at: int) -> bool {
    exists|i: int|
        at <= i < line.len() && (#[trigger] line[i] == '$' || line[i] == '`' || line[i] == '('
            || line[i] == ')' || line[i] == '{' || line[i] == '}')
}

/// Whether one of the characters from `at` on makes a pattern of a name.
pub open spec fn matches_names(line: Seq<char>, at: int) -> bool {
    exists|i: int|
        at <= i < line.len() && (#[trigger] line[i] == '*' || line[i] == '?' || line[i] == '[')
}

proof fn lemma_step_flags(state: ShellState, character: char, next: Option<char>)
    requires
        state.quote == Quote::Unquoted,
        character != '\'' && character != '"' && character != '\\',
    ensures
        state.step(character, next) matches Ok((after, width)) ==> {
            &&& after.quote == Quote::Unquoted
            &&& width == 1 || width == 2 && next == Some(character) && (character == '&'
                || character == '|')
            &&& after.parsed.has_redirection == (state.parsed.has_redirection || character == '<'
                || character == '>')
            &&& after.parsed.has_dynamic_expansion == (state.parsed.has_dynamic_expansion
                || shell::is_expansion(character))
            &&& after.parsed.has_pathname_expansion == (state.parsed.has_pathname_expansion
                || shell::is_pattern(character))
            &&& after.parsed.has_comment == state.parsed.has_comment
            &&& after.parsed.has_unclassified_syntax == state.parsed.has_unclassified_syntax
        },
{
}

proof fn lemma_seen(line: Seq<char>, at: int, width: int)
    requires
        0 <= at < line.len(),
        width == 1 || width == 2 && at + 1 < line.len() && line[at + 1] == line[at] && (line[at]
            == '&' || line[at] == '|'),
    ensures
        redirects(line, at) == (redirects(line, at + width) || line[at] == '<' || line[at] == '>'),
        expands(line, at) == (expands(line, at + width) || shell::is_expansion(line[at])),
        matches_names(line, at) == (matches_names(line, at + width) || shell::is_pattern(line[at])),
{
    if redirects(line, at) {
        let i = choose|i: int|
            at <= i < line.len() && (#[trigger] line[i] == '<' || line[i] == '>');
        assert(i >= at + width || i == at || i == at + 1);
    }
    if expands(line, at) {
        let i = choose|i: int|
            at <= i < line.len() && (#[trigger] line[i] == '$' || line[i] == '`' || line[i] == '('
                || line[i] == ')' || line[i] == '{' || line[i] == '}');
        assert(i >= at + width || i == at || i == at + 1);
    }
    if matches_names(line, at) {
        let i = choose|i: int|
            at <= i < line.len() && (#[trigger] line[i] == '*' || line[i] == '?' || line[i] == '[');
        assert(i >= at + width || i == at || i == at + 1);
    }
}

proof fn lemma_flags(line: Seq<char>, at: int, state: ShellState)
    requires
        is_bare(line),
        0 <= at <= line.len(),
        state.quote == Quote::Unquoted,
    ensures
        shell::parse_from(line, at, state) matches Ok(parsed) ==> {
            &&& parsed.has_redirection == (state.parsed.has_redirection || redirects(line, at))
            &&& parsed.has_dynamic_expansion == (state.parsed.has_dynamic_expansion || expands(
                line,
                at,
            ))
            &&& parsed.has_pathname_expansion == (state.parsed.has_pathname_expansion
                || matches_names(line, at))
            &&& parsed.has_comment == state.parsed.has_comment
            &&& parsed.has_unclassified_syntax == state.parsed.has_unclassified_syntax
        },
    decreases line.len() - at,
{
    if at < line.len() {
        assert(line.contains(line[at]));
        let next = shell::char_at(line, at + 1);
        lemma_step_flags(state, line[at], next);
        match state.step(line[at], next) {
            Ok((after, width)) => {
                lemma_seen(line, at, width);
                lemma_flags(line, at + width, after);
            },
            Err(_) => {},
        }
    }
}

/// In a line without quotes, backslashes and comments, redirections, expansions
/// and patterns are seen exactly where a character for them stands.
pub proof fn law_bare_syntax_is_seen(line: Seq<char>)
    requires
        is_bare(line),
    ensures
        shell::parse(line) matches Ok(parsed) ==> {
            &&& parsed.has_redirection == (line.contains('<') || line.contains('>'))
            &&& parsed.has_dynamic_expansion == (line.contains('$') || line.contains('`')
                || line.contains('(') || line.contains(')') || line.contains('{')
                || line.contains('}'))
            &&& parsed.has_pathname_expansion == (line.contains('*') || line.contains('?')
                || line.contains('['))
            &&& !parsed.has_comment
            &&& !parsed.has_unclassified_syntax
        },
{
    lemma_flags(line, 0, ShellState::initial());
}

/// A line is never read where a quote is left open.
pub proof fn law_open_quotes_are_malformed(
    commands: Seq<Seq<Seq<Chunk>>>,
    connectives: Seq<Seq<char>>,
    content: Seq<char>,
)
    requires
        1 <= commands.len() <= 32,
        connectives.len() == commands.len() - 1,
        forall|i: int| 0 <= i < commands.len() ==> is_command(#[trigger] commands[i]),
        forall|i: int| 0 <= i < connectives.len() ==> is_connective(#[trigger] connectives[i]),
        words_in(commands, commands.len() as int) <= 256,
        !content.contains('\''),
    ensures
        shell::parse(
            written_line(commands, connectives, commands.len() as int) + (seq!['\''] + content),
        ) == Err::<ParsedView, ShellParseError>(ShellParseError::Malformed),
{
    let count = commands.len() as int;
    let tail = seq!['\''] + content;
    lemma_line(commands, connectives, count, tail);
    let open = within_command(
        before_command(commands, connectives, count),
        commands[count - 1],
        commands[count - 1].len() as int,
    );
    assert(tail[0] == '\'');
    let inner = open.in_quote(Quote::Single);
    shell::lemma_parse_from_shift(tail, 1, inner, 1);
    assert(tail.skip(1) =~= content);
    lemma_open_quote(content, 0, inner);
}

proof fn lemma_open_quote(content: Seq<char>, at: int, state: ShellState)
    requires
        !content.contains('\''),
        0 <= at <= content.len(),
        state.quote == Quote::Single,
    ensures
        shell::parse_from(content, at, state) == Err::<ParsedView, ShellParseError>(
            ShellParseError::Malformed,
        ),
    decreases content.len() - at,
{
    if at < content.len() {
        assert(content.contains(content[at]));
        lemma_open_quote(content, at + 1, state.with_char(content[at]));
    }
}

/// A line that ends in `&` starts its last command in the background, and one that
/// ends in a comment has a comment; the commands in front of either are read as
/// they are.
pub proof fn law_background_and_comments_are_seen(
    commands: Seq<Seq<Seq<Chunk>>>,
    connectives: Seq<Seq<char>>,
    comment: Seq<char>,
)
    requires
        1 <= commands.len() <= 32,
        connectives.len() == commands.len() - 1,
        forall|i: int| 0 <= i < commands.len() ==> is_command(#[trigger] commands[i]),
        forall|i: int| 0 <= i < connectives.len() ==> is_connective(#[trigger] connectives[i]),
        words_in(commands, commands.len() as int) <= 256,
    ensures
        shell::parse(written_line(commands, connectives, commands.len() as int) + seq!['&'])
            == Ok::<ParsedView, ShellParseError>(
            ParsedView {
                commands: line_text(commands),
                has_background: true,
                ..ShellState::initial().parsed
            },
        ),
        shell::parse(
            written_line(commands, connectives, commands.len() as int) + (seq![' ', '#'] + comment),
        ) == Ok::<ParsedView, ShellParseError>(
            ParsedView {
                commands: line_text(commands),
                has_comment: true,
                ..ShellState::initial().parsed
            },
        ),
{
    let count = commands.len() as int;
    let last = commands[count - 1];
    let words = words_text(last);
    let texts = line_text(commands);
    let open = within_command(before_command(commands, connectives, count), last, last.len() as int);
    assert(words.take(last.len() - 1).push(words[last.len() - 1]) =~= words);
    assert(texts[count - 1] == words);
    assert(texts.take(count - 1).push(words) =~= texts);
    lemma_words_in(commands, count, count);
    assert(words_in(commands, count) == words_in(commands, count - 1) + last.len());

    let behind = seq!['&'];
    lemma_line(commands, connectives, count, behind);
    assert(behind[0] == '&');
    let ended = open.end_word_and_command()->Ok_0;
    assert(shell::char_at(behind, 1) is None);
    assert(open.step('&', None) == Ok::<(ShellState, int), ShellParseError>(
        (ended.in_background().following(false), 1int),
    ));
    assert(shell::parse_from(behind, 1, ended.in_background().following(false))
        == ended.in_background().following(false).finish());

    let tail = seq![' ', '#'] + comment;
    lemma_line(commands, connectives, count, tail);
    assert(tail[0] == ' ' && tail[1] == '#');
    let closed = open.end_word()->Ok_0;
    assert(open.step(' ', Some('#')) == Ok::<(ShellState, int), ShellParseError>((closed, 1int)));
    assert(closed.begins_comment('#'));
    assert(shell::parse_from(tail, 1, closed) == closed.commented().finish());
}

/// Whether a text between double quotes holds no backslash and no closing quote.
pub open spec fn is_double_quotable(content: Seq<char>) -> bool {
    !content.contains('"') && !content.contains('\\')
}

proof fn lemma_double_quoted_flags(content: Seq<char>, at: int, state: ShellState)
    requires
        is_double_quotable(content),
        0 <= at <= content.len(),
        state.quote == Quote::Double,
    ensures
        ({
            let line = content + seq!['"'];
            shell::parse_from(line, at, state) matches Ok(parsed) ==> {
                &&& parsed.has_dynamic_expansion == (state.parsed.has_dynamic_expansion || exists|
                    i: int,
                |
                    at <= i < content.len() && (#[trigger] content[i] == '$' || content[i] == '`'))
                &&& parsed.has_redirection == state.parsed.has_redirection
                &&& parsed.has_pathname_expansion == state.parsed.has_pathname_expansion
                &&& parsed.has_background == state.parsed.has_background
            }
        }),
    decreases content.len() - at,
{
    let line = content + seq!['"'];
    if at < content.len() {
        assert(line[at] == content[at]);
        assert(content.contains(content[at]));
        let next = if content[at] == '$' || content[at] == '`' {
            state.dynamic().with_char(content[at])
        } else {
            state.with_char(content[at])
        };
        assert(state.step(line[at], shell::char_at(line, at + 1)) == Ok::<
            (ShellState, int),
            ShellParseError,
        >((next, 1int)));
        lemma_double_quoted_flags(content, at + 1, next);
    } else {
        assert(line[at] == '"');
        let closed = ShellState { quote: Quote::Unquoted, ..state };
        assert(state.step('"', shell::char_at(line, at + 1)) == Ok::<
            (ShellState, int),
            ShellParseError,
        >((closed, 1int)));
        assert(shell::parse_from(line, at + 1, closed) == closed.finish());
    }
}

/// Between double quotes, `$` and a backquote still begin an expansion, and nothing else
/// has a meaning of its own.
pub proof fn law_expansions_are_seen_in_double_quotes(
    commands: Seq<Seq<Seq<Chunk>>>,
    connectives: Seq<Seq<char>>,
    content: Seq<char>,
)
    requires
        1 <= commands.len() <= 32,
        connectives.len() == commands.len() - 1,
        forall|i: int| 0 <= i < commands.len() ==> is_command(#[trigger] commands[i]),
        forall|i: int| 0 <= i < connectives.len() ==> is_connective(#[trigger] connectives[i]),
        words_in(commands, commands.len() as int) <= 256,
        is_double_quotable(content),
    ensures
        shell::parse(
            written_line(commands, connectives, commands.len() as int) + (seq!['"'] + (content
                + seq!['"'])),
        ) matches Ok(parsed) ==> {
            &&& parsed.has_dynamic_expansion == (content.contains('$') || content.contains('`'))
            &&& !parsed.has_redirection && !parsed.has_pathname_expansion && !parsed.has_background
        },
{
    let count = commands.len() as int;
    let inner = content + seq!['"'];
    let tail = seq!['"'] + inner;
    lemma_line(commands, connectives, count, tail);
    let open = within_command(
        before_command(commands, connectives, count),
        commands[count - 1],
        commands[count - 1].len() as int,
    );
    assert(tail[0] == '"');
    let quoted = open.in_quote(Quote::Double);
    shell::lemma_parse_from_shift(tail, 1, quoted, 1);
    assert(tail.skip(1) =~= inner);
    lemma_double_quoted_flags(content, 0, quoted);
}

} // verus!
