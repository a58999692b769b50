//! A conservative reading of a shell command line: its simple commands, the
//! words of each, and which kinds of syntax occur in it.

use crate::text;
use crate::text::chars_of;
use vstd::prelude::*;

verus! {

/// The number of simple commands that one line may hold.
pub const MAX_SIMPLE_COMMANDS: usize = 32;

/// The number of words that one line may hold.
pub const MAX_POLICY_WORDS: usize = 256;

/// Why a command line could not be read.
#[derive(Clone, Copy, Debug, PartialEq, Eq, Structural)]
pub enum ShellParseError {
    /// An open quote, an empty command, or an operator without its operand.
    Malformed,
    /// More commands or words than the policy looks at.
    TooComplex,
}

/// The quote that the reader stands in.
#[derive(Clone, Copy, Debug, PartialEq, Eq, Structural)]
pub enum Quote {
    Unquoted,
    Single,
    Double,
}

/// A command line taken apart.
#[derive(Clone, Debug)]
pub struct ParsedShellCommand {
    pub commands: Vec<Vec<String>>,
    pub has_background: bool,
    pub has_redirection: bool,
    pub has_dynamic_expansion: bool,
    pub has_pathname_expansion: bool,
    pub has_comment: bool,
    pub has_unclassified_syntax: bool,
}

/// The mathematical value of a [`ParsedShellCommand`].
pub struct ParsedView {
    pub commands: Seq<Seq<Seq<char>>>,
    pub has_background: bool,
    pub has_redirection: bool,
    pub has_dynamic_expansion: bool,
    pub has_pathname_expansion: bool,
    pub has_comment: bool,
    pub has_unclassified_syntax: bool,
}

/// The words of each command of a sequence.
pub open spec fn command_texts(commands: Seq<Vec<String>>) -> Seq<Seq<Seq<char>>> {
    commands.map_values(|words: Vec<String>| text::texts(words@))
}

impl View for ParsedShellCommand {
    type V = ParsedView;

    open spec fn view(&self) -> ParsedView {
        ParsedView {
            commands: command_texts(self.commands@),
            has_background: self.has_background,
            has_redirection: self.has_redirection,
            has_dynamic_expansion: self.has_dynamic_expansion,
            has_pathname_expansion: self.has_pathname_expansion,
            has_comment: self.has_comment,
            has_unclassified_syntax: self.has_unclassified_syntax,
        }
    }
}

/// What the reader knows after a prefix of the line.
pub struct ShellState {
    /// The commands that are complete, and the syntax seen so far.
    pub parsed: ParsedView,
    /// The words of the command that is being read.
    pub words: Seq<Seq<char>>,
    /// The words of all commands together.
    pub word_count: nat,
    /// The characters of the word that is being read.
    pub word: Seq<char>,
    /// Whether a word has begun, which an empty quoted word has too.
    pub word_started: bool,
    pub quote: Quote,
    /// Whether the last operator asks for a command behind it.
    pub requires_following_command: bool,
}

impl ShellState {
    /// The reader before the first character.
    pub open spec fn initial() -> ShellState {
        ShellState {
            parsed: ParsedView {
                commands: Seq::empty(),
                has_background: false,
                has_redirection: false,
                has_dynamic_expansion: false,
                has_pathname_expansion: false,
                has_comment: false,
                has_unclassified_syntax: false,
            },
            words: Seq::empty(),
            word_count: 0,
            word: Seq::empty(),
            word_started: false,
            quote: Quote::Unquoted,
            requires_following_command: false,
        }
    }

    /// The word goes on with `character`.
    pub open spec fn with_char(self, character: char) -> ShellState {
        ShellState { word: self.word.push(character), word_started: true, ..self }
    }

    /// The word goes on in another quote.
    pub open spec fn in_quote(self, quote: Quote) -> ShellState {
        ShellState { quote, word_started: true, ..self }
    }

    /// Some dynamic expansion was seen.
    pub open spec fn dynamic(self) -> ShellState {
        ShellState { parsed: ParsedView { has_dynamic_expansion: true, ..self.parsed }, ..self }
    }

    /// Some pathname expansion was seen.
    pub open spec fn pathname(self) -> ShellState {
        ShellState { parsed: ParsedView { has_pathname_expansion: true, ..self.parsed }, ..self }
    }

    /// A redirection was seen.
    pub open spec fn redirected(self) -> ShellState {
        ShellState { parsed: ParsedView { has_redirection: true, ..self.parsed }, ..self }
    }

    /// A background operator was seen.
    pub open spec fn in_background(self) -> ShellState {
        ShellState { parsed: ParsedView { has_background: true, ..self.parsed }, ..self }
    }

    /// A comment was seen.
    pub open spec fn commented(self) -> ShellState {
        ShellState { parsed: ParsedView { has_comment: true, ..self.parsed }, ..self }
    }

    /// Syntax outside the classified subset was seen.
    pub open spec fn unclassified(self) -> ShellState {
        ShellState { parsed: ParsedView { has_unclassified_syntax: true, ..self.parsed }, ..self }
    }

    /// The last operator asks for a command behind it, or does not.
    pub open spec fn following(self, required: bool) -> ShellState {
        ShellState { requires_following_command: required, ..self }
    }

    /// The word that is being read ends here, where one has begun.
    pub open spec fn end_word(self) -> Result<ShellState, ShellParseError> {
        if !self.word_started {
            Ok(self)
        } else if self.word_count >= MAX_POLICY_WORDS {
            Err(ShellParseError::TooComplex)
        } else {
            Ok(
                ShellState {
                    words: self.words.push(self.word),
                    word: Seq::empty(),
                    word_started: false,
                    word_count: self.word_count + 1,
                    ..self
                },
            )
        }
    }

    /// The command that is being read ends here.
    pub open spec fn end_command(self) -> Result<ShellState, ShellParseError> {
        if self.words.len() == 0 {
            Err(ShellParseError::Malformed)
        } else if self.parsed.commands.len() >= MAX_SIMPLE_COMMANDS {
            Err(ShellParseError::TooComplex)
        } else {
            Ok(
                ShellState {
                    parsed: ParsedView {
                        commands: self.parsed.commands.push(self.words),
                        ..self.parsed
                    },
                    words: Seq::empty(),
                    ..self
                },
            )
        }
    }

    /// The word and then the command end here.
    pub open spec fn end_word_and_command(self) -> Result<ShellState, ShellParseError> {
        match self.end_word() {
            Err(error) => Err(error),
            Ok(state) => state.end_command(),
        }
    }

    /// Inside single quotes every character but the closing quote is literal.
    pub open spec fn step_single(self, character: char) -> ShellState {
        if character == '\'' {
            self.in_quote(Quote::Unquoted)
        } else {
            self.with_char(character)
        }
    }

    /// Inside double quotes a backslash protects `$`, a backquote, `"` and
    /// itself, joins lines, and is literal before anything else.
    pub open spec fn step_double(self, character: char, next: Option<char>) -> (ShellState, int) {
        if character == '"' {
            (ShellState { quote: Quote::Unquoted, ..self }, 1)
        } else if character == '\\' {
            match next {
                None => (self.with_char('\\').unclassified(), 1),
                Some(escaped) => if escaped == '$' || escaped == '`' || escaped == '"' || escaped
                    == '\\' {
                    (self.with_char(escaped), 2)
                } else if escaped == '\n' {
                    (self, 2)
                } else {
                    (self.with_char('\\').with_char(escaped), 2)
                },
            }
        } else if character == '$' || character == '`' {
            (self.dynamic().with_char(character), 1)
        } else {
            (self.with_char(character), 1)
        }
    }

    /// A backslash outside quotes protects the character behind it, and joins
    /// two lines.
    pub open spec fn step_escape(self, next: Option<char>) -> (ShellState, int) {
        match next {
            None => (self.with_char('\\').unclassified(), 1),
            Some(escaped) => if escaped == '\n' {
                (self, 2)
            } else {
                (self.with_char(escaped), 2)
            },
        }
    }

    /// A character between commands: `&`, `|`, `;` or the end of a line.
    pub open spec fn step_separator(self, character: char, next: Option<char>) -> Result<
        (ShellState, int),
        ShellParseError,
    > {
        if character == '&' {
            match self.end_word_and_command() {
                Err(error) => Err(error),
                Ok(state) => if next == Some('&') {
                    Ok((state.following(true), 2))
                } else {
                    Ok((state.in_background().following(false), 1))
                },
            }
        } else if character == '|' {
            match self.end_word_and_command() {
                Err(error) => Err(error),
                Ok(state) => Ok(
                    (
                        state.following(true),
                        if next == Some('|') {
                            2
                        } else {
                            1
                        },
                    ),
                ),
            }
        } else if character == ';' {
            match self.end_word_and_command() {
                Err(error) => Err(error),
                Ok(state) => Ok((state.following(false), 1)),
            }
        } else {
            match self.end_word() {
                Err(error) => Err(error),
                Ok(state) => if state.words.len() == 0 {
                    Ok((state.following(false), 1))
                } else {
                    match state.end_command() {
                        Err(error) => Err(error),
                        Ok(ended) => Ok((ended.following(false), 1)),
                    }
                },
            }
        }
    }

    /// Outside quotes: how the state goes on, and over how many characters.
    pub open spec fn step_plain(self, character: char, next: Option<char>) -> Result<
        (ShellState, int),
        ShellParseError,
    > {
        if character == '\'' {
            Ok((self.in_quote(Quote::Single), 1))
        } else if character == '"' {
            Ok((self.in_quote(Quote::Double), 1))
        } else if character == '\\' {
            Ok(self.step_escape(next))
        } else if is_expansion(character) {
            Ok((self.dynamic().with_char(character), 1))
        } else if is_pattern(character) {
            Ok((self.pathname().with_char(character), 1))
        } else if character == '>' || character == '<' {
            match self.end_word() {
                Err(error) => Err(error),
                Ok(state) => Ok((state.redirected(), 1)),
            }
        } else if is_separator(character) {
            self.step_separator(character, next)
        } else if character == ' ' || character == '\t' {
            match self.end_word() {
                Err(error) => Err(error),
                Ok(state) => Ok((state, 1)),
            }
        } else {
            Ok((self.with_char(character), 1))
        }
    }

    /// How one character, seen with the one behind it, changes the state.
    pub open spec fn step(self, character: char, next: Option<char>) -> Result<
        (ShellState, int),
        ShellParseError,
    > {
        match self.quote {
            Quote::Single => Ok((self.step_single(character), 1)),
            Quote::Double => Ok(self.step_double(character, next)),
            Quote::Unquoted => self.step_plain(character, next),
        }
    }

    /// Whether `character` begins a comment here.
    pub open spec fn begins_comment(self, character: char) -> bool {
        self.quote == Quote::Unquoted && character == '#' && !self.word_started
    }

    /// What the line holds when it ends here.
    pub open spec fn finish(self) -> Result<ParsedView, ShellParseError> {
        if self.quote != Quote::Unquoted {
            Err(ShellParseError::Malformed)
        } else {
            match self.end_word() {
                Err(error) => Err(error),
                Ok(state) => if state.words.len() > 0 {
                    match state.end_command() {
                        Err(error) => Err(error),
                        Ok(ended) => Ok(ended.parsed),
                    }
                } else if state.parsed.commands.len() == 0 || state.requires_following_command {
                    Err(ShellParseError::Malformed)
                } else {
                    Ok(state.parsed)
                },
            }
        }
    }
}

/// Characters that begin or delimit a dynamic expansion outside quotes.
pub open spec fn is_expansion(character: char) -> bool {
    character == '$' || character == '`' || character == '(' || character == ')' || character == '{'
        || character == '}'
}

/// Characters of a pathname pattern.
pub open spec fn is_pattern(character: char) -> bool {
    character == '*' || character == '?' || character == '['
}

/// Characters that separate commands outside quotes.
pub open spec fn is_separator(character: char) -> bool {
    character == '&' || character == '|' || character == ';' || character == '\n'
}

/// The character at `index`, where there is one.
pub open spec fn char_at(line: Seq<char>, index: int) -> Option<char> {
    if 0 <= index < line.len() {
        Some(line[index])
    } else {
        None
    }
}

/// The reading of `line[at..]` from `state`.
pub open spec fn parse_from(line: Seq<char>, at: int, state: ShellState) -> Result<
    ParsedView,
    ShellParseError,
>
    decreases line.len() - at,
{
    if at < 0 || at >= line.len() {
        state.finish()
    } else if state.begins_comment(line[at]) {
        state.commented().finish()
    } else {
        match state.step(line[at], char_at(line, at + 1)) {
            Err(error) => Err(error),
            Ok((next, width)) => if width >= 1 {
                parse_from(line, at + width, next)
            } else {
                Err(ShellParseError::Malformed)
            },
        }
    }
}

/// The reading of a whole command line.
pub open spec fn parse(line: Seq<char>) -> Result<ParsedView, ShellParseError> {
    parse_from(line, 0, ShellState::initial())
}

/// The number of words in a sequence of commands.
pub open spec fn total_words(commands: Seq<Seq<Seq<char>>>) -> nat
    decreases commands.len(),
{
    if commands.len() == 0 {
        0
    } else {
        total_words(commands.drop_last()) + commands.last().len()
    }
}

/// A reading within the limits: at least one command, none of them empty, and
/// no more commands or words than the policy looks at.
pub open spec fn within_limits(parsed: ParsedView) -> bool {
    &&& 1 <= parsed.commands.len() <= MAX_SIMPLE_COMMANDS
    &&& total_words(parsed.commands) <= MAX_POLICY_WORDS
    &&& forall|i: int| 0 <= i < parsed.commands.len() ==> (#[trigger] parsed.commands[i]).len() > 0
}

impl ShellState {
    /// What every state of the reader satisfies.
    pub open spec fn well_formed(self) -> bool {
        &&& self.parsed.commands.len() <= MAX_SIMPLE_COMMANDS
        &&& self.word_count == total_words(self.parsed.commands) + self.words.len()
        &&& self.word_count <= MAX_POLICY_WORDS
        &&& forall|i: int|
            0 <= i < self.parsed.commands.len() ==> (#[trigger] self.parsed.commands[i]).len() > 0
    }

    proof fn lemma_end_word(self)
        requires
            self.well_formed(),
        ensures
            self.end_word() matches Ok(state) ==> state.well_formed(),
    {
    }

    proof fn lemma_end_command(self)
        requires
            self.well_formed(),
        ensures
            self.end_command() matches Ok(state) ==> state.well_formed()
                && state.parsed.commands.len() > 0,
    {
        if let Ok(state) = self.end_command() {
            assert(state.parsed.commands.drop_last() == self.parsed.commands);
        }
    }

    proof fn lemma_step(self, character: char, next: Option<char>)
        requires
            self.well_formed(),
        ensures
            self.step(character, next) matches Ok((state, width)) ==> state.well_formed() && width
                >= 1,
    {
        self.lemma_end_word();
        if let Ok(state) = self.end_word() {
            state.lemma_end_command();
        }
    }

    proof fn lemma_finish(self)
        requires
            self.well_formed(),
        ensures
            self.finish() matches Ok(parsed) ==> within_limits(parsed),
    {
        self.lemma_end_word();
        if let Ok(state) = self.end_word() {
            state.lemma_end_command();
        }
    }
}

proof fn lemma_parse_from_within_limits(line: Seq<char>, at: int, state: ShellState)
    requires
        state.well_formed(),
    ensures
        parse_from(line, at, state) matches Ok(parsed) ==> within_limits(parsed),
    decreases line.len() - at,
{
    state.lemma_finish();
    state.commented().lemma_finish();
    if 0 <= at < line.len() && !state.begins_comment(line[at]) {
        state.lemma_step(line[at], char_at(line, at + 1));
        if let Ok((next, width)) = state.step(line[at], char_at(line, at + 1)) {
            lemma_parse_from_within_limits(line, at + width, next);
        }
    }
}

/// Every line that can be read holds between one and [`MAX_SIMPLE_COMMANDS`]
/// commands, none of them empty, with at most [`MAX_POLICY_WORDS`] words in all.
pub proof fn law_readings_are_bounded(line: Seq<char>)
    ensures
        parse(line) matches Ok(parsed) ==> within_limits(parsed),
{
    lemma_parse_from_within_limits(line, 0, ShellState::initial());
}

/// A word between single quotes.
pub open spec fn quoted(word: Seq<char>) -> Seq<char> {
    seq!['\''] + word + seq!['\'']
}

/// Words between single quotes, each but the first behind a blank.
pub open spec fn quoted_line(words: Seq<Seq<char>>) -> Seq<char>
    decreases words.len(),
{
    if words.len() == 0 {
        Seq::empty()
    } else if words.len() == 1 {
        quoted(words[0])
    } else {
        quoted_line(words.drop_last()) + seq![' '] + quoted(words.last())
    }
}

/// What is read of a line does not depend on what stands before the reader.
pub proof fn lemma_parse_from_shift(line: Seq<char>, at: int, state: ShellState, from: int)
    requires
        0 <= from <= at,
        from <= line.len(),
    ensures
        parse_from(line, at, state) == parse_from(line.skip(from), at - from, state),
    decreases line.len() - at,
{
    let rest = line.skip(from);
    if at < line.len() {
        assert(rest[at - from] == line[at]);
        assert(char_at(line, at + 1) == char_at(rest, at - from + 1));
        if !state.begins_comment(line[at]) {
            if let Ok((next, width)) = state.step(line[at], char_at(line, at + 1)) {
                if width >= 1 {
                    lemma_parse_from_shift(line, at + width, next, from);
                }
            }
        }
    }
}

/// Reading on inside single quotes up to the closing one.
proof fn lemma_single_quoted_rest(word: Seq<char>, rest: Seq<char>, state: ShellState)
    requires
        !word.contains('\''),
        state.quote == Quote::Single,
        state.word_started,
    ensures
        parse_from(word + seq!['\''] + rest, 0, state) == parse_from(
            rest,
            0,
            (ShellState { word: state.word + word, quote: Quote::Unquoted, ..state }),
        ),
    decreases word.len(),
{
    let line = word + seq!['\''] + rest;
    if word.len() == 0 {
        assert(line[0] == '\'');
        lemma_parse_from_shift(line, 1, state.in_quote(Quote::Unquoted), 1);
        assert(line.skip(1) == rest);
        assert(state.word + word == state.word);
    } else {
        assert(line[0] == word[0]);
        assert(word.contains(word[0]));
        let next = state.with_char(word[0]);
        lemma_parse_from_shift(line, 1, next, 1);
        let tail = word.skip(1);
        assert(line.skip(1) == tail + seq!['\''] + rest);
        assert forall|i: int| 0 <= i < tail.len() implies tail[i] != '\'' by {
            assert(word.contains(word[i + 1]));
        }
        lemma_single_quoted_rest(tail, rest, next);
        assert(next.word + tail == state.word + word);
    }
}

/// Reading a quoted word from between words.
proof fn lemma_quoted_word(word: Seq<char>, rest: Seq<char>, state: ShellState)
    requires
        !word.contains('\''),
        state.quote == Quote::Unquoted,
        !state.word_started,
        state.word.len() == 0,
    ensures
        parse_from(quoted(word) + rest, 0, state) == parse_from(
            rest,
            0,
            (ShellState { word, word_started: true, ..state }),
        ),
{
    let line = quoted(word) + rest;
    assert(line[0] == '\'');
    let inner = state.in_quote(Quote::Single);
    lemma_parse_from_shift(line, 1, inner, 1);
    assert(line.skip(1) == word + seq!['\''] + rest);
    lemma_single_quoted_rest(word, rest, inner);
    assert(state.word + word == word);
}

/// The state between words after the quoted `words`, the last still open.
proof fn lemma_quoted_line(words: Seq<Seq<char>>, rest: Seq<char>)
    requires
        1 <= words.len() <= MAX_POLICY_WORDS,
        forall|i: int| 0 <= i < words.len() ==> !(#[trigger] words[i]).contains('\''),
    ensures
        parse_from(quoted_line(words) + rest, 0, ShellState::initial()) == parse_from(
            rest,
            0,
            (ShellState {
                words: words.drop_last(),
                word_count: (words.len() - 1) as nat,
                word: words.last(),
                word_started: true,
                ..ShellState::initial()
            }),
        ),
    decreases words.len(),
{
    let initial = ShellState::initial();
    if words.len() == 1 {
        lemma_quoted_word(words[0], rest, initial);
        assert(words.drop_last() == Seq::<Seq<char>>::empty());
    } else {
        let earlier = words.drop_last();
        let tail = seq![' '] + (quoted(words.last()) + rest);
        assert(quoted_line(words) + rest == quoted_line(earlier) + tail);
        lemma_quoted_line(earlier, tail);
        let open = ShellState {
            words: earlier.drop_last(),
            word_count: (earlier.len() - 1) as nat,
            word: earlier.last(),
            word_started: true,
            ..initial
        };
        let ended = ShellState {
            words: earlier,
            word_count: earlier.len(),
            word: Seq::empty(),
            word_started: false,
            ..initial
        };
        assert(earlier.drop_last().push(earlier.last()) == earlier);
        assert(tail[0] == ' ');
        assert(open.step(' ', char_at(tail, 1)) == Ok::<(ShellState, int), ShellParseError>(
            (ended, 1int),
        ));
        lemma_parse_from_shift(tail, 1, ended, 1);
        assert(tail.skip(1) == quoted(words.last()) + rest);
        lemma_quoted_word(words.last(), rest, ended);
    }
}

/// A line of words between single quotes is read as one command of exactly
/// those words, whatever else they hold, with no other syntax in it.
pub proof fn law_quoted_words_are_read_back(words: Seq<Seq<char>>)
    requires
        1 <= words.len() <= MAX_POLICY_WORDS,
        forall|i: int| 0 <= i < words.len() ==> !(#[trigger] words[i]).contains('\''),
    ensures
        parse(quoted_line(words)) == Ok::<ParsedView, ShellParseError>(
            ParsedView { commands: seq![words], ..ShellState::initial().parsed },
        ),
{
    assert(quoted_line(words) + Seq::<char>::empty() == quoted_line(words));
    lemma_quoted_line(words, Seq::empty());
    assert(words.drop_last().push(words.last()) == words);
    assert(Seq::<Seq<Seq<char>>>::empty().push(words) == seq![words]);
}

struct ShellParser {
    parsed: ParsedShellCommand,
    words: Vec<String>,
    word_count: usize,
    word: String,
    word_started: bool,
    quote: Quote,
    requires_following_command: bool,
}

impl View for ShellParser {
    type V = ShellState;

    closed spec fn view(&self) -> ShellState {
        ShellState {
            parsed: self.parsed@,
            words: text::texts(self.words@),
            word_count: self.word_count as nat,
            word: self.word@,
            word_started: self.word_started,
            quote: self.quote,
            requires_following_command: self.requires_following_command,
        }
    }
}

impl ShellParser {
    fn new() -> (parser: ShellParser)
        ensures
            parser@ == ShellState::initial(),
    {
        let parser = ShellParser {
            parsed: ParsedShellCommand {
                commands: Vec::new(),
                has_background: false,
                has_redirection: false,
                has_dynamic_expansion: false,
                has_pathname_expansion: false,
                has_comment: false,
                has_unclassified_syntax: false,
            },
            words: Vec::new(),
            word_count: 0,
            word: String::new(),
            word_started: false,
            quote: Quote::Unquoted,
            requires_following_command: false,
        };
        assert(text::texts(parser.words@) =~= Seq::<Seq<char>>::empty());
        assert(command_texts(parser.parsed.commands@) =~= Seq::<Seq<Seq<char>>>::empty());
        parser
    }

    fn push_char(&mut self, character: char)
        ensures
            final(self)@ == old(self)@.with_char(character),
    {
        self.word.push(character);
        self.word_started = true;
    }

    /// Ends the word that is being read, where one has begun.
    fn push_word(&mut self) -> (result: Result<(), ShellParseError>)
        ensures
            match result {
                Ok(()) => old(self)@.end_word() == Ok::<ShellState, ShellParseError>(final(self)@),
                Err(error) => old(self)@.end_word() == Err::<ShellState, ShellParseError>(error),
            },
    {
        if self.word_started {
            if self.word_count >= MAX_POLICY_WORDS {
                return Err(ShellParseError::TooComplex);
            }
            let mut word = String::new();
            std::mem::swap(&mut word, &mut self.word);
            self.words.push(word);
            self.word_started = false;
            self.word_count += 1;
            assert(text::texts(self.words@) == text::texts(old(self).words@).push(word@));
        }
        Ok(())
    }

    /// Ends the command that is being read.
    fn push_command(&mut self) -> (result: Result<(), ShellParseError>)
        ensures
            match result {
                Ok(()) => old(self)@.end_command() == Ok::<ShellState, ShellParseError>(
                    final(self)@,
                ),
                Err(error) => old(self)@.end_command() == Err::<ShellState, ShellParseError>(error),
            },
    {
        assert(text::texts(self.words@).len() == self.words@.len());
        assert(command_texts(self.parsed.commands@).len() == self.parsed.commands@.len());
        if self.words.len() == 0 {
            return Err(ShellParseError::Malformed);
        }
        if self.parsed.commands.len() >= MAX_SIMPLE_COMMANDS {
            return Err(ShellParseError::TooComplex);
        }
        let mut words: Vec<String> = Vec::new();
        std::mem::swap(&mut words, &mut self.words);
        self.parsed.commands.push(words);
        assert(command_texts(self.parsed.commands@) == command_texts(
            old(self).parsed.commands@,
        ).push(text::texts(words@)));
        assert(text::texts(self.words@) =~= Seq::<Seq<char>>::empty());
        Ok(())
    }

    fn push_word_and_command(&mut self) -> (result: Result<(), ShellParseError>)
        ensures
            match result {
                Ok(()) => old(self)@.end_word_and_command() == Ok::<ShellState, ShellParseError>(
                    final(self)@,
                ),
                Err(error) => old(self)@.end_word_and_command() == Err::<
                    ShellState,
                    ShellParseError,
                >(error),
            },
    {
        match self.push_word() {
            Err(error) => Err(error),
            Ok(()) => self.push_command(),
        }
    }

    fn step_single(&mut self, character: char)
        ensures
            final(self)@ == old(self)@.step_single(character),
    {
        if character == '\'' {
            self.quote = Quote::Unquoted;
            self.word_started = true;
        } else {
            self.push_char(character);
        }
    }

    fn step_double(&mut self, character: char, next: Option<char>) -> (width: usize)
        ensures
            old(self)@.step_double(character, next) == (final(self)@, width as int),
            1 <= width <= 2,
    {
        if character == '"' {
            self.quote = Quote::Unquoted;
            1
        } else if character == '\\' {
            match next {
                None => {
                    self.push_char('\\');
                    self.parsed.has_unclassified_syntax = true;
                    1
                },
                Some(escaped) => {
                    if escaped == '$' || escaped == '`' || escaped == '"' || escaped == '\\' {
                        self.push_char(escaped);
                    } else if escaped == '\n' {
                    } else {
                        self.push_char('\\');
                        self.push_char(escaped);
                    }
                    2
                },
            }
        } else if character == '$' || character == '`' {
            self.parsed.has_dynamic_expansion = true;
            self.push_char(character);
            1
        } else {
            self.push_char(character);
            1
        }
    }

    fn enter_quote(&mut self, quote: Quote)
        ensures
            final(self)@ == old(self)@.in_quote(quote),
    {
        self.quote = quote;
        self.word_started = true;
    }

    fn push_escaped(&mut self, next: Option<char>) -> (width: usize)
        ensures
            old(self)@.step_escape(next) == (final(self)@, width as int),
            1 <= width <= 2,
    {
        match next {
            None => {
                self.push_char('\\');
                self.parsed.has_unclassified_syntax = true;
                1
            },
            Some(escaped) => {
                if escaped != '\n' {
                    self.push_char(escaped);
                }
                2
            },
        }
    }

    fn push_expansion(&mut self, character: char)
        ensures
            final(self)@ == old(self)@.dynamic().with_char(character),
    {
        self.parsed.has_dynamic_expansion = true;
        self.push_char(character);
    }

    fn push_pattern(&mut self, character: char)
        ensures
            final(self)@ == old(self)@.pathname().with_char(character),
    {
        self.parsed.has_pathname_expansion = true;
        self.push_char(character);
    }

    fn push_redirection(&mut self) -> (result: Result<usize, ShellParseError>)
        ensures
            match result {
                Ok(width) => match old(self)@.end_word() {
                    Ok(state) => final(self)@ == state.redirected() && width == 1,
                    Err(_) => false,
                },
                Err(error) => old(self)@.end_word() == Err::<ShellState, ShellParseError>(error),
            },
    {
        match self.push_word() {
            Err(error) => Err(error),
            Ok(()) => {
                self.parsed.has_redirection = true;
                Ok(1)
            },
        }
    }

    fn step_separator(&mut self, character: char, next: Option<char>) -> (result: Result<
        usize,
        ShellParseError,
    >)
        requires
            is_separator(character),
        ensures
            match result {
                Ok(width) => old(self)@.step_separator(character, next) == Ok::<
                    (ShellState, int),
                    ShellParseError,
                >((final(self)@, width as int)) && 1 <= width <= 2,
                Err(error) => old(self)@.step_separator(character, next) == Err::<
                    (ShellState, int),
                    ShellParseError,
                >(error),
            },
    {
        if character == '\n' {
            if let Err(error) = self.push_word() {
                return Err(error);
            }
            assert(text::texts(self.words@).len() == self.words@.len());
            if self.words.len() > 0 {
                if let Err(error) = self.push_command() {
                    return Err(error);
                }
            }
            self.requires_following_command = false;
            return Ok(1);
        }
        if let Err(error) = self.push_word_and_command() {
            return Err(error);
        }
        if character == '&' {
            if let Some('&') = next {
                self.requires_following_command = true;
                Ok(2)
            } else {
                self.parsed.has_background = true;
                self.requires_following_command = false;
                Ok(1)
            }
        } else if character == '|' {
            self.requires_following_command = true;
            if let Some('|') = next {
                Ok(2)
            } else {
                Ok(1)
            }
        } else {
            self.requires_following_command = false;
            Ok(1)
        }
    }

    fn step_plain(&mut self, character: char, next: Option<char>) -> (result: Result<
        usize,
        ShellParseError,
    >)
        ensures
            match result {
                Ok(width) => old(self)@.step_plain(character, next) == Ok::<
                    (ShellState, int),
                    ShellParseError,
                >((final(self)@, width as int)) && 1 <= width <= 2,
                Err(error) => old(self)@.step_plain(character, next) == Err::<
                    (ShellState, int),
                    ShellParseError,
                >(error),
            },
    {
        if character == '\'' {
            self.enter_quote(Quote::Single);
            Ok(1)
        } else if character == '"' {
            self.enter_quote(Quote::Double);
            Ok(1)
        } else if character == '\\' {
            let width: usize = self.push_escaped(next);
            Ok(width)
        } else if character == '$' || character == '`' || character == '(' || character == ')'
            || character == '{' || character == '}' {
            self.push_expansion(character);
            Ok(1)
        } else if character == '*' || character == '?' || character == '[' {
            self.push_pattern(character);
            Ok(1)
        } else if character == '>' || character == '<' {
            self.push_redirection()
        } else if character == '&' || character == '|' || character == ';' || character == '\n' {
            self.step_separator(character, next)
        } else if character == ' ' || character == '\t' {
            match self.push_word() {
                Err(error) => Err(error),
                Ok(()) => Ok(1),
            }
        } else {
            self.push_char(character);
            Ok(1)
        }
    }

    fn step(&mut self, character: char, next: Option<char>) -> (result: Result<
        usize,
        ShellParseError,
    >)
        ensures
            match result {
                Ok(width) => old(self)@.step(character, next) == Ok::<
                    (ShellState, int),
                    ShellParseError,
                >((final(self)@, width as int)) && 1 <= width <= 2,
                Err(error) => old(self)@.step(character, next) == Err::<
                    (ShellState, int),
                    ShellParseError,
                >(error),
            },
    {
        match self.quote {
            Quote::Single => {
                self.step_single(character);
                Ok(1)
            },
            Quote::Double => {
                let width: usize = self.step_double(character, next);
                Ok(width)
            },
            Quote::Unquoted => self.step_plain(character, next),
        }
    }

    fn finish(self) -> (result: Result<ParsedShellCommand, ShellParseError>)
        ensures
            match result {
                Ok(parsed) => self@.finish() == Ok::<ParsedView, ShellParseError>(parsed@),
                Err(error) => self@.finish() == Err::<ParsedView, ShellParseError>(error),
            },
    {
        let mut parser = self;
        if parser.quote != Quote::Unquoted {
            return Err(ShellParseError::Malformed);
        }
        match parser.push_word() {
            Err(error) => {
                return Err(error);
            },
            Ok(()) => {},
        }
        assert(text::texts(parser.words@).len() == parser.words@.len());
        assert(command_texts(parser.parsed.commands@).len() == parser.parsed.commands@.len());
        if parser.words.len() > 0 {
            match parser.push_command() {
                Err(error) => {
                    return Err(error);
                },
                Ok(()) => {},
            }
            return Ok(parser.parsed);
        }
        if parser.parsed.commands.len() == 0 || parser.requires_following_command {
            return Err(ShellParseError::Malformed);
        }
        Ok(parser.parsed)
    }
}

impl ParsedShellCommand {
    /// Reads a command line.
    pub fn parse(command: &str) -> (result: Result<ParsedShellCommand, ShellParseError>)
        ensures
            match result {
                Ok(parsed) => parse(command@) == Ok::<ParsedView, ShellParseError>(parsed@),
                Err(error) => parse(command@) == Err::<ParsedView, ShellParseError>(error),
            },
    {
        let line = chars_of(command);
        let mut parser = ShellParser::new();
        let mut at: usize = 0;
        while at < line.len()
            invariant
                at <= line@.len() + 1,
                line@.len() <= usize::MAX,
                line@ == command@,
                parse(command@) == parse_from(command@, at as int, parser@),
            decreases line@.len() + 1 - at,
        {
            let character = line[at];
            if parser.quote == Quote::Unquoted && character == '#' && !parser.word_started {
                parser.parsed.has_comment = true;
                return parser.finish();
            }
            let next = if at + 1 < line.len() {
                Some(line[at + 1])
            } else {
                None
            };
            match parser.step(character, next) {
                Err(error) => {
                    return Err(error);
                },
                Ok(width) => {
                    if width > line.len() - at {
                        return parser.finish();
                    }
                    at += width;
                },
            }
        }
        parser.finish()
    }
}

} // verus!
