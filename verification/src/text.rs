//! Text as sequences of characters: the small set of string operations that
//! the rest of the crate is written in.

use vstd::prelude::*;

verus! {

/// `String::push` appends one character.
pub assume_specification[ String::push ](s: &mut String, c: char)
    ensures
        final(s)@ == old(s)@.push(c),
;

/// `String::push_str` appends a whole text.
pub assume_specification[ String::push_str ](s: &mut String, t: &str)
    ensures
        final(s)@ == old(s)@ + t@,
;

/// `==` on two texts compares their characters.
pub assume_specification[ <str as PartialEq<str>>::eq ](s: &str, t: &str) -> (b: bool)
    ensures
        b == (s@ == t@),
;

/// Whether two texts hold the same characters.
pub fn same_text(left: &str, right: &str) -> (equal: bool)
    ensures
        equal == (left@ == right@),
{
    *left == *right
}

/// The characters of a text, in order.
pub fn chars_of(text: &str) -> (chars: Vec<char>)
    ensures
        chars@ == text@,
{
    let mut chars: Vec<char> = Vec::new();
    for character in iter: text.chars()
        invariant
            chars@ == text@.take(iter.index() as int),
            iter.seq() == text@,
    {
        chars.push(character);
    }
    chars
}

/// The length of a text in bytes of UTF-8.
pub fn byte_len(text: &str) -> (length: usize)
    ensures
        length == vstd::utf8::encode_utf8(text@).len(),
{
    text.as_bytes().len()
}

/// The text made of `chars[from..to]`.
pub fn text_of(chars: &[char], from: usize, to: usize) -> (text: String)
    requires
        from <= to <= chars@.len(),
    ensures
        text@ == chars@.subrange(from as int, to as int),
{
    let mut text = String::new();
    let mut index: usize = from;
    while index < to
        invariant
            from <= index <= to <= chars@.len(),
            text@ == chars@.subrange(from as int, index as int),
        decreases to - index,
    {
        text.push(chars[index]);
        index += 1;
    }
    text
}

/// Whether `text` begins with `prefix`.
pub fn starts_with(text: &str, prefix: &str) -> (result: bool)
    ensures
        result == prefix@.is_prefix_of(text@),
{
    let text_chars = chars_of(text);
    let prefix_chars = chars_of(prefix);
    if prefix_chars.len() > text_chars.len() {
        return false;
    }
    let mut index: usize = 0;
    while index < prefix_chars.len()
        invariant
            index <= prefix_chars@.len() <= text_chars@.len(),
            prefix_chars@ == prefix@,
            text_chars@ == text@,
            forall|i: int| 0 <= i < index ==> prefix_chars@[i] == text_chars@[i],
        decreases prefix_chars@.len() - index,
    {
        if prefix_chars[index] != text_chars[index] {
            assert(prefix_chars@[index as int] != text_chars@.subrange(
                0,
                prefix_chars@.len() as int,
            )[index as int]);
            return false;
        }
        index += 1;
    }
    true
}

/// Whether `text` begins with the character `first`.
pub open spec fn begins_with(text: Seq<char>, first: char) -> bool {
    text.len() > 0 && text[0] == first
}

/// Executable form of [`begins_with`].
pub fn begins_with_char(text: &str, first: char) -> (result: bool)
    ensures
        result == begins_with(text@, first),
{
    let chars = chars_of(text);
    chars.len() > 0 && chars[0] == first
}

/// The position of the first `wanted` at or after `from`.
pub open spec fn first_position(text: Seq<char>, wanted: char, from: int) -> Option<int>
    decreases text.len() - from,
{
    if from < 0 || from >= text.len() {
        None
    } else if text[from] == wanted {
        Some(from)
    } else {
        first_position(text, wanted, from + 1)
    }
}

/// A first position is in range, holds the character, and nothing before it does.
pub proof fn lemma_first_position(text: Seq<char>, wanted: char, from: int)
    requires
        0 <= from,
    ensures
        match first_position(text, wanted, from) {
            Some(position) => from <= position < text.len() && text[position] == wanted && forall|
                i: int,
            |
                from <= i < position ==> text[i] != wanted,
            None => forall|i: int| from <= i < text.len() ==> text[i] != wanted,
        },
    decreases text.len() - from,
{
    if from < text.len() && text[from] != wanted {
        lemma_first_position(text, wanted, from + 1);
    }
}

/// Executable form of [`first_position`].
pub fn position_of(chars: &[char], wanted: char, from: usize) -> (position: Option<usize>)
    ensures
        match position {
            Some(found) => first_position(chars@, wanted, from as int) == Some(found as int) && from
                <= found < chars@.len(),
            None => first_position(chars@, wanted, from as int) is None,
        },
{
    let mut index: usize = from;
    while index < chars.len()
        invariant
            from <= index,
            first_position(chars@, wanted, from as int) == first_position(
                chars@,
                wanted,
                index as int,
            ),
        decreases chars@.len() - index,
    {
        if chars[index] == wanted {
            return Some(index);
        }
        index += 1;
    }
    None
}

/// Whether `text` holds the character `wanted`.
pub fn contains_char(text: &str, wanted: char) -> (result: bool)
    ensures
        result == text@.contains(wanted),
{
    let chars = chars_of(text);
    proof {
        lemma_first_position(text@, wanted, 0);
    }
    match position_of(&chars, wanted, 0) {
        Some(found) => {
            assert(text@[found as int] == wanted);
            true
        },
        None => false,
    }
}

/// The part of `text` before its first `separator`, or all of it.
pub open spec fn before(text: Seq<char>, separator: char) -> Seq<char> {
    match first_position(text, separator, 0) {
        Some(position) => text.take(position),
        None => text,
    }
}

/// The part of `text` after its first `separator`, where it has one.
pub open spec fn after(text: Seq<char>, separator: char) -> Option<Seq<char>> {
    match first_position(text, separator, 0) {
        Some(position) => Some(text.skip(position + 1)),
        None => None,
    }
}

/// Splits a text at its first `separator`: what stands before it, and what
/// follows it where there is one.
pub fn split_at_first(text: &str, separator: char) -> (parts: (String, Option<String>))
    ensures
        parts.0@ == before(text@, separator),
        match parts.1 {
            Some(rest) => after(text@, separator) == Some(rest@),
            None => after(text@, separator) is None,
        },
{
    let chars = chars_of(text);
    let length: usize = chars.len();
    match position_of(&chars, separator, 0) {
        Some(found) => {
            let head = text_of(&chars, 0, found);
            let tail = text_of(&chars, found + 1, length);
            assert(tail@ == text@.skip(found + 1));
            (head, Some(tail))
        },
        None => {
            let whole = text_of(&chars, 0, chars.len());
            (whole, None)
        },
    }
}

/// The pieces of `text[from..]` between its `separator`s; a text without any
/// is one piece.
pub open spec fn split_from(text: Seq<char>, separator: char, from: int) -> Seq<Seq<char>>
    decreases text.len() - from,
{
    match first_position(text, separator, from) {
        Some(position) => if from <= position < text.len() {
            seq![text.subrange(from, position)] + split_from(text, separator, position + 1)
        } else {
            Seq::empty()
        },
        None => seq![text.skip(from)],
    }
}

/// The pieces of `text` between its `separator`s.
pub open spec fn split(text: Seq<char>, separator: char) -> Seq<Seq<char>> {
    split_from(text, separator, 0)
}

/// The views of a sequence of texts.
pub open spec fn texts(words: Seq<String>) -> Seq<Seq<char>> {
    words.map_values(|word: String| word@)
}

/// What a sequence holds after one more item.
pub proof fn lemma_contains_after_push<A>(items: Seq<A>, item: A, wanted: A)
    ensures
        items.push(item).contains(wanted) == (items.contains(wanted) || item == wanted),
{
    if items.contains(wanted) {
        let i = choose|i: int| 0 <= i < items.len() && items[i] == wanted;
        assert(items.push(item)[i] == wanted);
    }
    assert(items.push(item)[items.len() as int] == item);
}

/// Executable form of [`split`].
pub fn split_text(text: &str, separator: char) -> (pieces: Vec<String>)
    ensures
        texts(pieces@) == split(text@, separator),
        pieces@.len() > 0,
{
    let chars = chars_of(text);
    let length: usize = chars.len();
    let mut pieces: Vec<String> = Vec::new();
    let mut start: usize = 0;
    loop
        invariant
            start <= chars@.len() == length,
            chars@ == text@,
            texts(pieces@) + split_from(text@, separator, start as int) == split(text@, separator),
        decreases chars@.len() - start,
    {
        match position_of(&chars, separator, start) {
            Some(found) => {
                let piece = text_of(&chars, start, found);
                let ghost earlier = pieces@;
                pieces.push(piece);
                assert(texts(pieces@) == texts(earlier).push(piece@));
                assert(texts(earlier) + (seq![piece@] + split_from(
                    text@,
                    separator,
                    found + 1,
                )) == texts(pieces@) + split_from(text@, separator, found + 1));
                start = found + 1;
            },
            None => {
                let piece = text_of(&chars, start, chars.len());
                assert(piece@ == text@.skip(start as int));
                let ghost earlier = pieces@;
                pieces.push(piece);
                assert(texts(pieces@) == texts(earlier).push(piece@));
                assert(texts(pieces@) == texts(earlier) + seq![piece@]);
                return pieces;
            },
        }
    }
}

/// The character that writes the digit `value`.
pub open spec fn digit_char(value: nat) -> char
    recommends
        value < 16,
{
    if value < 10 {
        (('0' as u32) + value) as char
    } else {
        (('a' as u32) + (value - 10)) as char
    }
}

/// `value` written in decimal.
pub open spec fn decimal_text(value: nat) -> Seq<char>
    decreases value,
{
    if value < 10 {
        seq![digit_char(value)]
    } else {
        decimal_text(value / 10).push(digit_char(value % 10))
    }
}

/// Executable form of [`digit_char`].
pub fn digit(value: u8) -> (character: char)
    requires
        value < 16,
    ensures
        character == digit_char(value as nat),
{
    if value < 10 {
        (48 + value) as char
    } else {
        (87 + value) as char
    }
}

/// Executable form of [`decimal_text`].
pub fn decimal(value: u128) -> (text: String)
    ensures
        text@ == decimal_text(value as nat),
    decreases value,
{
    if value < 10 {
        let mut text = String::new();
        text.push(digit(value as u8));
        assert(text@ == seq![digit_char(value as nat)]);
        text
    } else {
        let mut text = decimal(value / 10);
        text.push(digit((value % 10) as u8));
        text
    }
}

/// `text` with `'0'`s in front of it up to `width` characters.
pub open spec fn zero_padded(text: Seq<char>, width: nat) -> Seq<char> {
    if text.len() >= width {
        text
    } else {
        Seq::new((width - text.len()) as nat, |i: int| '0') + text
    }
}

/// Executable form of [`zero_padded`].
pub fn pad_zeros(text: &str, width: usize) -> (padded: String)
    ensures
        padded@ == zero_padded(text@, width as nat),
{
    let chars = chars_of(text);
    let mut padded = String::new();
    if chars.len() < width {
        let missing: usize = width - chars.len();
        let mut index: usize = 0;
        while index < missing
            invariant
                index <= missing,
                padded@ == Seq::new(index as nat, |i: int| '0'),
            decreases missing - index,
        {
            padded.push('0');
            index += 1;
        }
    }
    let ghost zeros = padded@;
    padded.push_str(text);
    assert(padded@ == zero_padded(text@, width as nat)) by {
        if text@.len() >= width {
            assert(zeros == Seq::<char>::empty());
            assert(zeros + text@ == text@);
        }
    }
    padded
}

/// Whether `part` stands in `whole` at `at`.
pub open spec fn stands_at(whole: Seq<char>, part: Seq<char>, at: int) -> bool {
    0 <= at && at + part.len() <= whole.len() && whole.subrange(at, at + part.len()) == part
}

/// Whether `part` stands anywhere in `whole`.
pub open spec fn has_part(whole: Seq<char>, part: Seq<char>) -> bool {
    exists|at: int| #[trigger] stands_at(whole, part, at)
}

fn part_stands_at(whole: &Vec<char>, part: &Vec<char>, at: usize) -> (result: bool)
    requires
        at + part@.len() <= whole@.len(),
    ensures
        result == stands_at(whole@, part@, at as int),
{
    let length: usize = whole.len();
    let ghost found = whole@.subrange(at as int, at + part@.len());
    let mut index: usize = 0;
    while index < part.len()
        invariant
            index <= part@.len(),
            at + part@.len() <= whole@.len() == length,
            found == whole@.subrange(at as int, at + part@.len()),
            forall|i: int| 0 <= i < index ==> found[i] == part@[i],
        decreases part@.len() - index,
    {
        if whole[at + index] != part[index] {
            assert(found[index as int] != part@[index as int]);
            return false;
        }
        index += 1;
    }
    assert(found =~= part@);
    true
}

/// Executable form of [`has_part`].
pub fn contains_text(whole: &str, part: &str) -> (result: bool)
    ensures
        result == has_part(whole@, part@),
{
    let whole_chars = chars_of(whole);
    let part_chars = chars_of(part);
    if part_chars.len() > whole_chars.len() {
        return false;
    }
    let last: usize = whole_chars.len() - part_chars.len();
    let mut at: usize = 0;
    while at <= last
        invariant
            at <= last + 1,
            last == whole_chars@.len() - part_chars@.len(),
            whole_chars@ == whole@,
            part_chars@ == part@,
            whole_chars@.len() <= usize::MAX,
            forall|i: int| 0 <= i < at ==> !stands_at(whole@, part@, i),
        decreases last + 1 - at,
    {
        if part_stands_at(&whole_chars, &part_chars, at) {
            return true;
        }
        if at == last {
            assert forall|i: int| !stands_at(whole@, part@, i) by {
                if i > last {
                    assert(i + part@.len() > whole@.len());
                }
            }
            return false;
        }
        at += 1;
    }
    false
}

/// The text of several parts in a row.
pub open spec fn concat(parts: Seq<Seq<char>>) -> Seq<char>
    decreases parts.len(),
{
    if parts.len() == 0 {
        Seq::empty()
    } else {
        concat(parts.drop_last()) + parts.last()
    }
}

/// Three parts in a row.
pub fn concat3(first: &str, second: &str, third: &str) -> (text: String)
    ensures
        text@ == first@ + second@ + third@,
{
    let mut text = first.to_owned();
    text.push_str(second);
    text.push_str(third);
    text
}

/// Two parts in a row.
pub fn concat2(first: &str, second: &str) -> (text: String)
    ensures
        text@ == first@ + second@,
{
    let mut text = first.to_owned();
    text.push_str(second);
    text
}

/// What `{:?}` writes for a text.
pub uninterp spec fn debug_text(text: Seq<char>) -> Seq<char>;

/// The text as `str`'s `Debug` writes it: between double quotes, with the
/// characters escaped that it escapes. Which those are is left to its name.
#[verifier::external_body]
pub(crate) fn to_debug_text(text: &str) -> (result: String)
    ensures
        result@ == debug_text(text@),
{
    format!("{:?}", text)
}

/// The lines of a text: the pieces that end in a line feed, each without it and
/// without a carriage return before it, and what follows the last line feed
/// where that is not empty.
pub open spec fn lines_of(text: Seq<char>) -> Seq<Seq<char>> {
    let pieces = split(text, '\n');
    let ended = pieces.drop_last().map_values(|line: Seq<char>| without_return(line));
    if pieces.last().len() == 0 {
        ended
    } else {
        ended.push(pieces.last())
    }
}

/// A line without one carriage return at its end.
pub open spec fn without_return(line: Seq<char>) -> Seq<char> {
    if line.len() > 0 && line.last() == '\r' {
        line.drop_last()
    } else {
        line
    }
}

/// Executable form of [`without_return`].
pub fn strip_return(line: &str) -> (result: String)
    ensures
        result@ == without_return(line@),
{
    let chars = chars_of(line);
    let length: usize = chars.len();
    if length > 0 && chars[length - 1] == '\r' {
        let result = text_of(&chars, 0, length - 1);
        assert(result@ == line@.drop_last());
        result
    } else {
        line.to_owned()
    }
}

/// Executable form of [`lines_of`].
pub fn split_lines(text: &str) -> (lines: Vec<String>)
    ensures
        texts(lines@) == lines_of(text@),
{
    let pieces = split_text(text, '\n');
    let ghost views = texts(pieces@);
    assert(views.last() == pieces@.last()@);
    let count: usize = pieces.len() - 1;
    let ghost ended = views.drop_last().map_values(|line: Seq<char>| without_return(line));
    let mut lines: Vec<String> = Vec::new();
    let mut index: usize = 0;
    while index < count
        invariant
            index <= count == pieces@.len() - 1,
            views == texts(pieces@),
            ended == views.drop_last().map_values(|line: Seq<char>| without_return(line)),
            texts(lines@) == ended.take(index as int),
        decreases count - index,
    {
        let line = strip_return(pieces[index].as_str());
        assert(views.drop_last()[index as int] == pieces@[index as int]@);
        let ghost earlier = lines@;
        lines.push(line);
        assert(texts(lines@) == texts(earlier).push(line@));
        assert(ended.take(index + 1) == ended.take(index as int).push(ended[index as int]));
        index += 1;
    }
    assert(ended.take(count as int) == ended);
    if !pieces[count].as_str().is_empty() {
        let ghost earlier = lines@;
        lines.push(pieces[count].as_str().to_owned());
        assert(texts(lines@) == texts(earlier).push(pieces@[count as int]@));
    }
    lines
}

/// The characters with the Unicode property `White_Space`.
pub open spec fn is_whitespace(character: char) -> bool {
    ||| '\t' <= character <= '\r'
    ||| character == ' '
    ||| character == '\u{85}'
    ||| character == '\u{a0}'
    ||| character == '\u{1680}'
    ||| '\u{2000}' <= character <= '\u{200a}'
    ||| character == '\u{2028}'
    ||| character == '\u{2029}'
    ||| character == '\u{202f}'
    ||| character == '\u{205f}'
    ||| character == '\u{3000}'
}

/// Executable form of [`is_whitespace`].
pub fn char_is_whitespace(character: char) -> (result: bool)
    ensures
        result == is_whitespace(character),
{
    '\t' <= character && character <= '\r' || character == ' ' || character == '\u{85}' || character
        == '\u{a0}' || character == '\u{1680}' || '\u{2000}' <= character && character <= '\u{200a}'
        || character == '\u{2028}' || character == '\u{2029}' || character == '\u{202f}' || character
        == '\u{205f}' || character == '\u{3000}'
}

/// Whether a text holds nothing but white space.
pub open spec fn is_blank(text: Seq<char>) -> bool {
    forall|i: int| 0 <= i < text.len() ==> is_whitespace(#[trigger] text[i])
}

/// Executable form of [`is_blank`].
pub fn text_is_blank(text: &str) -> (result: bool)
    ensures
        result == is_blank(text@),
{
    let chars = chars_of(text);
    let mut index: usize = 0;
    while index < chars.len()
        invariant
            index <= chars@.len(),
            chars@ == text@,
            forall|i: int| 0 <= i < index ==> is_whitespace(#[trigger] text@[i]),
        decreases chars@.len() - index,
    {
        if !char_is_whitespace(chars[index]) {
            assert(!is_whitespace(text@[index as int]));
            return false;
        }
        index += 1;
    }
    true
}

/// The first place at or after `from` where `part` stands.
pub open spec fn part_position(whole: Seq<char>, part: Seq<char>, from: int) -> Option<int>
    decreases whole.len() - from,
{
    if from < 0 || from + part.len() > whole.len() {
        None
    } else if stands_at(whole, part, from) {
        Some(from)
    } else if from >= whole.len() {
        None
    } else {
        part_position(whole, part, from + 1)
    }
}

/// Executable form of [`part_position`].
pub fn position_of_part(whole: &Vec<char>, part: &Vec<char>, from: usize) -> (position: Option<
    usize,
>)
    ensures
        match position {
            Some(found) => part_position(whole@, part@, from as int) == Some(found as int) && from
                <= found && found + part@.len() <= whole@.len(),
            None => part_position(whole@, part@, from as int) is None,
        },
{
    let mut at: usize = from;
    while at <= whole.len() && part.len() <= whole.len() - at
        invariant
            from <= at,
            part_position(whole@, part@, from as int) == part_position(whole@, part@, at as int),
        decreases whole@.len() + 1 - at,
    {
        if part_stands_at(whole, part, at) {
            return Some(at);
        }
        if at >= whole.len() {
            return None;
        }
        at += 1;
    }
    None
}

/// A text without the line feeds and carriage returns at its end.
pub open spec fn without_line_ends(text: Seq<char>) -> Seq<char>
    decreases text.len(),
{
    if text.len() > 0 && (text.last() == '\r' || text.last() == '\n') {
        without_line_ends(text.drop_last())
    } else {
        text
    }
}

/// Executable form of [`without_line_ends`].
pub fn trim_line_ends(text: &str) -> (result: String)
    ensures
        result@ == without_line_ends(text@),
{
    let chars = chars_of(text);
    let mut length: usize = chars.len();
    assert(text@.take(length as int) == text@);
    while length > 0 && (chars[length - 1] == '\r' || chars[length - 1] == '\n')
        invariant
            length <= chars@.len(),
            chars@ == text@,
            without_line_ends(text@) == without_line_ends(text@.take(length as int)),
        decreases length,
    {
        assert(text@.take(length as int).drop_last() == text@.take(length - 1));
        length -= 1;
    }
    let result = text_of(&chars, 0, length);
    assert(result@ == text@.take(length as int));
    result
}

/// The words of `text[at..]` between white space, behind the word that has
/// begun.
pub open spec fn words_from(text: Seq<char>, at: int, word: Seq<char>) -> Seq<Seq<char>>
    decreases text.len() - at,
{
    if at < 0 || at >= text.len() {
        if word.len() == 0 {
            Seq::empty()
        } else {
            seq![word]
        }
    } else if is_whitespace(text[at]) {
        if word.len() == 0 {
            words_from(text, at + 1, word)
        } else {
            seq![word] + words_from(text, at + 1, Seq::empty())
        }
    } else {
        words_from(text, at + 1, word.push(text[at]))
    }
}

/// The words of a text between white space.
pub open spec fn words_of(text: Seq<char>) -> Seq<Seq<char>> {
    words_from(text, 0, Seq::empty())
}

/// Executable form of [`words_of`].
pub fn split_words(text: &str) -> (words: Vec<String>)
    ensures
        texts(words@) == words_of(text@),
{
    let chars = chars_of(text);
    let mut words: Vec<String> = Vec::new();
    let mut word = String::new();
    let mut word_len: usize = 0;
    let mut index: usize = 0;
    assert(texts(words@) + words_of(text@) == words_of(text@));
    while index < chars.len()
        invariant
            index <= chars@.len(),
            chars@ == text@,
            word_len == word@.len(),
            word_len <= index,
            texts(words@) + words_from(text@, index as int, word@) == words_of(text@),
        decreases chars@.len() - index,
    {
        if char_is_whitespace(chars[index]) {
            if word_len > 0 {
                let mut ended = String::new();
                std::mem::swap(&mut ended, &mut word);
                let ghost earlier = words@;
                words.push(ended);
                word_len = 0;
                assert(texts(words@) == texts(earlier).push(ended@));
                assert(word@ == Seq::<char>::empty());
                assert(texts(earlier) + (seq![ended@] + words_from(text@, index + 1, word@))
                    == texts(words@) + words_from(text@, index + 1, word@));
            }
        } else {
            word.push(chars[index]);
            word_len += 1;
        }
        index += 1;
    }
    let ghost earlier = words@;
    if word_len > 0 {
        words.push(word);
        assert(texts(words@) == texts(earlier).push(word@));
        assert(texts(words@) == texts(earlier) + seq![word@]);
    } else {
        assert(texts(words@) == texts(earlier) + Seq::<Seq<char>>::empty());
    }
    words
}

/// The lines of a text with their line feeds; the last one may have none.
pub open spec fn inclusive_lines(text: Seq<char>) -> Seq<Seq<char>> {
    let pieces = split(text, '\n');
    let ended = pieces.drop_last().map_values(|line: Seq<char>| line.push('\n'));
    if pieces.last().len() == 0 {
        ended
    } else {
        ended.push(pieces.last())
    }
}

/// Executable form of [`inclusive_lines`].
pub fn split_inclusive_lines(text: &str) -> (lines: Vec<String>)
    ensures
        texts(lines@) == inclusive_lines(text@),
{
    let pieces = split_text(text, '\n');
    let ghost views = texts(pieces@);
    assert(views.last() == pieces@.last()@);
    let count: usize = pieces.len() - 1;
    let ghost ended = views.drop_last().map_values(|line: Seq<char>| line.push('\n'));
    let mut lines: Vec<String> = Vec::new();
    let mut index: usize = 0;
    while index < count
        invariant
            index <= count == pieces@.len() - 1,
            views == texts(pieces@),
            ended == views.drop_last().map_values(|line: Seq<char>| line.push('\n')),
            texts(lines@) == ended.take(index as int),
        decreases count - index,
    {
        let mut line = pieces[index].as_str().to_owned();
        line.push('\n');
        assert(views.drop_last()[index as int] == pieces@[index as int]@);
        let ghost earlier = lines@;
        lines.push(line);
        assert(texts(lines@) == texts(earlier).push(line@));
        assert(ended.take(index + 1) == ended.take(index as int).push(ended[index as int]));
        index += 1;
    }
    assert(ended.take(count as int) == ended);
    if !pieces[count].as_str().is_empty() {
        let ghost earlier = lines@;
        lines.push(pieces[count].as_str().to_owned());
        assert(texts(lines@) == texts(earlier).push(pieces@[count as int]@));
    }
    lines
}

/// The value of the first `count` decimal digits.
pub open spec fn digits_value(digits: Seq<char>, count: int) -> nat
    decreases count,
{
    if count <= 0 {
        0
    } else {
        digits_value(digits, count - 1) * 10 + (digits[count - 1] as u32 - '0' as u32) as nat
    }
}

/// Whether a text is made of decimal digits alone, at least one.
pub open spec fn is_digits(text: Seq<char>) -> bool {
    text.len() > 0 && forall|i: int| 0 <= i < text.len() ==> '0' <= #[trigger] text[i] <= '9'
}

/// The number that a text writes, with a plus sign or without.
pub open spec fn usize_value(text: Seq<char>) -> Option<nat> {
    let digits = if begins_with(text, '+') {
        text.skip(1)
    } else {
        text
    };
    if is_digits(digits) && digits_value(digits, digits.len() as int) <= usize::MAX {
        Some(digits_value(digits, digits.len() as int))
    } else {
        None
    }
}

proof fn lemma_digits_value_grows(digits: Seq<char>, shorter: int, longer: int)
    requires
        is_digits(digits),
        0 <= shorter <= longer <= digits.len(),
    ensures
        digits_value(digits, shorter) <= digits_value(digits, longer),
    decreases longer - shorter,
{
    if shorter < longer {
        lemma_digits_value_grows(digits, shorter, longer - 1);
    }
}

/// Executable form of [`usize_value`].
pub fn parse_usize(text: &str) -> (value: Option<usize>)
    ensures
        match value {
            Some(number) => usize_value(text@) == Some(number as nat),
            None => usize_value(text@) is None,
        },
{
    let chars = chars_of(text);
    let start: usize = if begins_with_char(text, '+') {
        1
    } else {
        0
    };
    let ghost digits = text@.skip(start as int);
    assert(start == 0 ==> digits == text@);
    if chars.len() <= start {
        return None;
    }
    let mut all_digits = true;
    let mut index: usize = start;
    while index < chars.len()
        invariant
            start <= index <= chars@.len(),
            chars@ == text@,
            digits == text@.skip(start as int),
            all_digits == (forall|i: int| 0 <= i < index - start ==> '0' <= #[trigger] digits[i]
                <= '9'),
        decreases chars@.len() - index,
    {
        assert(digits[index - start] == chars@[index as int]);
        if !('0' <= chars[index] && chars[index] <= '9') {
            all_digits = false;
        }
        index += 1;
    }
    if !all_digits {
        return None;
    }
    assert(is_digits(digits));
    let mut value: usize = 0;
    let mut at: usize = start;
    while at < chars.len()
        invariant
            start <= at <= chars@.len(),
            chars@ == text@,
            digits == text@.skip(start as int),
            is_digits(digits),
            usize_value(text@) == if digits_value(digits, digits.len() as int) <= usize::MAX {
                Some(digits_value(digits, digits.len() as int))
            } else {
                None
            },
            value == digits_value(digits, at - start),
        decreases chars@.len() - at,
    {
        assert(digits[at - start] == chars@[at as int]);
        let digit: usize = (chars[at] as u32 - 48) as usize;
        proof {
            lemma_digits_value_grows(digits, at - start + 1, digits.len() as int);
            assert(digits_value(digits, at - start + 1) == value * 10 + digit);
        }
        value = match value.checked_mul(10) {
            Some(scaled) => match scaled.checked_add(digit) {
                Some(sum) => sum,
                None => {
                    return None;
                },
            },
            None => {
                return None;
            },
        };
        at += 1;
    }
    Some(value)
}

} // verus!
