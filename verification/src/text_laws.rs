//! What holds of every text that is written, cut and read back.

use crate::text;
use vstd::prelude::*;

verus! {

proof fn lemma_value_of_pushed(digits: Seq<char>, last: char, count: int)
    requires
        count <= digits.len(),
    ensures
        text::digits_value(digits.push(last), count) == text::digits_value(digits, count),
    decreases count,
{
    if count > 0 {
        lemma_value_of_pushed(digits, last, count - 1);
        assert(digits.push(last)[count - 1] == digits[count - 1]);
    }
}

/// A number that is written in decimal is made of digits alone, without a needless
/// zero in front, and is worth what was written.
pub proof fn law_decimal_texts_are_worth_their_number(value: nat)
    ensures
        text::is_digits(text::decimal_text(value)),
        text::digits_value(text::decimal_text(value), text::decimal_text(value).len() as int)
            == value,
        value > 0 ==> text::decimal_text(value)[0] != '0',
        value == 0 ==> text::decimal_text(value) == seq!['0'],
    decreases value,
{
    let written = text::decimal_text(value);
    if value < 10 {
        assert(written.len() == 1);
        assert(text::digits_value(written, 0) == 0);
        assert(written[0] == text::digit_char(value));
    } else {
        law_decimal_texts_are_worth_their_number(value / 10);
        let front = text::decimal_text(value / 10);
        let last = text::digit_char(value % 10);
        lemma_value_of_pushed(front, last, front.len() as int);
        assert(written.len() == front.len() + 1);
        assert(written[front.len() as int] == last);
        assert(value == (value / 10) * 10 + value % 10);
        assert forall|i: int| 0 <= i < written.len() implies '0' <= #[trigger] written[i] <= '9' by {
            if i < front.len() {
                assert(written[i] == front[i]);
            }
        }
        assert(written[0] == front[0]);
    }
}

/// A number that the machine holds is read back from its decimal text.
pub proof fn law_written_numbers_are_read_back(value: nat)
    requires
        value <= usize::MAX,
    ensures
        text::usize_value(text::decimal_text(value)) == Some(value),
{
    law_decimal_texts_are_worth_their_number(value);
    assert('0' <= text::decimal_text(value)[0]);
}

/// Two numbers that are written the same way are the same.
pub proof fn law_decimal_texts_differ(first: nat, second: nat)
    ensures
        text::decimal_text(first) == text::decimal_text(second) ==> first == second,
{
    law_decimal_texts_are_worth_their_number(first);
    law_decimal_texts_are_worth_their_number(second);
}

/// A text is cut at the first separator: what stands before it and what stands
/// behind it come out as they were put together.
pub proof fn law_texts_are_cut_where_they_were_joined(
    head: Seq<char>,
    separator: char,
    tail: Seq<char>,
)
    requires
        !head.contains(separator),
    ensures
        text::before(head.push(separator) + tail, separator) == head,
        text::after(head.push(separator) + tail, separator) == Some(tail),
        text::before(head, separator) == head,
        text::after(head, separator) is None,
{
    let whole = head.push(separator) + tail;
    text::lemma_first_position(whole, separator, 0);
    text::lemma_first_position(head, separator, 0);
    assert(whole[head.len() as int] == separator);
    assert forall|i: int| 0 <= i < head.len() implies whole[i] != separator by {
        assert(whole[i] == head[i]);
    }
    assert(whole.take(head.len() as int) =~= head);
    assert(whole.skip(head.len() as int + 1) =~= tail);
}

/// The line ends that are cut off a text all stand behind its last other
/// character.
pub proof fn lemma_line_ends(head: Seq<char>, tail: Seq<char>) -> (kept: int)
    requires
        head.len() > 0,
        head.last() != '\r' && head.last() != '\n',
    ensures
        0 <= kept <= tail.len(),
        text::without_line_ends(head + tail) == head + tail.take(kept),
        forall|i: int|
            kept <= i < tail.len() ==> (#[trigger] tail[i] == '\r' || tail[i] == '\n'),
    decreases tail.len(),
{
    let whole = head + tail;
    if tail.len() == 0 {
        assert(whole =~= head);
        assert(tail.take(0) =~= tail);
        0
    } else if tail.last() == '\r' || tail.last() == '\n' {
        assert(whole.last() == tail.last());
        assert(whole.drop_last() =~= head + tail.drop_last());
        let kept = lemma_line_ends(head, tail.drop_last());
        assert(tail.drop_last().take(kept) =~= tail.take(kept));
        assert forall|i: int| kept <= i < tail.len() implies (#[trigger] tail[i] == '\r' || tail[i]
            == '\n') by {
            if i < tail.len() - 1 {
                assert(tail.drop_last()[i] == tail[i]);
            }
        }
        kept
    } else {
        assert(whole.last() == tail.last());
        assert(tail.take(tail.len() as int) =~= tail);
        tail.len() as int
    }
}

/// A line feed is cut off a line that does not end in a line end otherwise.
pub proof fn law_a_line_feed_is_cut_off(line: Seq<char>)
    requires
        line.len() > 0 ==> line.last() != '\r' && line.last() != '\n',
    ensures
        text::without_line_ends(line.push('\n')) == line,
        text::without_line_ends(line) == line,
{
    let whole = line.push('\n');
    reveal_with_fuel(text::without_line_ends, 2);
    assert(whole.last() == '\n');
    assert(whole.drop_last() =~= line);
}

/// What is found first stands there, and nowhere before.
pub proof fn law_parts_are_found_where_they_first_stand(
    whole: Seq<char>,
    part: Seq<char>,
    from: int,
    at: int,
)
    requires
        0 <= from <= at,
        part.len() > 0,
        text::stands_at(whole, part, at),
        forall|i: int| from <= i < at ==> !#[trigger] text::stands_at(whole, part, i),
    ensures
        text::part_position(whole, part, from) == Some(at),
    decreases at - from,
{
    if from < at {
        assert(!text::stands_at(whole, part, from));
        law_parts_are_found_where_they_first_stand(whole, part, from + 1, at);
    }
}

proof fn lemma_word(whole: Seq<char>, at: int, end: int, word: Seq<char>)
    requires
        0 <= at <= end <= whole.len(),
        forall|i: int| at <= i < end ==> !text::is_whitespace(#[trigger] whole[i]),
    ensures
        text::words_from(whole, at, word) == text::words_from(
            whole,
            end,
            word + whole.subrange(at, end),
        ),
    decreases end - at,
{
    if at < end {
        lemma_word(whole, at + 1, end, word.push(whole[at]));
        assert(word + whole.subrange(at, end) =~= word.push(whole[at]) + whole.subrange(
            at + 1,
            end,
        ));
    } else {
        assert(word + whole.subrange(at, end) =~= word);
    }
}

/// Whether a text is a word: not empty, and without white space.
pub open spec fn is_word(word: Seq<char>) -> bool {
    word.len() > 0 && forall|i: int|
        0 <= i < word.len() ==> !text::is_whitespace(#[trigger] word[i])
}

/// Two words with blanks around them are read back as these two words.
pub proof fn law_two_words_are_read_back(first: Seq<char>, second: Seq<char>)
    requires
        is_word(first),
        is_word(second),
    ensures
        text::words_of(" "@ + first + " "@ + second + " "@) == seq![first, second],
{
    reveal_strlit(" ");
    let whole = " "@ + first + " "@ + second + " "@;
    let one = 1 + first.len() as int;
    let two = one + 1 + second.len() as int;
    let none = Seq::<char>::empty();
    reveal_with_fuel(text::words_from, 2);
    assert(whole[0] == ' ');
    assert(text::words_from(whole, 0, none) == text::words_from(whole, 1, none));
    assert(whole.subrange(1, one) =~= first);
    assert forall|i: int| 1 <= i < one implies !text::is_whitespace(#[trigger] whole[i]) by {
        assert(whole[i] == first[i - 1]);
    }
    lemma_word(whole, 1, one, none);
    assert(none + first =~= first);
    assert(whole[one] == ' ');
    assert(whole.subrange(one + 1, two) =~= second);
    assert forall|i: int| one + 1 <= i < two implies !text::is_whitespace(#[trigger] whole[i]) by {
        assert(whole[i] == second[i - one - 1]);
    }
    lemma_word(whole, one + 1, two, none);
    assert(none + second =~= second);
    assert(whole[two] == ' ');
    assert(whole.len() == two + 1);
    assert(text::words_from(whole, two + 1, none) == Seq::<Seq<char>>::empty());
    assert(text::words_from(whole, two, second) =~= seq![second]);
    assert(text::words_from(whole, one + 1, none) == seq![second]);
    assert(text::words_from(whole, one, first) == seq![first] + seq![second]);
    assert(seq![first] + seq![second] =~= seq![first, second]);
}

proof fn lemma_split_shifted(whole: Seq<char>, tail: Seq<char>, separator: char, shift: int, from: int)
    requires
        0 <= shift,
        0 <= from <= tail.len(),
        whole.len() == shift + tail.len(),
        forall|i: int| 0 <= i < tail.len() ==> whole[shift + i] == #[trigger] tail[i],
    ensures
        text::split_from(whole, separator, shift + from) == text::split_from(tail, separator, from),
    decreases tail.len() - from,
{
    text::lemma_first_position(whole, separator, shift + from);
    text::lemma_first_position(tail, separator, from);
    match text::first_position(tail, separator, from) {
        Some(position) => {
            assert(whole[shift + position] == tail[position]);
            let found = text::first_position(whole, separator, shift + from);
            assert(found is Some) by {
                if found is None {
                    assert(whole[shift + position] != separator);
                }
            }
            let other = found->Some_0;
            assert(other == shift + position) by {
                assert(whole[shift + (other - shift)] == tail[other - shift]);
            }
            let piece = whole.subrange(shift + from, shift + position);
            assert forall|i: int| 0 <= i < piece.len() implies #[trigger] piece[i] == tail.subrange(
                from,
                position,
            )[i] by {
                assert(whole[shift + (from + i)] == tail[from + i]);
            }
            assert(piece =~= tail.subrange(from, position));
            lemma_split_shifted(whole, tail, separator, shift, position + 1);
        },
        None => {
            if let Some(other) = text::first_position(whole, separator, shift + from) {
                assert(whole[shift + (other - shift)] == tail[other - shift]);
            }
            let piece = whole.skip(shift + from);
            assert forall|i: int| 0 <= i < piece.len() implies #[trigger] piece[i] == tail.skip(
                from,
            )[i] by {
                assert(whole[shift + (from + i)] == tail[from + i]);
            }
            assert(piece =~= tail.skip(from));
        },
    }
}

proof fn lemma_split_joined(head: Seq<char>, separator: char, tail: Seq<char>, from: int)
    requires
        0 <= from <= head.len(),
    ensures
        text::split_from(head.push(separator) + tail, separator, from) == text::split_from(
            head,
            separator,
            from,
        ) + text::split(tail, separator),
    decreases head.len() - from,
{
    let whole = head.push(separator) + tail;
    text::lemma_first_position(whole, separator, from);
    text::lemma_first_position(head, separator, from);
    assert(whole[head.len() as int] == separator);
    let found = text::first_position(whole, separator, from);
    assert(found is Some);
    let position = found->Some_0;
    assert(position <= head.len());
    match text::first_position(head, separator, from) {
        Some(other) => {
            assert(whole[other] == head[other]);
            if position < head.len() {
                assert(whole[position] == head[position]);
            }
            assert(position == other);
            assert(whole.subrange(from, position) =~= head.subrange(from, position));
            lemma_split_joined(head, separator, tail, position + 1);
            let first = seq![head.subrange(from, position)];
            let middle = text::split_from(head, separator, position + 1);
            let last = text::split(tail, separator);
            assert(first + (middle + last) =~= (first + middle) + last);
        },
        None => {
            if position < head.len() {
                assert(whole[position] == head[position]);
            }
            assert(position == head.len());
            assert(whole.subrange(from, position) =~= head.skip(from));
            lemma_split_shifted(whole, tail, separator, head.len() as int + 1, 0);
        },
    }
}

/// The pieces of two texts with a separator in between are the pieces of the one
/// and then those of the other, and a text without a separator is one piece.
pub proof fn law_pieces_of_joined_texts(head: Seq<char>, separator: char, tail: Seq<char>)
    ensures
        text::split(head.push(separator) + tail, separator) == text::split(head, separator)
            + text::split(tail, separator),
        !head.contains(separator) ==> text::split(head, separator) == seq![head],
{
    lemma_split_joined(head, separator, tail, 0);
    text::lemma_first_position(head, separator, 0);
    assert(head.skip(0) =~= head);
}

proof fn lemma_pieces(whole: Seq<char>, separator: char, from: int)
    requires
        0 <= from <= whole.len(),
    ensures
        text::split_from(whole, separator, from).len() > 0,
        forall|i: int|
            0 <= i < text::split_from(whole, separator, from).len()
                ==> !(#[trigger] text::split_from(whole, separator, from)[i]).contains(separator),
    decreases whole.len() - from,
{
    text::lemma_first_position(whole, separator, from);
    let pieces = text::split_from(whole, separator, from);
    match text::first_position(whole, separator, from) {
        Some(position) => {
            lemma_pieces(whole, separator, position + 1);
            let rest = text::split_from(whole, separator, position + 1);
            let first = whole.subrange(from, position);
            assert(pieces == seq![first] + rest);
            assert forall|i: int| 0 <= i < pieces.len() implies !(
            #[trigger] pieces[i]).contains(separator) by {
                if i == 0 {
                    assert(pieces[i] == first);
                    if first.contains(separator) {
                        let j = choose|j: int| 0 <= j < first.len() && first[j] == separator;
                        assert(whole[from + j] != separator);
                    }
                } else {
                    assert(pieces[i] == rest[i - 1]);
                }
            }
        },
        None => {
            let last = whole.skip(from);
            assert(pieces == seq![last]);
            if last.contains(separator) {
                let j = choose|j: int| 0 <= j < last.len() && last[j] == separator;
                assert(whole[from + j] != separator);
            }
        },
    }
}

/// A text has at least one piece, and no piece holds the separator.
pub proof fn law_pieces_hold_no_separator(whole: Seq<char>, separator: char)
    ensures
        text::split(whole, separator).len() > 0,
        forall|i: int|
            0 <= i < text::split(whole, separator).len() ==> !(#[trigger] text::split(
                whole,
                separator,
            )[i]).contains(separator),
{
    lemma_pieces(whole, separator, 0);
}

/// The lines of a text are read one by one: each ends in a line feed, before which a
/// carriage return may stand, and the last may have none.
pub proof fn law_lines_are_read_one_by_one(line: Seq<char>, rest: Seq<char>)
    requires
        !line.contains('\n'),
    ensures
        text::lines_of(line.push('\n') + rest) == seq![
            if line.len() > 0 && line.last() == '\r' {
                line.drop_last()
            } else {
                line
            },
        ] + text::lines_of(rest),
        line.len() > 0 ==> text::lines_of(line) == seq![line],
        text::lines_of(Seq::empty()) == Seq::<Seq<char>>::empty(),
{
    let whole = line.push('\n') + rest;
    law_pieces_of_joined_texts(line, '\n', rest);
    law_pieces_of_joined_texts(line, '\n', line);
    law_pieces_hold_no_separator(rest, '\n');
    let none = Seq::<char>::empty();
    assert(!none.contains('\n'));
    law_pieces_of_joined_texts(none, '\n', none);
    let later = text::split(rest, '\n');
    let pieces = text::split(whole, '\n');
    assert(pieces =~= seq![line] + later);
    assert(pieces.last() == later.last());
    assert(pieces.drop_last() =~= seq![line] + later.drop_last());
    let shown = seq![text::without_return(line)];
    let ended = later.drop_last().map_values(|line: Seq<char>| text::without_return(line));
    assert(pieces.drop_last().map_values(|line: Seq<char>| text::without_return(line)) =~= shown
        + ended);
    if later.last().len() > 0 {
        assert((shown + ended).push(later.last()) =~= shown + ended.push(later.last()));
    }
    assert(text::split(line, '\n') == seq![line]);
    assert(seq![line].drop_last() =~= Seq::<Seq<char>>::empty());
    assert(seq![line].last() == line);
    if line.len() > 0 {
        assert(text::lines_of(line) =~= seq![line]);
    }
    assert(text::split(none, '\n') == seq![none]);
    assert(seq![none].last().len() == 0);
    assert(seq![none].drop_last() =~= Seq::<Seq<char>>::empty());
    assert(text::lines_of(none) =~= Seq::<Seq<char>>::empty());
}

} // verus!
