//! What a search promises of a text: which of its lines are found, and what is
//! shown of them.

use crate::literal_pattern;
use crate::search_laws;
use crate::search_model;
use crate::search_model::ResultsView;
use crate::text;
use crate::tool::MatchView;
use crate::utf8;
use vstd::prelude::*;

verus! {

/// How many line feeds a text holds.
pub open spec fn newlines(content: Seq<char>) -> nat
    decreases content.len(),
{
    if content.len() == 0 {
        0
    } else if content.last() == '\n' {
        newlines(content.drop_last()) + 1
    } else {
        newlines(content.drop_last())
    }
}

/// Whether `line` is a line of `content`, between `before` and `after`: it holds
/// no line feed, and stands at an end of the text or next to a line feed on
/// either side.
pub open spec fn is_line_of(
    content: Seq<char>,
    before: Seq<char>,
    line: Seq<char>,
    after: Seq<char>,
) -> bool {
    &&& content == before + line + after
    &&& before.len() == 0 || before.last() == '\n'
    &&& after.len() == 0 || after[0] == '\n'
    &&& !line.contains('\n')
}

/// A line without the carriage return at its end, where it has one.
pub open spec fn shown_line(line: Seq<char>) -> Seq<char> {
    if line.len() > 0 && line[line.len() - 1] == '\r' {
        line.take(line.len() - 1)
    } else {
        line
    }
}

/// The encoding of two texts behind one another.
pub proof fn lemma_encode_concat(first: Seq<char>, second: Seq<char>)
    ensures
        vstd::utf8::encode_utf8(first + second) == vstd::utf8::encode_utf8(first) + vstd::utf8::encode_utf8(second),
    decreases first.len(),
{
    let both = first + second;
    if first.len() == 0 {
        assert(both =~= second);
        assert(vstd::utf8::encode_utf8(first) =~= Seq::<u8>::empty());
        assert(vstd::utf8::encode_utf8(first) + vstd::utf8::encode_utf8(second) =~= vstd::utf8::encode_utf8(second));
    } else {
        lemma_encode_concat(first.drop_first(), second);
        assert(both.drop_first() =~= first.drop_first() + second);
        assert(both[0] == first[0]);
        assert(vstd::utf8::encode_utf8(both) =~= vstd::utf8::encode_utf8(first) + vstd::utf8::encode_utf8(second));
    }
}

/// The encoding of a text with one more character.
pub proof fn lemma_encode_push(content: Seq<char>, character: char)
    ensures
        vstd::utf8::encode_utf8(content.push(character)) == vstd::utf8::encode_utf8(content) + vstd::utf8::encode_scalar(
            character as u32,
        ),
{
    let one = seq![character];
    lemma_encode_concat(content, one);
    assert(content.push(character) =~= content + one);
    assert(one.drop_first() =~= Seq::<char>::empty());
    assert(vstd::utf8::encode_utf8(Seq::<char>::empty()) =~= Seq::<u8>::empty());
    assert(vstd::utf8::encode_utf8(one) =~= vstd::utf8::encode_scalar(character as u32));
}

/// Only a line feed is encoded with the byte of one.
pub proof fn lemma_newline_bytes(character: char)
    ensures
        character == '\n' ==> vstd::utf8::encode_scalar(character as u32) == seq![10u8],
        character != '\n' ==> !vstd::utf8::encode_scalar(character as u32).contains(10u8),
        1 <= vstd::utf8::encode_scalar(character as u32).len() <= 4,
{
    let scalar = character as u32;
    assert(forall|byte: u8| #[trigger] (0x80u8 | byte) >= 0x80) by (bit_vector);
    assert(forall|byte: u8| #[trigger] (0xc0u8 | byte) >= 0x80) by (bit_vector);
    assert(forall|byte: u8| #[trigger] (0xe0u8 | byte) >= 0x80) by (bit_vector);
    assert(forall|byte: u8| #[trigger] (0xf0u8 | byte) >= 0x80) by (bit_vector);
    assert(scalar <= 0x7f ==> (scalar & 0x7f) as u8 == scalar) by (bit_vector);
}

/// A text without a line feed is encoded without the byte of one.
pub proof fn lemma_line_bytes(line: Seq<char>)
    requires
        !line.contains('\n'),
    ensures
        !vstd::utf8::encode_utf8(line).contains(10u8),
    decreases line.len(),
{
    if line.len() > 0 {
        let rest = line.drop_first();
        assert forall|i: int| 0 <= i < rest.len() implies rest[i] != '\n' by {
            assert(line[i + 1] == rest[i]);
        }
        assert(!rest.contains('\n'));
        lemma_line_bytes(rest);
        assert(line[0] != '\n');
        lemma_newline_bytes(line[0]);
        let first = vstd::utf8::encode_scalar(line[0] as u32);
        assert forall|i: int| 0 <= i < vstd::utf8::encode_utf8(line).len() implies vstd::utf8::encode_utf8(line)[i]
            != 10u8 by {
            if i < first.len() {
                assert(first[i] == vstd::utf8::encode_utf8(line)[i]);
            } else {
                assert(vstd::utf8::encode_utf8(rest)[i - first.len()] == vstd::utf8::encode_utf8(line)[i]);
            }
        }
    }
}

/// The line behind the last line feed of a text.
spec fn last_line(content: Seq<char>) -> Seq<char>
    decreases content.len(),
{
    if content.len() == 0 || content.last() == '\n' {
        Seq::empty()
    } else {
        last_line(content.drop_last()).push(content.last())
    }
}

proof fn lemma_last_line(content: Seq<char>)
    ensures
        !last_line(content).contains('\n'),
        last_line(content).len() <= content.len(),
        ({
            let before = content.take(content.len() - last_line(content).len());
            &&& content == before + last_line(content)
            &&& before.len() == 0 || before.last() == '\n'
            &&& newlines(before) == newlines(content)
        }),
    decreases content.len(),
{
    if content.len() > 0 && content.last() != '\n' {
        let earlier = content.drop_last();
        lemma_last_line(earlier);
        let line = last_line(content);
        assert forall|i: int| 0 <= i < line.len() implies line[i] != '\n' by {
            if i < last_line(earlier).len() {
                assert(last_line(earlier)[i] == line[i]);
            }
        }
        assert(content.take(content.len() - line.len()) =~= earlier.take(
            earlier.len() - last_line(earlier).len(),
        ));
        let before = content.take(content.len() - line.len());
        assert(content =~= earlier.push(content.last()));
        assert(before + line =~= (before + last_line(earlier)).push(content.last()));
    } else {
        assert(last_line(content) =~= Seq::<char>::empty());
        assert(content.take(content.len() as int) =~= content);
        assert(content =~= content + Seq::<char>::empty());
    }
}

/// Bytes that do not hold the byte of a line feed go on with the open line.
proof fn lemma_more_bytes(bytes: Seq<u8>, more: Seq<u8>)
    requires
        !more.contains(10u8),
    ensures
        search_laws::ended_lines(bytes + more) == search_laws::ended_lines(bytes),
        search_laws::open_line(bytes + more) == search_laws::open_line(bytes) + more,
    decreases more.len(),
{
    if more.len() == 0 {
        assert(bytes + more =~= bytes);
        assert(search_laws::open_line(bytes) + more =~= search_laws::open_line(bytes));
    } else {
        let fewer = more.drop_last();
        assert forall|i: int| 0 <= i < fewer.len() implies fewer[i] != 10u8 by {
            assert(more[i] == fewer[i]);
        }
        lemma_more_bytes(bytes, fewer);
        assert((bytes + more).drop_last() =~= bytes + fewer);
        assert((bytes + more).last() == more[more.len() - 1]);
        assert(search_laws::open_line(bytes) + more =~= (search_laws::open_line(bytes)
            + fewer).push(more.last()));
    }
}

/// Whether the ended line at `index` of the bytes of a text is a line of it.
spec fn stands_for_a_line(content: Seq<char>, line: Seq<char>, index: int) -> bool {
    &&& search_laws::ended_lines(vstd::utf8::encode_utf8(content))[index] == vstd::utf8::encode_utf8(line)
    &&& exists|before: Seq<char>, after: Seq<char>|
        #![trigger is_line_of(content, before, line, after)]
        is_line_of(content, before, line, after) && newlines(before) == index && after.len() > 0
}

/// Whether the ended line at `index` of the bytes of a text is one of its lines.
spec fn has_line_at(content: Seq<char>, index: int) -> bool {
    exists|line: Seq<char>| #[trigger] stands_for_a_line(content, line, index)
}

/// The lines of the bytes of a text are the lines of the text.
proof fn lemma_lines_of_text(content: Seq<char>)
    ensures
        search_laws::open_line(vstd::utf8::encode_utf8(content)) == vstd::utf8::encode_utf8(last_line(content)),
        search_laws::ended_lines(vstd::utf8::encode_utf8(content)).len() == newlines(content),
        forall|index: int|
            0 <= index < newlines(content) ==> #[trigger] has_line_at(content, index),
    decreases content.len(),
{
    let bytes = vstd::utf8::encode_utf8(content);
    if content.len() == 0 {
        assert(bytes =~= Seq::<u8>::empty());
        assert(vstd::utf8::encode_utf8(last_line(content)) =~= Seq::<u8>::empty());
    } else {
        let earlier = content.drop_last();
        let last = content.last();
        lemma_lines_of_text(earlier);
        lemma_encode_push(earlier, last);
        assert(earlier.push(last) =~= content);
        lemma_newline_bytes(last);
        let old = vstd::utf8::encode_utf8(earlier);
        if last == '\n' {
            assert(bytes =~= old.push(10u8));
            assert(bytes.drop_last() =~= old);
            assert(vstd::utf8::encode_utf8(last_line(content)) =~= Seq::<u8>::empty());
        } else {
            lemma_more_bytes(old, vstd::utf8::encode_scalar(last as u32));
            lemma_encode_push(last_line(earlier), last);
        }
        assert forall|index: int| 0 <= index < newlines(content) implies #[trigger] has_line_at(
            content,
            index,
        ) by {
            if index < newlines(earlier) {
                assert(has_line_at(earlier, index));
                let line = choose|line: Seq<char>| #[trigger]
                    stands_for_a_line(earlier, line, index);
                let (before, after) = choose|before: Seq<char>, after: Seq<char>|
                    #![trigger is_line_of(earlier, before, line, after)]
                    is_line_of(earlier, before, line, after) && newlines(before) == index
                        && after.len() > 0;
                let longer = after.push(last);
                assert(content =~= before + line + longer);
                assert(is_line_of(content, before, line, longer));
                assert(stands_for_a_line(content, line, index));
            } else {
                lemma_last_line(earlier);
                let line = last_line(earlier);
                let before = earlier.take(earlier.len() - line.len());
                let after = seq!['\n'];
                assert(content =~= before + line + after);
                assert(is_line_of(content, before, line, after));
                assert(stands_for_a_line(content, line, index));
            }
        }
    }
}

/// A part of a text stands in its bytes.
proof fn lemma_part_stands(first: Seq<char>, part: Seq<char>, last: Seq<char>)
    ensures
        literal_pattern::occurs(vstd::utf8::encode_utf8(part), vstd::utf8::encode_utf8(first + part + last)),
{
    lemma_encode_concat(first + part, last);
    lemma_encode_concat(first, part);
    let whole = vstd::utf8::encode_utf8(first + part + last);
    let at = vstd::utf8::encode_utf8(first).len() as int;
    assert(whole.subrange(at, at + vstd::utf8::encode_utf8(part).len()) =~= vstd::utf8::encode_utf8(part));
    assert(literal_pattern::stands_at(vstd::utf8::encode_utf8(part), whole, at));
}

/// Bytes that are valid and stand at the beginning of those of a text are those
/// of a beginning of the text.
proof fn lemma_valid_beginning(content: Seq<char>, bytes: Seq<u8>)
    requires
        vstd::utf8::valid_utf8(bytes),
        bytes.is_prefix_of(vstd::utf8::encode_utf8(content)),
    ensures
        vstd::utf8::decode_utf8(bytes).is_prefix_of(content),
        vstd::utf8::encode_utf8(vstd::utf8::decode_utf8(bytes)) == bytes,
    decreases content.len(),
{
    vstd::utf8::decode_utf8_encode_utf8(bytes);
    if bytes.len() > 0 {
        let whole = vstd::utf8::encode_utf8(content);
        assert(content.len() > 0);
        vstd::utf8::encode_utf8_first_scalar(content);
        assert(forall|i: int| 0 <= i < bytes.len() ==> whole[i] == bytes[i]);
        assert(vstd::utf8::length_of_first_scalar(bytes) == vstd::utf8::length_of_first_scalar(
            whole,
        ));
        assert(vstd::utf8::decode_first_scalar(bytes) == vstd::utf8::decode_first_scalar(whole));
        let rest = vstd::utf8::pop_first_scalar(bytes);
        let others = content.drop_first();
        assert(vstd::utf8::encode_utf8(others) =~= vstd::utf8::pop_first_scalar(whole));
        assert(rest.is_prefix_of(vstd::utf8::encode_utf8(others)));
        lemma_valid_beginning(others, rest);
        vstd::utf8::char_u32_cast(content[0], vstd::utf8::decode_first_scalar(bytes));
        assert(vstd::utf8::decode_utf8(bytes) =~= seq![content[0]] + vstd::utf8::decode_utf8(rest));
    }
}

/// The longest beginning of a line that takes no more than 8192 bytes.
pub open spec fn is_preview(line: Seq<char>, preview: Seq<char>) -> bool {
    &&& preview.is_prefix_of(line)
    &&& vstd::utf8::encode_utf8(preview).len() <= 8192
    &&& forall|longer: Seq<char>|
        #![trigger vstd::utf8::encode_utf8(longer)]
        longer.is_prefix_of(line) && vstd::utf8::encode_utf8(longer).len() <= 8192 ==> longer.len()
            <= preview.len()
}

/// What a search shows of a line that it finds.
pub open spec fn is_shown(line: Seq<char>, shown: Seq<char>) -> bool {
    if vstd::utf8::encode_utf8(line).len() <= 8192 {
        shown == shown_line(line)
    } else {
        exists|preview: Seq<char>|
            #![trigger is_preview(line, preview)]
            is_preview(line, preview) && shown == shown_line(preview)
    }
}

proof fn lemma_longest_valid_prefix(bytes: Seq<u8>, length: int) -> (found: int)
    requires
        0 <= length <= bytes.len(),
        forall|longer: int|
            length < longer <= bytes.len() ==> !vstd::utf8::valid_utf8(#[trigger] bytes.take(longer)),
    ensures
        utf8::longest_valid_prefix(bytes, found),
        found <= length,
    decreases length,
{
    if vstd::utf8::valid_utf8(bytes.take(length)) {
        length
    } else {
        if length == 0 {
            assert(bytes.take(0) =~= Seq::<u8>::empty());
        }
        lemma_longest_valid_prefix(bytes, length - 1)
    }
}

/// Every line of a text can be shown.
proof fn lemma_line_is_shown(line: Seq<char>)
    ensures
        search_model::visible_text(
            search_model::visible_bytes(vstd::utf8::encode_utf8(line)),
        ) matches Some(text) && is_shown(line, text::without_return(text)),
{
    let bytes = vstd::utf8::encode_utf8(line);
    vstd::utf8::encode_utf8_valid_utf8(line);
    vstd::utf8::encode_utf8_decode_utf8(line);
    if bytes.len() > 8192 {
        let part = bytes.take(8192);
        assert(part + bytes.skip(8192) =~= bytes);
        assert(vstd::utf8::valid_utf8(part + bytes.skip(8192)));
        assert(utf8::extensible(part));
        let length = lemma_longest_valid_prefix(part, part.len() as int);
        let chosen = if vstd::utf8::valid_utf8(part) {
            part.len() as int
        } else {
            search_model::valid_prefix_len(part)
        };
        if vstd::utf8::valid_utf8(part) {
            assert(part.take(8192) =~= part);
            assert(utf8::longest_valid_prefix(part, 8192));
        } else {
            assert(utf8::longest_valid_prefix(part, chosen));
        }
        let kept = part.take(chosen);
        assert(kept.is_prefix_of(bytes));
        assert(part.take(chosen) =~= if vstd::utf8::valid_utf8(part) {
            part
        } else {
            kept
        });
        lemma_valid_beginning(line, kept);
        let preview = vstd::utf8::decode_utf8(kept);
        assert forall|longer: Seq<char>|
            #![trigger vstd::utf8::encode_utf8(longer)]
            longer.is_prefix_of(line) && vstd::utf8::encode_utf8(longer).len() <= 8192 implies longer.len()
            <= preview.len() by {
            let rest = line.skip(longer.len() as int);
            lemma_encode_concat(longer, rest);
            assert(longer + rest =~= line);
            let count = vstd::utf8::encode_utf8(longer).len() as int;
            assert(part.take(count) =~= vstd::utf8::encode_utf8(longer));
            vstd::utf8::encode_utf8_valid_utf8(longer);
            assert(count <= chosen);
            if longer.len() > preview.len() {
                let more = longer.skip(preview.len() as int);
                assert(preview + more =~= longer);
                lemma_encode_concat(preview, more);
                lemma_newline_bytes(more[0]);
                assert(vstd::utf8::encode_utf8(more).len() > 0);
            }
        }
        assert(is_preview(line, preview));
        assert(text::without_return(preview) =~= shown_line(preview));
    } else {
        assert(text::without_return(line) =~= shown_line(line));
    }
}

/// Behind a text that ends in a line feed, or is empty, a line of it begins.
proof fn lemma_scan_of_text(
    needle: Seq<u8>,
    path: Seq<char>,
    before: Seq<char>,
    results: ResultsView,
)
    requires
        vstd::utf8::encode_utf8(before).len() < u64::MAX,
        before.len() == 0 || before.last() == '\n',
    ensures
        ({
            let scan = search_model::scan(needle, path, vstd::utf8::encode_utf8(before), results);
            &&& scan.line == Seq::<u8>::empty()
            &&& scan.number == newlines(before) + 1
            &&& results.matches.is_prefix_of(scan.results.matches)
        }),
{
    search_laws::lemma_scan(needle, path, vstd::utf8::encode_utf8(before), results);
    lemma_lines_of_text(before);
    assert(last_line(before) =~= Seq::<char>::empty());
    assert(vstd::utf8::encode_utf8(last_line(before)) =~= Seq::<u8>::empty());
}

/// Behind more bytes all matches are still there, and a limit that was reached
/// stays so.
proof fn lemma_scan_goes_on(
    needle: Seq<u8>,
    path: Seq<char>,
    bytes: Seq<u8>,
    more: Seq<u8>,
    results: ResultsView,
)
    ensures
        ({
            let first = search_model::scan(needle, path, bytes, results).results;
            let second = search_model::scan(needle, path, bytes + more, results).results;
            &&& first.matches.is_prefix_of(second.matches)
            &&& first.limit_reached ==> second.limit_reached
        }),
    decreases more.len(),
{
    if more.len() == 0 {
        assert(bytes + more =~= bytes);
    } else {
        lemma_scan_goes_on(needle, path, bytes, more.drop_last(), results);
        assert((bytes + more).drop_last() =~= bytes + more.drop_last());
    }
}

/// Whether a match shows a line under its path and its number.
pub open spec fn is_match(found: MatchView, path: Seq<char>, number: nat, line: Seq<char>) -> bool {
    found.path == path && found.line == number && is_shown(line, found.text)
}

/// Where no limit ends the search, every line of a text in which the text that
/// is looked for occurs has its match: the path, the number of the line, and the
/// line itself without a carriage return at its end. Of a line of more than 8192
/// bytes the longest beginning is shown that takes no more.
pub proof fn law_lines_that_hold_the_text_are_found(
    query: Seq<char>,
    path: Seq<char>,
    before: Seq<char>,
    first: Seq<char>,
    last: Seq<char>,
    after: Seq<char>,
    results: ResultsView,
)
    requires
        query.len() > 0,
        before.len() == 0 || before.last() == '\n',
        after.len() == 0 || after[0] == '\n',
        !(first + query + last).contains('\n'),
        vstd::utf8::encode_utf8(before + (first + query + last) + after).len() < u64::MAX,
        !search_model::search_content(
            vstd::utf8::encode_utf8(query),
            path,
            vstd::utf8::encode_utf8(before + (first + query + last) + after),
            results,
        ).limit_reached,
    ensures
        ({
            let matches = search_model::search_content(
                vstd::utf8::encode_utf8(query),
                path,
                vstd::utf8::encode_utf8(before + (first + query + last) + after),
                results,
            ).matches;
            exists|at: int|
                results.matches.len() <= at < matches.len() && is_match(
                    #[trigger] matches[at],
                    path,
                    newlines(before) + 1,
                    first + query + last,
                )
        }),
{
    let needle = vstd::utf8::encode_utf8(query);
    let line = first + query + last;
    let content = before + line + after;
    let bytes = vstd::utf8::encode_utf8(content);
    let begun = vstd::utf8::encode_utf8(before);
    let line_bytes = vstd::utf8::encode_utf8(line);
    let rest = vstd::utf8::encode_utf8(after);
    lemma_encode_concat(before + line, after);
    lemma_encode_concat(before, line);
    vstd::utf8::encode_utf8_valid_utf8(content);
    lemma_scan_of_text(needle, path, before, results);
    lemma_line_bytes(line);
    search_model::lemma_scan_within_a_line(needle, path, begun, line_bytes, results);
    lemma_part_stands(first, query, last);
    lemma_line_is_shown(line);
    let reached = begun + line_bytes;
    let scanned = search_model::scan(needle, path, reached, results);
    assert(scanned.line =~= line_bytes);
    lemma_newline_bytes(line[0]);
    assert(line_bytes.len() > 0);
    let found = scanned.results.with_line(needle, path, scanned.number, scanned.line);
    let at = scanned.results.matches.len() as int;
    let end = search_model::scan(needle, path, bytes, results);
    let all = search_model::search_content(needle, path, bytes, results);
    if after.len() == 0 {
        assert(rest =~= Seq::<u8>::empty());
        assert(bytes =~= reached);
        assert(all.matches == found.matches);
        assert(is_match(all.matches[at], path, newlines(before) + 1, line));
    } else {
        let tail = after.drop_first();
        lemma_newline_bytes('\n');
        assert(rest =~= seq![10u8] + vstd::utf8::encode_utf8(tail));
        let ended = reached.push(10u8);
        assert(bytes =~= ended + vstd::utf8::encode_utf8(tail));
        assert(ended.drop_last() =~= reached);
        let next = search_model::scan(needle, path, ended, results);
        assert(next.results == found);
        lemma_scan_goes_on(needle, path, ended, vstd::utf8::encode_utf8(tail), results);
        assert(end.results.matches.is_prefix_of(all.matches));
        assert(!found.limit_reached);
        assert(found.matches[at] == all.matches[at]);
        assert(is_match(all.matches[at], path, newlines(before) + 1, line));
    }
}

/// Whether some bytes stand among others.
pub open spec fn holds_bytes(whole: Seq<u8>, part: Seq<u8>) -> bool {
    exists|first: Seq<u8>, last: Seq<u8>| whole == #[trigger] (first + part + last)
}

proof fn lemma_occurrence(whole: Seq<u8>, part: Seq<u8>)
    requires
        literal_pattern::occurs(part, whole),
    ensures
        holds_bytes(whole, part),
{
    let at = choose|at: int| #[trigger] literal_pattern::stands_at(part, whole, at);
    assert(whole =~= whole.take(at) + part + whole.skip(at + part.len()));
}

/// Every match that a text adds stands for a line of it in which the text that
/// is looked for occurs: under the path, with the number of the line, and with
/// the line itself without a carriage return at its end.
pub proof fn law_matches_stand_for_lines(
    query: Seq<char>,
    path: Seq<char>,
    content: Seq<char>,
    results: ResultsView,
    at: int,
)
    requires
        vstd::utf8::encode_utf8(content).len() < u64::MAX,
        results.matches.len() <= at < search_model::search_content(
            vstd::utf8::encode_utf8(query),
            path,
            vstd::utf8::encode_utf8(content),
            results,
        ).matches.len(),
    ensures
        ({
            let found = search_model::search_content(
                vstd::utf8::encode_utf8(query),
                path,
                vstd::utf8::encode_utf8(content),
                results,
            ).matches[at];
            exists|before: Seq<char>, line: Seq<char>, after: Seq<char>|
                {
                    &&& #[trigger] is_line_of(content, before, line, after)
                    &&& is_match(found, path, newlines(before) + 1, line)
                    &&& holds_bytes(
                        vstd::utf8::encode_utf8(line),
                        vstd::utf8::encode_utf8(query),
                    )
                }
        }),
{
    let needle = vstd::utf8::encode_utf8(query);
    let bytes = vstd::utf8::encode_utf8(content);
    search_laws::law_matches_show_matching_lines(needle, path, bytes, results, at);
    let found = search_model::search_content(needle, path, bytes, results).matches[at];
    let lines = search_laws::file_lines(bytes);
    let index = choose|index: int| search_laws::shows(found, needle, path, lines, index);
    lemma_lines_of_text(content);
    if index < newlines(content) {
        assert(has_line_at(content, index));
        let line = choose|line: Seq<char>| #[trigger] stands_for_a_line(content, line, index);
        let (before, after) = choose|before: Seq<char>, after: Seq<char>|
            #![trigger is_line_of(content, before, line, after)]
            is_line_of(content, before, line, after) && newlines(before) == index && after.len()
                > 0;
        assert(lines[index] == vstd::utf8::encode_utf8(line));
        lemma_line_is_shown(line);
        lemma_occurrence(lines[index], needle);
        assert(is_line_of(content, before, line, after));
    } else {
        lemma_last_line(content);
        let line = last_line(content);
        let before = content.take(content.len() - line.len());
        assert(lines[index] == vstd::utf8::encode_utf8(line));
        lemma_line_is_shown(line);
        lemma_occurrence(lines[index], needle);
        let after = Seq::<char>::empty();
        assert(content =~= before + line + after);
        assert(is_line_of(content, before, line, after));
    }
}

} // verus!
