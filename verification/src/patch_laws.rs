//! What holds of every patch that is read and applied.

use crate::patch_model;
use crate::patch_model::{
    EventView, FilePatchView, HunkView, LineView, PatchErrorView, Progress, PublicationView, RunView,
};
use crate::text;
use crate::tool_support;
use vstd::prelude::*;

verus! {

/// The lines of the original that the hunk lines from `at` on stand for.
pub open spec fn old_side(lines: Seq<LineView>, at: int) -> Seq<Seq<char>>
    decreases lines.len() - at,
{
    if at < 0 || at >= lines.len() {
        Seq::empty()
    } else {
        match lines[at] {
            LineView::Context(line) => seq![line] + old_side(lines, at + 1),
            LineView::Remove(line) => seq![line] + old_side(lines, at + 1),
            LineView::Add(_) => old_side(lines, at + 1),
        }
    }
}

/// The lines that take the place of [`old_side`].
pub open spec fn new_side(lines: Seq<LineView>, at: int) -> Seq<Seq<char>>
    decreases lines.len() - at,
{
    if at < 0 || at >= lines.len() {
        Seq::empty()
    } else {
        match lines[at] {
            LineView::Context(line) => seq![line] + new_side(lines, at + 1),
            LineView::Remove(_) => new_side(lines, at + 1),
            LineView::Add(line) => seq![line] + new_side(lines, at + 1),
        }
    }
}

/// The line behind the lines that a hunk is about.
pub open spec fn line_behind(hunk: HunkView) -> int {
    (patch_model::first_line(hunk) + old_side(hunk.lines, 0).len()) as int
}

/// Whether `original` holds, from the line `start` on, the lines `wanted`.
pub open spec fn holds_at(original: Seq<Seq<char>>, start: int, wanted: Seq<Seq<char>>) -> bool {
    &&& start + wanted.len() <= original.len()
    &&& original.subrange(start, start + wanted.len() as int) == wanted
}

/// Whether the hunks from `at` on stand in order behind the line `cursor`, and
/// the original holds what each of them expects.
pub open spec fn fits(
    original: Seq<Seq<char>>,
    hunks: Seq<HunkView>,
    at: int,
    cursor: int,
) -> bool
    decreases hunks.len() - at,
{
    at >= hunks.len() || {
        &&& cursor <= patch_model::first_line(hunks[at]) <= original.len()
        &&& holds_at(original, patch_model::first_line(hunks[at]) as int, old_side(hunks[at].lines, 0))
        &&& patch_model::counts_match(hunks[at])
        &&& fits(original, hunks, at + 1, line_behind(hunks[at]))
    }
}

/// The lines of the original from `cursor` on, with the new side of each hunk
/// from `at` on in the place of its old side.
pub open spec fn patched(
    original: Seq<Seq<char>>,
    hunks: Seq<HunkView>,
    at: int,
    cursor: int,
) -> Seq<char>
    decreases hunks.len() - at,
{
    if at >= hunks.len() {
        patch_model::joined_lines(original, cursor, original.len() as int)
    } else {
        let replacement = new_side(hunks[at].lines, 0);
        patch_model::joined_lines(original, cursor, patch_model::first_line(hunks[at]) as int) + patch_model::joined_lines(
            replacement,
            0,
            replacement.len() as int,
        ) + patched(original, hunks, at + 1, line_behind(hunks[at]))
    }
}

proof fn lemma_joined_parts(lines: Seq<Seq<char>>, from: int, middle: int, to: int)
    requires
        from <= middle <= to,
    ensures
        patch_model::joined_lines(lines, from, to) == patch_model::joined_lines(lines, from, middle) + patch_model::joined_lines(
            lines,
            middle,
            to,
        ),
    decreases to - middle,
{
    if middle < to {
        lemma_joined_parts(lines, from, middle, to - 1);
    }
}

proof fn lemma_joined_range(lines: Seq<Seq<char>>, part: Seq<Seq<char>>, start: int, count: int)
    requires
        0 <= start,
        0 <= count <= part.len(),
        holds_at(lines, start, part),
    ensures
        patch_model::joined_lines(lines, start, start + count) == patch_model::joined_lines(part, 0, count),
    decreases count,
{
    if count > 0 {
        lemma_joined_range(lines, part, start, count - 1);
        assert(lines.subrange(start, start + part.len() as int)[count - 1] == lines[start + count
            - 1]);
    }
}

proof fn lemma_joined_first(first: Seq<char>, rest: Seq<Seq<char>>)
    ensures
        patch_model::joined_lines(seq![first] + rest, 0, 1 + rest.len() as int) == first + patch_model::joined_lines(
            rest,
            0,
            rest.len() as int,
        ),
{
    let lines = seq![first] + rest;
    lemma_joined_parts(lines, 0, 1, 1 + rest.len() as int);
    assert(lines.subrange(1, 1 + rest.len() as int) == rest);
    lemma_joined_range(lines, rest, 1, rest.len() as int);
    assert(patch_model::joined_lines(lines, 0, 1) == first) by {
        assert(patch_model::joined_lines(lines, 0, 0) == Seq::<char>::empty());
        assert(lines[0] == first);
        assert(patch_model::joined_lines(lines, 0, 1) == patch_model::joined_lines(lines, 0, 0) + lines[0]);
    }
}

proof fn lemma_lines_applied(
    original: Seq<Seq<char>>,
    lines: Seq<LineView>,
    at: int,
    done: Progress,
)
    requires
        0 <= at <= lines.len(),
        done.cursor <= original.len(),
    ensures
        patch_model::apply_lines(original, lines, at, done) is Ok <==> holds_at(
            original,
            done.cursor as int,
            old_side(lines, at),
        ),
        patch_model::apply_lines(original, lines, at, done) matches Ok(next) ==> {
            &&& next.cursor == done.cursor + old_side(lines, at).len()
            &&& next.output == done.output + patch_model::joined_lines(
                new_side(lines, at),
                0,
                new_side(lines, at).len() as int,
            )
        },
    decreases lines.len() - at,
{
    let wanted = old_side(lines, at);
    let start = done.cursor as int;
    if at < lines.len() {
        let later = old_side(lines, at + 1);
        let newer = new_side(lines, at + 1);
        match lines[at] {
            LineView::Context(line) => {
                lemma_joined_first(line, newer);
                lemma_first_held(original, start, line, later);
                if patch_model::line_conflict(original, start, line) is None {
                    let next = Progress { cursor: done.cursor + 1, output: done.output + line };
                    lemma_lines_applied(original, lines, at + 1, next);
                }
            },
            LineView::Remove(line) => {
                lemma_first_held(original, start, line, later);
                if patch_model::line_conflict(original, start, line) is None {
                    let next = Progress { cursor: done.cursor + 1, output: done.output };
                    lemma_lines_applied(original, lines, at + 1, next);
                }
            },
            LineView::Add(line) => {
                lemma_joined_first(line, newer);
                let next = Progress { cursor: done.cursor, output: done.output + line };
                lemma_lines_applied(original, lines, at + 1, next);
            },
        }
    } else {
        assert(wanted.len() == 0);
        assert(original.subrange(start, start) == wanted);
    }
}

proof fn lemma_first_held(
    original: Seq<Seq<char>>,
    start: int,
    line: Seq<char>,
    later: Seq<Seq<char>>,
)
    requires
        0 <= start <= original.len(),
    ensures
        holds_at(original, start, seq![line] + later) <==> {
            &&& patch_model::line_conflict(original, start, line) is None
            &&& holds_at(original, start + 1, later)
        },
{
    let wanted = seq![line] + later;
    if start + wanted.len() <= original.len() {
        let part = original.subrange(start, start + wanted.len() as int);
        let rest = original.subrange(start + 1, start + 1 + later.len() as int);
        assert(part == seq![original[start]] + rest);
        assert(part[0] == original[start]);
        assert(wanted[0] == line);
        assert(part.skip(1) == rest);
        assert(wanted.skip(1) == later);
    }
}

proof fn lemma_hunks_applied(
    original: Seq<Seq<char>>,
    hunks: Seq<HunkView>,
    at: int,
    done: Progress,
)
    requires
        0 <= at <= hunks.len(),
        done.cursor <= original.len(),
    ensures
        patch_model::apply_hunks_from(original, hunks, at, done) is Ok <==> fits(
            original,
            hunks,
            at,
            done.cursor as int,
        ),
        patch_model::apply_hunks_from(original, hunks, at, done) matches Ok(next) ==> next.output
            + patch_model::joined_lines(original, next.cursor as int, original.len() as int) == done.output
            + patched(original, hunks, at, done.cursor as int),
    decreases hunks.len() - at,
{
    if at < hunks.len() {
        let hunk = hunks[at];
        let start = patch_model::first_line(hunk);
        if done.cursor <= start <= original.len() {
            let begun = Progress {
                cursor: start,
                output: done.output + patch_model::joined_lines(original, done.cursor as int, start as int),
            };
            lemma_lines_applied(original, hunk.lines, 0, begun);
            if let Ok(next) = patch_model::apply_hunk(original, hunk, done) {
                lemma_hunks_applied(original, hunks, at + 1, next);
                let replacement = new_side(hunk.lines, 0);
                let gap = patch_model::joined_lines(original, done.cursor as int, start as int);
                let middle = patch_model::joined_lines(replacement, 0, replacement.len() as int);
                let tail = patched(original, hunks, at + 1, line_behind(hunk));
                assert(next.output + tail == done.output + (gap + middle + tail));
            }
        }
    }
}

/// Hunks apply to a text exactly when they stand in order, are as long as their
/// headers say, and the text holds the lines that each expects. The result is
/// then the text with the new lines of each hunk in the place of its old ones;
/// every other line stays as it is.
pub proof fn law_hunks_replace_the_lines_they_expect(original: Seq<char>, hunks: Seq<HunkView>)
    ensures
        patch_model::apply_hunks(original, hunks) is Ok <==> fits(
            text::inclusive_lines(original),
            hunks,
            0,
            0,
        ),
        patch_model::apply_hunks(original, hunks) matches Ok(result) ==> result == patched(
            text::inclusive_lines(original),
            hunks,
            0,
            0,
        ),
{
    let lines = text::inclusive_lines(original);
    let none = Progress { cursor: 0, output: Seq::empty() };
    lemma_hunks_applied(lines, hunks, 0, none);
    assert(none.output + patched(lines, hunks, 0, 0) == patched(lines, hunks, 0, 0));
}

spec fn with_line_feeds(pieces: Seq<Seq<char>>) -> Seq<Seq<char>> {
    let ended = pieces.drop_last().map_values(|line: Seq<char>| line.push('\n'));
    if pieces.last().len() == 0 {
        ended
    } else {
        ended.push(pieces.last())
    }
}

proof fn lemma_pieces_make_the_rest(content: Seq<char>, from: int)
    requires
        0 <= from <= content.len(),
    ensures
        text::split_from(content, '\n', from).len() > 0,
        ({
            let lines = with_line_feeds(text::split_from(content, '\n', from));
            patch_model::joined_lines(lines, 0, lines.len() as int) == content.skip(from)
        }),
    decreases content.len() - from,
{
    text::lemma_first_position(content, '\n', from);
    let pieces = text::split_from(content, '\n', from);
    let lines = with_line_feeds(pieces);
    match text::first_position(content, '\n', from) {
        Some(position) => {
            lemma_pieces_make_the_rest(content, position + 1);
            let first = content.subrange(from, position);
            let rest = text::split_from(content, '\n', position + 1);
            assert(pieces == seq![first] + rest);
            assert(pieces.last() == rest.last());
            assert(pieces.drop_last() == seq![first] + rest.drop_last());
            let later = with_line_feeds(rest);
            assert(lines == seq![first.push('\n')] + later);
            lemma_joined_first(first.push('\n'), later);
            assert(content.skip(from) == first.push('\n') + content.skip(position + 1));
        },
        None => {
            let last = content.skip(from);
            assert(pieces == seq![last]);
            assert(pieces.drop_last() == Seq::<Seq<char>>::empty());
            if last.len() > 0 {
                assert(lines == seq![last] + Seq::<Seq<char>>::empty());
                lemma_joined_first(last, Seq::empty());
                assert(last + Seq::<char>::empty() == last);
            } else {
                assert(lines == Seq::<Seq<char>>::empty());
            }
        },
    }
}

/// The lines of a text in a row are the text.
pub proof fn law_lines_make_the_text(content: Seq<char>)
    ensures
        patch_model::joined_lines(
            text::inclusive_lines(content),
            0,
            text::inclusive_lines(content).len() as int,
        ) == content,
{
    lemma_pieces_make_the_rest(content, 0);
    assert(with_line_feeds(text::split(content, '\n')) == text::inclusive_lines(content));
    assert(content.skip(0) == content);
}

/// Whether a hunk has context lines alone.
pub open spec fn is_context(hunk: HunkView) -> bool {
    forall|i: int| 0 <= i < hunk.lines.len() ==> #[trigger] hunk.lines[i] is Context
}

proof fn lemma_context_sides(hunk: HunkView, at: int)
    requires
        0 <= at,
        is_context(hunk),
    ensures
        new_side(hunk.lines, at) == old_side(hunk.lines, at),
    decreases hunk.lines.len() - at,
{
    if at < hunk.lines.len() {
        assert(hunk.lines[at] is Context);
        lemma_context_sides(hunk, at + 1);
    }
}

proof fn lemma_context_changes_nothing(
    original: Seq<Seq<char>>,
    hunks: Seq<HunkView>,
    at: int,
    cursor: int,
)
    requires
        0 <= at <= hunks.len(),
        0 <= cursor <= original.len(),
        forall|i: int| 0 <= i < hunks.len() ==> is_context(#[trigger] hunks[i]),
        fits(original, hunks, at, cursor),
    ensures
        patched(original, hunks, at, cursor) == patch_model::joined_lines(
            original,
            cursor,
            original.len() as int,
        ),
    decreases hunks.len() - at,
{
    if at < hunks.len() {
        let hunk = hunks[at];
        let start = patch_model::first_line(hunk) as int;
        let behind = line_behind(hunk);
        let held = old_side(hunk.lines, 0);
        lemma_context_sides(hunk, 0);
        lemma_context_changes_nothing(original, hunks, at + 1, behind);
        lemma_joined_range(original, held, start, held.len() as int);
        lemma_joined_parts(original, cursor, start, original.len() as int);
        lemma_joined_parts(original, start, behind, original.len() as int);
        let gap = patch_model::joined_lines(original, cursor, start);
        let middle = patch_model::joined_lines(original, start, behind);
        let tail = patch_model::joined_lines(original, behind, original.len() as int);
        assert(gap + middle + tail == gap + (middle + tail));
    }
}

/// A patch of context lines alone leaves the text that it applies to as it is.
pub proof fn law_context_alone_changes_nothing(original: Seq<char>, hunks: Seq<HunkView>)
    requires
        forall|i: int| 0 <= i < hunks.len() ==> is_context(#[trigger] hunks[i]),
    ensures
        patch_model::apply_hunks(original, hunks) matches Ok(result) ==> result == original,
{
    law_hunks_replace_the_lines_they_expect(original, hunks);
    law_lines_make_the_text(original);
    if patch_model::apply_hunks(original, hunks) is Ok {
        lemma_context_changes_nothing(text::inclusive_lines(original), hunks, 0, 0);
    }
}

proof fn lemma_totals_of_equals(first: Seq<LineView>, second: Seq<LineView>, count: int)
    requires
        count <= first.len(),
        count <= second.len(),
        forall|i: int|
            0 <= i < count ==> patch_model::old_lines(#[trigger] first[i]) == patch_model::old_lines(second[i])
                && patch_model::new_lines(first[i]) == patch_model::new_lines(second[i]),
    ensures
        patch_model::old_total(first, count) == patch_model::old_total(second, count),
        patch_model::new_total(first, count) == patch_model::new_total(second, count),
    decreases count,
{
    if count > 0 {
        lemma_totals_of_equals(first, second, count - 1);
    }
}

proof fn lemma_totals_after_strip(lines: Seq<LineView>)
    ensures
        patch_model::strip_last(lines) matches Ok(stripped) ==> {
            &&& patch_model::old_total(stripped, stripped.len() as int) == patch_model::old_total(lines, lines.len() as int)
            &&& patch_model::new_total(stripped, stripped.len() as int) == patch_model::new_total(lines, lines.len() as int)
        },
{
    if let Ok(stripped) = patch_model::strip_last(lines) {
        lemma_totals_of_equals(stripped, lines, lines.len() as int);
    }
}

proof fn lemma_body_totals(
    lines: Seq<Seq<char>>,
    at: int,
    old_left: nat,
    new_left: nat,
    body: Seq<LineView>,
)
    ensures
        patch_model::hunk_body(lines, at, old_left, new_left, body) matches Ok((_, read)) ==> {
            &&& patch_model::old_total(read, read.len() as int) == patch_model::old_total(body, body.len() as int) + old_left
            &&& patch_model::new_total(read, read.len() as int) == patch_model::new_total(body, body.len() as int) + new_left
        },
    decreases lines.len() - at,
{
    if !(old_left == 0 && new_left == 0) && 0 <= at < lines.len() {
        if patch_model::is_newline_marker(lines[at]) {
            lemma_totals_after_strip(body);
            if let Ok(stripped) = patch_model::strip_last(body) {
                lemma_body_totals(lines, at + 1, old_left, new_left, stripped);
            }
        } else if let Some(line) = patch_model::hunk_line(lines[at]) {
            if patch_model::old_lines(line) <= old_left && patch_model::new_lines(line) <= new_left {
                lemma_totals_of_equals(body, body.push(line), body.len() as int);
                lemma_body_totals(
                    lines,
                    at + 1,
                    (old_left - patch_model::old_lines(line)) as nat,
                    (new_left - patch_model::new_lines(line)) as nat,
                    body.push(line),
                );
            }
        }
    }
}

/// Whether every hunk of a file patch is as long as its header says.
pub open spec fn hunks_complete(hunks: Seq<HunkView>) -> bool {
    forall|i: int| 0 <= i < hunks.len() ==> patch_model::counts_match(#[trigger] hunks[i])
}

proof fn lemma_hunk_is_complete(lines: Seq<Seq<char>>, at: int)
    ensures
        patch_model::hunk_at(lines, at) matches Ok((_, hunk)) ==> patch_model::counts_match(hunk),
{
    if let Ok((old_start, old_count, new_count)) = patch_model::hunk_header(lines[at]) {
        lemma_body_totals(lines, at + 1, old_count, new_count, Seq::empty());
        if let Ok((next, body)) = patch_model::hunk_body(lines, at + 1, old_count, new_count, Seq::empty()) {
            lemma_totals_after_strip(body);
        }
    }
}

proof fn lemma_hunks_are_complete(lines: Seq<Seq<char>>, at: int, hunks: Seq<HunkView>)
    requires
        0 <= at <= lines.len(),
        hunks_complete(hunks),
    ensures
        patch_model::hunks_from(lines, at, hunks) matches Ok((_, read)) ==> hunks_complete(read),
    decreases lines.len() - at,
{
    if at < lines.len() && "@@"@.is_prefix_of(lines[at]) {
        patch_model::lemma_hunk_advances(lines, at);
        lemma_hunk_is_complete(lines, at);
        if let Ok((next, hunk)) = patch_model::hunk_at(lines, at) {
            lemma_hunks_are_complete(lines, next, hunks.push(hunk));
        }
    }
}

proof fn lemma_files_are_complete(lines: Seq<Seq<char>>, at: int, files: Seq<FilePatchView>)
    requires
        0 <= at <= lines.len(),
        forall|i: int|
            0 <= i < files.len() ==> hunks_complete((#[trigger] files[i]).hunks)
                && files[i].hunks.len() > 0,
    ensures
        patch_model::files_from(lines, at, files) matches Ok(read) ==> forall|i: int|
            0 <= i < read.len() ==> hunks_complete((#[trigger] read[i]).hunks)
                && read[i].hunks.len() > 0,
    decreases lines.len() - at,
{
    patch_model::lemma_next_header_advances(lines, at);
    let header = patch_model::next_header(lines, at);
    if header < lines.len() {
        patch_model::lemma_file_patch_advances(lines, header);
        if header + 2 <= lines.len() {
            lemma_hunks_are_complete(lines, header + 2, Seq::empty());
        }
        if let Ok((next, file)) = patch_model::file_patch_at(lines, header) {
            lemma_files_are_complete(lines, next, files.push(file));
        }
    }
}

/// Every file patch that was read has a hunk, and every hunk of it is as long as
/// its header says.
pub proof fn law_read_hunks_are_complete(patch: Seq<char>)
    ensures
        patch_model::parse_patch(patch) matches Ok(files) ==> forall|i: int|
            0 <= i < files.len() ==> hunks_complete((#[trigger] files[i]).hunks)
                && files[i].hunks.len() > 0,
{
    lemma_files_are_complete(text::inclusive_lines(patch), 0, Seq::empty());
}

/// Whether a line ends in its only line feed.
pub open spec fn is_whole(line: Seq<char>) -> bool {
    &&& line.len() > 0
    &&& line.last() == '\n'
    &&& forall|i: int| 0 <= i < line.len() - 1 ==> #[trigger] line[i] != '\n'
}

/// Whether a text could be cut into these lines: all but the last end in their
/// only line feed, and the last may have none.
pub open spec fn are_lines(lines: Seq<Seq<char>>) -> bool {
    forall|i: int|
        0 <= i < lines.len() ==> (is_whole(#[trigger] lines[i]) || i == lines.len() - 1
            && lines[i].len() > 0 && !lines[i].contains('\n'))
}

proof fn lemma_place_of_line(lines: Seq<Seq<char>>, at: int)
    requires
        0 <= at < lines.len(),
    ensures
        ({
            let whole = patch_model::joined_lines(lines, 0, lines.len() as int);
            let before = patch_model::joined_lines(lines, 0, at).len() as int;
            &&& patch_model::joined_lines(lines, 0, at + 1).len() == before + lines[at].len()
            &&& before + lines[at].len() <= whole.len()
            &&& whole.subrange(before, before + lines[at].len() as int) == lines[at]
        }),
{
    let count = lines.len() as int;
    lemma_joined_parts(lines, 0, at, count);
    lemma_joined_parts(lines, at, at + 1, count);
    assert(patch_model::joined_lines(lines, at, at) == Seq::<char>::empty());
    assert(patch_model::joined_lines(lines, at, at + 1) == lines[at]);
    assert(patch_model::joined_lines(lines, 0, at + 1) == patch_model::joined_lines(lines, 0, at)
        + lines[at]);
    let whole = patch_model::joined_lines(lines, 0, count);
    let before = patch_model::joined_lines(lines, 0, at);
    let behind = patch_model::joined_lines(lines, at + 1, count);
    assert(whole == before + (lines[at] + behind));
    assert(whole.subrange(before.len() as int, before.len() + lines[at].len() as int)
        == lines[at]);
}

proof fn lemma_lines_are_found_again(lines: Seq<Seq<char>>, at: int)
    requires
        0 <= at <= lines.len(),
        are_lines(lines),
    ensures
        ({
            let whole = patch_model::joined_lines(lines, 0, lines.len() as int);
            let from = patch_model::joined_lines(lines, 0, at).len() as int;
            &&& text::split_from(whole, '\n', from).len() > 0
            &&& with_line_feeds(text::split_from(whole, '\n', from)) == lines.skip(at)
        }),
    decreases lines.len() - at,
{
    let whole = patch_model::joined_lines(lines, 0, lines.len() as int);
    let from = patch_model::joined_lines(lines, 0, at).len() as int;
    let pieces = text::split_from(whole, '\n', from);
    text::lemma_first_position(whole, '\n', from);
    if at == lines.len() {
        assert(text::first_position(whole, '\n', from) is None);
        assert(pieces == seq![whole.skip(from)]);
        assert(whole.skip(from).len() == 0);
        assert(with_line_feeds(pieces) =~= lines.skip(at));
    } else {
        lemma_place_of_line(lines, at);
        let line = lines[at];
        assert forall|i: int| 0 <= i < line.len() implies #[trigger] line[i] == whole[from + i] by {
            assert(whole.subrange(from, from + line.len() as int)[i] == whole[from + i]);
        }
        if is_whole(line) {
            let end = from + line.len() - 1;
            assert(line[line.len() - 1] == whole[end]);
            assert forall|i: int| from <= i < end implies whole[i] != '\n' by {
                assert(line[i - from] == whole[i]);
            }
            assert(text::first_position(whole, '\n', from) == Some(end));
            lemma_lines_are_found_again(lines, at + 1);
            let first = whole.subrange(from, end);
            let rest = text::split_from(whole, '\n', end + 1);
            assert(pieces == seq![first] + rest);
            assert(pieces.last() == rest.last());
            assert(pieces.drop_last() =~= seq![first] + rest.drop_last());
            assert(first.push('\n') =~= line);
            assert(with_line_feeds(pieces) =~= seq![line] + with_line_feeds(rest));
            assert(lines.skip(at) =~= seq![line] + lines.skip(at + 1));
        } else {
            assert(at == lines.len() - 1);
            assert(from + line.len() == whole.len());
            if let Some(position) = text::first_position(whole, '\n', from) {
                assert(line[position - from] == '\n');
                assert(line.contains('\n'));
            }
            assert(whole.skip(from) =~= line);
            assert(pieces == seq![line]);
            assert(with_line_feeds(pieces) =~= seq![line]);
            assert(lines.skip(at) =~= seq![line]);
        }
    }
}

/// Lines that a text could be cut into are the lines of the text that they make
/// in a row.
pub proof fn law_lines_in_a_row_are_found_again(lines: Seq<Seq<char>>)
    requires
        are_lines(lines),
    ensures
        text::inclusive_lines(patch_model::joined_lines(lines, 0, lines.len() as int)) == lines,
{
    lemma_lines_are_found_again(lines, 0);
    let whole = patch_model::joined_lines(lines, 0, lines.len() as int);
    assert(with_line_feeds(text::split(whole, '\n')) == text::inclusive_lines(whole));
    assert(lines.skip(0) =~= lines);
}

proof fn lemma_pieces_are_lines(content: Seq<char>, from: int)
    requires
        0 <= from <= content.len(),
    ensures
        text::split_from(content, '\n', from).len() > 0,
        are_lines(with_line_feeds(text::split_from(content, '\n', from))),
    decreases content.len() - from,
{
    text::lemma_first_position(content, '\n', from);
    let pieces = text::split_from(content, '\n', from);
    let lines = with_line_feeds(pieces);
    match text::first_position(content, '\n', from) {
        Some(position) => {
            lemma_pieces_are_lines(content, position + 1);
            let first = content.subrange(from, position);
            let rest = text::split_from(content, '\n', position + 1);
            assert(pieces == seq![first] + rest);
            assert(pieces.last() == rest.last());
            assert(pieces.drop_last() =~= seq![first] + rest.drop_last());
            let later = with_line_feeds(rest);
            assert(lines =~= seq![first.push('\n')] + later);
            assert(is_whole(first.push('\n')));
            assert forall|i: int| 0 <= i < lines.len() implies (is_whole(#[trigger] lines[i]) || i
                == lines.len() - 1 && lines[i].len() > 0 && !lines[i].contains('\n')) by {
                if i > 0 {
                    assert(lines[i] == later[i - 1]);
                }
            }
        },
        None => {
            let last = content.skip(from);
            assert(pieces == seq![last]);
            if last.len() > 0 {
                assert(lines =~= seq![last]);
            } else {
                assert(lines =~= Seq::<Seq<char>>::empty());
            }
        },
    }
}

/// The text of a hunk line.
pub open spec fn line_text(line: LineView) -> Seq<char> {
    match line {
        LineView::Context(line) => line,
        LineView::Remove(line) => line,
        LineView::Add(line) => line,
    }
}

/// A hunk line with its sides swapped.
pub open spec fn reversed_line(line: LineView) -> LineView {
    match line {
        LineView::Context(line) => LineView::Context(line),
        LineView::Remove(line) => LineView::Add(line),
        LineView::Add(line) => LineView::Remove(line),
    }
}

/// A hunk with its sides swapped.
pub open spec fn reversed(hunk: HunkView) -> HunkView {
    HunkView {
        old_start: hunk.old_start,
        old_count: hunk.new_count,
        new_count: hunk.old_count,
        lines: hunk.lines.map_values(|line: LineView| reversed_line(line)),
    }
}

proof fn lemma_reversed_sides(hunk: HunkView, at: int)
    requires
        0 <= at,
    ensures
        old_side(reversed(hunk).lines, at) == new_side(hunk.lines, at),
        new_side(reversed(hunk).lines, at) == old_side(hunk.lines, at),
    decreases hunk.lines.len() - at,
{
    if at < hunk.lines.len() {
        lemma_reversed_sides(hunk, at + 1);
    }
}

proof fn lemma_reversed_totals(hunk: HunkView, count: int)
    requires
        count <= hunk.lines.len(),
    ensures
        patch_model::old_total(reversed(hunk).lines, count) == patch_model::new_total(
            hunk.lines,
            count,
        ),
        patch_model::new_total(reversed(hunk).lines, count) == patch_model::old_total(
            hunk.lines,
            count,
        ),
    decreases count,
{
    if count > 0 {
        lemma_reversed_totals(hunk, count - 1);
    }
}

/// Whether all lines of a hunk are whole ones.
pub open spec fn has_whole_lines(hunk: HunkView) -> bool {
    forall|i: int| 0 <= i < hunk.lines.len() ==> is_whole(line_text(#[trigger] hunk.lines[i]))
}

proof fn lemma_sides_are_whole(hunk: HunkView, at: int)
    requires
        0 <= at,
        has_whole_lines(hunk),
    ensures
        forall|i: int|
            0 <= i < old_side(hunk.lines, at).len() ==> is_whole(
                #[trigger] old_side(hunk.lines, at)[i],
            ),
        forall|i: int|
            0 <= i < new_side(hunk.lines, at).len() ==> is_whole(
                #[trigger] new_side(hunk.lines, at)[i],
            ),
    decreases hunk.lines.len() - at,
{
    if at < hunk.lines.len() {
        lemma_sides_are_whole(hunk, at + 1);
        assert(is_whole(line_text(hunk.lines[at])));
        let old_rest = old_side(hunk.lines, at + 1);
        let new_rest = new_side(hunk.lines, at + 1);
        let old_all = old_side(hunk.lines, at);
        let new_all = new_side(hunk.lines, at);
        assert forall|i: int| 0 <= i < old_all.len() implies is_whole(#[trigger] old_all[i]) by {
            if !(hunk.lines[at] is Add) {
                if i > 0 {
                    assert(old_all[i] == old_rest[i - 1]);
                }
            }
        }
        assert forall|i: int| 0 <= i < new_all.len() implies is_whole(#[trigger] new_all[i]) by {
            if !(hunk.lines[at] is Remove) {
                if i > 0 {
                    assert(new_all[i] == new_rest[i - 1]);
                }
            }
        }
    }
}

proof fn lemma_old_total_is_the_old_side(lines: Seq<LineView>, at: int)
    requires
        0 <= at <= lines.len(),
    ensures
        patch_model::old_total(lines, at) + old_side(lines, at).len() == patch_model::old_total(
            lines,
            lines.len() as int,
        ),
    decreases lines.len() - at,
{
    if at < lines.len() {
        lemma_old_total_is_the_old_side(lines, at + 1);
    }
}

/// A hunk of whole lines that stands in the place of at least one line can be
/// taken back: with its sides swapped it turns the patched text into the text
/// that it was applied to.
pub proof fn law_swapped_hunks_take_a_patch_back(before: Seq<char>, after: Seq<char>, hunk: HunkView)
    requires
        hunk.old_count > 0,
        has_whole_lines(hunk),
        patch_model::apply_hunks(before, seq![hunk]) == Ok::<Seq<char>, PatchErrorView>(after),
    ensures
        patch_model::apply_hunks(after, seq![reversed(hunk)]) == Ok::<Seq<char>, PatchErrorView>(
            before,
        ),
{
    let lines = text::inclusive_lines(before);
    let hunks = seq![hunk];
    let back = reversed(hunk);
    let start = patch_model::first_line(hunk) as int;
    let behind = line_behind(hunk);
    let old_lines = old_side(hunk.lines, 0);
    let new_lines = new_side(hunk.lines, 0);
    law_hunks_replace_the_lines_they_expect(before, hunks);
    law_lines_make_the_text(before);
    assert(hunks[0] == hunk);
    assert(fits(lines, hunks, 0, 0));
    reveal_with_fuel(fits, 2);
    reveal_with_fuel(patched, 2);
    lemma_old_total_is_the_old_side(hunk.lines, 0);
    assert(old_lines.len() == hunk.old_count);
    lemma_pieces_are_lines(before, 0);
    assert(with_line_feeds(text::split(before, '\n')) == lines);
    lemma_sides_are_whole(hunk, 0);
    let changed = lines.take(start) + new_lines + lines.skip(behind);
    assert forall|i: int| 0 <= i < changed.len() implies (is_whole(#[trigger] changed[i]) || i
        == changed.len() - 1 && changed[i].len() > 0 && !changed[i].contains('\n')) by {
        if i < start {
            assert(changed[i] == lines[i]);
        } else if i < start + new_lines.len() {
            assert(changed[i] == new_lines[i - start]);
        } else {
            assert(changed[i] == lines[i - start - new_lines.len() + behind]);
        }
    }
    let count = changed.len() as int;
    let middle = start + new_lines.len() as int;
    lemma_joined_parts(changed, 0, start, count);
    lemma_joined_parts(changed, start, middle, count);
    assert(changed.subrange(start, middle) =~= new_lines);
    lemma_joined_range(changed, new_lines, start, new_lines.len() as int);
    lemma_same_lines(changed, lines, 0, 0, start);
    lemma_same_lines(changed, lines, middle, behind, lines.len() - behind);
    let head = patch_model::joined_lines(lines, 0, start);
    let body = patch_model::joined_lines(new_lines, 0, new_lines.len() as int);
    let tail = patch_model::joined_lines(lines, behind, lines.len() as int);
    assert(after == head + body + tail);
    assert(patch_model::joined_lines(changed, 0, count) =~= after);
    law_lines_in_a_row_are_found_again(changed);
    assert(text::inclusive_lines(after) == changed);

    lemma_reversed_sides(hunk, 0);
    lemma_reversed_totals(hunk, hunk.lines.len() as int);
    let reverse = seq![back];
    law_hunks_replace_the_lines_they_expect(after, reverse);
    assert(reverse[0] == back);
    assert(patch_model::first_line(back) == start);
    assert(line_behind(back) == middle);
    assert(holds_at(changed, start, new_lines));
    assert(patch_model::counts_match(back));
    assert(fits(changed, reverse, 0, 0));
    let held = patch_model::joined_lines(old_lines, 0, old_lines.len() as int);
    assert(patched(changed, reverse, 0, 0) == patch_model::joined_lines(changed, 0, start) + held
        + patch_model::joined_lines(changed, middle, count));
    lemma_joined_range(lines, old_lines, start, old_lines.len() as int);
    lemma_joined_parts(lines, 0, start, lines.len() as int);
    lemma_joined_parts(lines, start, behind, lines.len() as int);
    assert(before =~= head + held + tail);
}

proof fn lemma_same_lines(
    first: Seq<Seq<char>>,
    second: Seq<Seq<char>>,
    from: int,
    other: int,
    count: int,
)
    requires
        0 <= from,
        0 <= other,
        from + count <= first.len(),
        other + count <= second.len(),
        forall|i: int| 0 <= i < count ==> #[trigger] first[from + i] == second[other + i],
    ensures
        patch_model::joined_lines(first, from, from + count) == patch_model::joined_lines(
            second,
            other,
            other + count,
        ),
    decreases count,
{
    if count > 0 {
        lemma_same_lines(first, second, from, other, count - 1);
        assert(first[from + (count - 1)] == second[other + (count - 1)]);
    }
}

/// A run comes to the last look before a publication only with the text that the
/// patch makes of the text that was read. A file that exists is replaced only
/// where the patch, if it names a file at all, names both a source and a target,
/// and one that does not is created only by a patch that has no source.
pub proof fn law_only_patched_texts_are_polled(run: RunView, event: EventView, stopped: bool)
    requires
        !(run is Polling),
    ensures
        patch_model::advance(run, event, stopped) matches RunView::Polling {
            path,
            content,
            replaces,
        } ==> {
            &&& !stopped
            &&& match (run, event) {
                (RunView::Resolving { file, .. }, EventView::Resolved(Ok((found, existed)))) => {
                    &&& !existed && !replaces
                    &&& found == path
                    &&& patch_model::prepare_change(file, None) == Ok::<Seq<char>, PatchErrorView>(
                        content,
                    )
                    &&& file.old_path is None
                },
                (RunView::Reading { file, path: found }, EventView::Read(Ok(original))) => {
                    &&& replaces
                    &&& found == path
                    &&& patch_model::prepare_change(file, Some(original)) == Ok::<
                        Seq<char>,
                        PatchErrorView,
                    >(content)
                    &&& (file.old_path is Some || file.new_path is Some) ==> (file.old_path is Some
                        && file.new_path is Some)
                },
                _ => false,
            }
        },
{
}

/// A run comes to publish a text only from the last look, which found no request
/// to stop, and only where the text is not too long.
pub proof fn law_only_polled_texts_are_published(run: RunView, event: EventView, stopped: bool)
    requires
        !(run is Publishing),
    ensures
        patch_model::advance(run, event, stopped) matches RunView::Publishing {
            path,
            content,
            replaces,
        } ==> {
            &&& run == (RunView::Polling { path, content, replaces })
            &&& event == EventView::Cancellation(false)
            &&& vstd::utf8::encode_utf8(content).len() <= patch_model::MAX_PATCH_FILE_BYTES
        },
{
}

/// A run that publishes ends as the publication did, and one that has ended stays
/// as it is, whatever a look would say.
pub proof fn law_a_publication_is_not_cancelled(run: RunView, event: EventView, stopped: bool)
    requires
        run is Publishing || run is Finished,
    ensures
        !patch_model::prepares(run, event),
        patch_model::advance(run, event, stopped) == patch_model::advance(run, event, false),
        run is Finished ==> patch_model::advance(run, event, stopped) == run,
        run matches RunView::Publishing { path, .. } ==> match event {
            EventView::Published(publication) => patch_model::advance(run, event, stopped)
                == RunView::Finished(patch_model::publication_result(path, publication)),
            _ => patch_model::advance(run, event, stopped) == run,
        },
{
}

/// A patch that does not hold the patch of exactly one file never gets to its
/// target: it ends with an error.
pub proof fn law_one_file_alone_is_patched(patch: Seq<char>, stopped: bool)
    requires
        patch_model::parse_patch(patch) matches Ok(files) ==> files.len() != 1,
    ensures
        patch_model::begin(patch, stopped) matches RunView::Finished(Err(_)),
{
}

/// Where a run stands that began with `patch` and was told `steps`: at each step
/// an event, and whether a look meanwhile said that it is to stop.
pub open spec fn run_after(
    patch: Seq<char>,
    stopped: bool,
    steps: Seq<(EventView, bool)>,
) -> RunView
    decreases steps.len(),
{
    if steps.len() == 0 {
        patch_model::begin(patch, stopped)
    } else {
        patch_model::advance(
            run_after(patch, stopped, steps.drop_last()),
            steps.last().0,
            steps.last().1,
        )
    }
}

/// The files of a workspace once a run that stands at `run` was told `event`: a
/// file is written by a publication, and by nothing else.
pub open spec fn files_after_step(
    run: RunView,
    event: EventView,
    files: Map<Seq<char>, Seq<u8>>,
) -> Map<Seq<char>, Seq<u8>> {
    match (run, event) {
        (RunView::Publishing { path, content, .. }, EventView::Published(publication)) => {
            match publication {
                PublicationView::BeforePublication { .. } => files,
                _ => files.insert(path, vstd::utf8::encode_utf8(content)),
            }
        },
        _ => files,
    }
}

/// The files of a workspace once a run was told `steps`.
pub open spec fn files_after(
    patch: Seq<char>,
    stopped: bool,
    steps: Seq<(EventView, bool)>,
    files: Map<Seq<char>, Seq<u8>>,
) -> Map<Seq<char>, Seq<u8>>
    decreases steps.len(),
{
    if steps.len() == 0 {
        files
    } else {
        files_after_step(
            run_after(patch, stopped, steps.drop_last()),
            steps.last().0,
            files_after(patch, stopped, steps.drop_last(), files),
        )
    }
}

/// Whether what a run is told is true of the files: which of them there are, and
/// what they hold. A read does not say that something was published.
pub open spec fn is_true_of(
    run: RunView,
    event: EventView,
    files: Map<Seq<char>, Seq<u8>>,
) -> bool {
    match (run, event) {
        (RunView::Resolving { .. }, EventView::Resolved(Ok((path, existed)))) => existed
            == files.contains_key(path),
        (RunView::Reading { path, .. }, EventView::Read(Ok(content))) => files.contains_key(path)
            && files[path] == vstd::utf8::encode_utf8(content),
        (RunView::Reading { .. }, EventView::Read(Err(error))) => !(error is Published),
        _ => true,
    }
}

/// Whether everything that a run is told is true of the files at that time.
pub open spec fn are_true_of(
    patch: Seq<char>,
    stopped: bool,
    steps: Seq<(EventView, bool)>,
    files: Map<Seq<char>, Seq<u8>>,
) -> bool
    decreases steps.len(),
{
    steps.len() > 0 ==> {
        &&& are_true_of(patch, stopped, steps.drop_last(), files)
        &&& is_true_of(
            run_after(patch, stopped, steps.drop_last()),
            steps.last().0,
            files_after(patch, stopped, steps.drop_last(), files),
        )
    }
}

/// Whether `content` is what the one file patch in `patch` makes of a file that
/// holds `original`, or of none.
pub open spec fn is_patched(
    patch: Seq<char>,
    original: Option<Seq<char>>,
    content: Seq<char>,
) -> bool {
    patch_model::parse_patch(patch) matches Ok(files) && files.len() == 1
        && patch_model::prepare_change(files[0], original) == Ok::<Seq<char>, PatchErrorView>(
        content,
    )
}

/// Whether `content` is what `patch` makes of the file at `path`.
pub open spec fn patches_file(
    patch: Seq<char>,
    files: Map<Seq<char>, Seq<u8>>,
    path: Seq<char>,
    content: Seq<char>,
) -> bool {
    if files.contains_key(path) {
        exists|original: Seq<char>|
            vstd::utf8::encode_utf8(original) == files[path] && #[trigger] is_patched(
                patch,
                Some(original),
                content,
            )
    } else {
        is_patched(patch, None, content)
    }
}

/// Whether the files are as before, but that the one at `path` holds what `patch`
/// makes of it.
pub open spec fn patched_at(
    patch: Seq<char>,
    before: Map<Seq<char>, Seq<u8>>,
    after: Map<Seq<char>, Seq<u8>>,
    path: Seq<char>,
    content: Seq<char>,
) -> bool {
    &&& patches_file(patch, before, path, content)
    &&& after == before.insert(path, vstd::utf8::encode_utf8(content))
}

/// What a run has done to the files.
pub open spec fn has_done(
    patch: Seq<char>,
    run: RunView,
    before: Map<Seq<char>, Seq<u8>>,
    after: Map<Seq<char>, Seq<u8>>,
) -> bool {
    match run {
        RunView::Finished(Ok(result)) => exists|path: Seq<char>, content: Seq<char>| #[trigger]
            patched_at(patch, before, after, path, content) && result.changed_files
                == seq![tool_support::displayed_path(path)],
        RunView::Finished(Err(PatchErrorView::Published { .. })) => exists|
            path: Seq<char>,
            content: Seq<char>,
        | #[trigger] patched_at(patch, before, after, path, content),
        _ => after == before,
    }
}

/// What a run knows by where it stands.
spec fn is_on_course(patch: Seq<char>, run: RunView, files: Map<Seq<char>, Seq<u8>>) -> bool {
    match run {
        RunView::Resolving { file, .. } => patch_model::parse_patch(patch) matches Ok(read)
            && read.len() == 1 && read[0] == file,
        RunView::Reading { file, .. } => patch_model::parse_patch(patch) matches Ok(read)
            && read.len() == 1 && read[0] == file,
        RunView::Polling { path, content, .. } => patches_file(patch, files, path, content),
        RunView::Publishing { path, content, .. } => patches_file(patch, files, path, content),
        _ => true,
    }
}

/// Whether an error says something of the patch or of the text that it is
/// applied to.
spec fn is_of_content(error: PatchErrorView) -> bool {
    error is InvalidPatch || error is Limit || error is Conflict
}

proof fn lemma_body_errors(
    lines: Seq<Seq<char>>,
    at: int,
    old_left: nat,
    new_left: nat,
    body: Seq<LineView>,
)
    ensures
        patch_model::hunk_body(lines, at, old_left, new_left, body) matches Err(error)
            ==> is_of_content(error),
    decreases lines.len() - at,
{
    if (old_left > 0 || new_left > 0) && 0 <= at < lines.len() {
        if patch_model::is_newline_marker(lines[at]) {
            if let Ok(stripped) = patch_model::strip_last(body) {
                lemma_body_errors(lines, at + 1, old_left, new_left, stripped);
            }
        } else if let Some(line) = patch_model::hunk_line(lines[at]) {
            if patch_model::old_lines(line) <= old_left && patch_model::new_lines(line)
                <= new_left {
                lemma_body_errors(
                    lines,
                    at + 1,
                    (old_left - patch_model::old_lines(line)) as nat,
                    (new_left - patch_model::new_lines(line)) as nat,
                    body.push(line),
                );
            }
        }
    }
}

proof fn lemma_hunk_errors(lines: Seq<Seq<char>>, at: int)
    ensures
        patch_model::hunk_at(lines, at) matches Err(error) ==> is_of_content(error),
{
    if let Ok((_, old_count, new_count)) = patch_model::hunk_header(lines[at]) {
        lemma_body_errors(lines, at + 1, old_count, new_count, Seq::empty());
    }
}

proof fn lemma_hunks_errors(lines: Seq<Seq<char>>, at: int, hunks: Seq<HunkView>)
    ensures
        patch_model::hunks_from(lines, at, hunks) matches Err(error) ==> is_of_content(error),
    decreases lines.len() - at,
{
    if 0 <= at < lines.len() && "@@"@.is_prefix_of(lines[at]) {
        lemma_hunk_errors(lines, at);
        if let Ok((next, hunk)) = patch_model::hunk_at(lines, at) {
            patch_model::lemma_hunk_advances(lines, at);
            lemma_hunks_errors(lines, next, hunks.push(hunk));
        }
    }
}

proof fn lemma_files_errors(lines: Seq<Seq<char>>, at: int, files: Seq<FilePatchView>)
    ensures
        patch_model::files_from(lines, at, files) matches Err(error) ==> is_of_content(error),
    decreases lines.len() - at,
{
    let header = patch_model::next_header(lines, at);
    if 0 <= at <= header < lines.len() {
        lemma_hunks_errors(lines, header + 2, Seq::empty());
        assert(patch_model::file_patch_at(lines, header) matches Err(error) ==> is_of_content(
            error,
        ));
        if let Ok((next, file)) = patch_model::file_patch_at(lines, header) {
            patch_model::lemma_file_patch_advances(lines, header);
            lemma_files_errors(lines, next, files.push(file));
        }
    }
}

proof fn lemma_lines_errors(
    original: Seq<Seq<char>>,
    lines: Seq<LineView>,
    at: int,
    done: Progress,
)
    ensures
        patch_model::apply_lines(original, lines, at, done) matches Err(error) ==> is_of_content(
            error,
        ),
    decreases lines.len() - at,
{
    if 0 <= at < lines.len() {
        if let Ok(next) = patch_model::apply_line(original, lines[at], done) {
            lemma_lines_errors(original, lines, at + 1, next);
        }
    }
}

proof fn lemma_applied_errors(
    original: Seq<Seq<char>>,
    hunks: Seq<HunkView>,
    at: int,
    done: Progress,
)
    ensures
        patch_model::apply_hunks_from(original, hunks, at, done) matches Err(error)
            ==> is_of_content(error),
    decreases hunks.len() - at,
{
    if 0 <= at < hunks.len() {
        let start = patch_model::first_line(hunks[at]);
        lemma_lines_errors(
            original,
            hunks[at].lines,
            0,
            Progress {
                cursor: start,
                output: done.output + patch_model::joined_lines(
                    original,
                    done.cursor as int,
                    start as int,
                ),
            },
        );
        assert(patch_model::apply_hunk(original, hunks[at], done) matches Err(error)
            ==> is_of_content(error));
        if let Ok(next) = patch_model::apply_hunk(original, hunks[at], done) {
            lemma_applied_errors(original, hunks, at + 1, next);
        }
    }
}

proof fn lemma_steps(
    patch: Seq<char>,
    stopped: bool,
    steps: Seq<(EventView, bool)>,
    files: Map<Seq<char>, Seq<u8>>,
)
    requires
        are_true_of(patch, stopped, steps, files),
    ensures
        has_done(
            patch,
            run_after(patch, stopped, steps),
            files,
            files_after(patch, stopped, steps, files),
        ),
        is_on_course(patch, run_after(patch, stopped, steps), files),
    decreases steps.len(),
{
    if steps.len() == 0 {
        lemma_files_errors(text::inclusive_lines(patch), 0, Seq::empty());
    } else {
        let earlier = steps.drop_last();
        lemma_steps(patch, stopped, earlier, files);
        let run = run_after(patch, stopped, earlier);
        let (event, looked) = steps.last();
        let begun = Progress { cursor: 0, output: Seq::empty() };
        match (run, event) {
            (RunView::Resolving { file, .. }, EventView::Resolved(Ok((path, existed)))) => {
                if !existed {
                    lemma_applied_errors(
                        text::inclusive_lines(Seq::empty()),
                        file.hunks,
                        0,
                        begun,
                    );
                    if let RunView::Polling { content, .. } = patch_model::advance(
                        run,
                        event,
                        looked,
                    ) {
                        assert(is_patched(patch, None, content));
                    }
                }
            },
            (RunView::Reading { file, path }, EventView::Read(Ok(original))) => {
                lemma_applied_errors(text::inclusive_lines(original), file.hunks, 0, begun);
                if let RunView::Polling { content, .. } = patch_model::advance(
                    run,
                    event,
                    looked,
                ) {
                    assert(is_patched(patch, Some(original), content));
                }
            },
            (RunView::Publishing { path, content, .. }, EventView::Published(publication)) => {
                let after = files_after(patch, stopped, steps, files);
                if !(publication is BeforePublication) {
                    assert(patched_at(patch, files, after, path, content));
                }
            },
            _ => {},
        }
    }
}

/// A patch changes its one target or nothing. A run that has not ended, or ended
/// with an error other than one that came after the publication, has left every
/// file as it was. One that succeeded names exactly the one file that it changed,
/// and that file holds what the patch makes of what it held before; so does it
/// after an error that came after the publication.
pub proof fn law_a_patch_changes_its_target_or_nothing(
    patch: Seq<char>,
    stopped: bool,
    steps: Seq<(EventView, bool)>,
    files: Map<Seq<char>, Seq<u8>>,
)
    requires
        are_true_of(patch, stopped, steps, files),
    ensures
        has_done(
            patch,
            run_after(patch, stopped, steps),
            files,
            files_after(patch, stopped, steps, files),
        ),
{
    lemma_steps(patch, stopped, steps, files);
}

} // verus!
