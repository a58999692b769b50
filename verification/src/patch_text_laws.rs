//! What holds of every patch that is written down and read.

use crate::patch_laws;
use crate::patch_model;
use crate::patch_model::{FilePatchView, HunkView, LineView, PatchErrorView};
use crate::text;
use crate::text_laws;
use vstd::prelude::*;

verus! {

/// A hunk with what its header says besides: the line at which its new side
/// starts, and a note behind the ranges.
pub struct HunkText {
    pub hunk: HunkView,
    pub new_start: nat,
    pub note: Seq<char>,
}

/// A file patch with what a diff writes besides: the lines in front of its
/// headers, what stands before each path, and a note behind each path.
pub struct FileText {
    pub preamble: Seq<Seq<char>>,
    pub old_path: Option<Seq<char>>,
    pub old_side: Seq<char>,
    pub old_note: Seq<char>,
    pub new_path: Option<Seq<char>>,
    pub new_side: Seq<char>,
    pub new_note: Seq<char>,
    pub hunks: Seq<HunkText>,
}

/// The hunk line `line` written down: a space, a minus or a plus in front of its
/// text. A line without a line feed is followed by a line that says so.
pub open spec fn written_line(line: LineView) -> Seq<Seq<char>> {
    let mark = match line {
        LineView::Context(_) => ' ',
        LineView::Remove(_) => '-',
        LineView::Add(_) => '+',
    };
    let content = patch_laws::line_text(line);
    if content.contains('\n') {
        seq![seq![mark] + content]
    } else {
        seq![seq![mark] + content + seq!['\n'], "\\ No newline at end of file\n"@]
    }
}

/// The first `count` lines of a hunk written down.
pub open spec fn written_lines(lines: Seq<LineView>, count: int) -> Seq<Seq<char>>
    decreases count,
{
    if count <= 0 {
        Seq::empty()
    } else {
        written_lines(lines, count - 1) + written_line(lines[count - 1])
    }
}

/// A start and a count written down.
pub open spec fn written_range(start: nat, count: nat) -> Seq<char> {
    text::decimal_text(start).push(',') + text::decimal_text(count)
}

/// The header of a hunk written down.
pub open spec fn written_header(hunk: HunkText) -> Seq<char> {
    "@@"@ + (" "@ + ("-"@ + written_range(hunk.hunk.old_start, hunk.hunk.old_count)) + " "@ + ("+"@
        + written_range(hunk.new_start, hunk.hunk.new_count)) + " "@) + "@@"@ + (hunk.note + "\n"@)
}

/// A hunk written down.
pub open spec fn written_hunk(hunk: HunkText) -> Seq<Seq<char>> {
    seq![written_header(hunk)] + written_lines(hunk.hunk.lines, hunk.hunk.lines.len() as int)
}

/// The first `count` hunks written down.
pub open spec fn written_hunks(hunks: Seq<HunkText>, count: int) -> Seq<Seq<char>>
    decreases count,
{
    if count <= 0 {
        Seq::empty()
    } else {
        written_hunks(hunks, count - 1) + written_hunk(hunks[count - 1])
    }
}

/// A path as a header names it.
pub open spec fn written_path(side: Seq<char>, path: Option<Seq<char>>) -> Seq<char> {
    match path {
        Some(name) => side + name,
        None => "/dev/null"@,
    }
}

/// A file patch written down.
pub open spec fn written_file(file: FileText) -> Seq<Seq<char>> {
    file.preamble + seq![
        "--- "@ + written_path(file.old_side, file.old_path) + file.old_note + "\n"@,
        "+++ "@ + written_path(file.new_side, file.new_path) + file.new_note + "\n"@,
    ] + written_hunks(file.hunks, file.hunks.len() as int)
}

/// The first `count` file patches written down.
pub open spec fn written_files(files: Seq<FileText>, count: int) -> Seq<Seq<char>>
    decreases count,
{
    if count <= 0 {
        Seq::empty()
    } else {
        written_files(files, count - 1) + written_file(files[count - 1])
    }
}

/// Whether a hunk line stands for one line of a text: one that ends in its only
/// line feed, or one without a line end.
pub open spec fn is_one_line(line: LineView) -> bool {
    let content = patch_laws::line_text(line);
    ||| patch_laws::is_whole(content)
    ||| !content.contains('\n') && (content.len() > 0 ==> content.last() != '\r')
}

/// Whether a hunk can be written down: its lines are as many as its header says,
/// and its numbers are ones that the machine holds.
pub open spec fn is_hunk(hunk: HunkText) -> bool {
    &&& patch_model::counts_match(hunk.hunk)
    &&& forall|i: int| 0 <= i < hunk.hunk.lines.len() ==> is_one_line(#[trigger] hunk.hunk.lines[i])
    &&& hunk.hunk.old_start <= usize::MAX
    &&& hunk.hunk.old_count <= usize::MAX
    &&& hunk.hunk.new_count <= usize::MAX
    &&& hunk.new_start <= usize::MAX
    &&& !hunk.note.contains('\n')
}

/// Whether a header that names `path` behind `side`, with `note` behind it, can be
/// read again. A path is taken as it is, or behind `a/` or `b/`.
pub open spec fn is_heading(side: Seq<char>, path: Option<Seq<char>>, note: Seq<char>) -> bool {
    &&& note.len() > 0 ==> note[0] == '\t'
    &&& !note.contains('\n')
    &&& path matches Some(name) ==> {
        &&& name.len() > 0
        &&& !name.contains('\t') && !name.contains('\n') && !name.contains('\r')
        &&& side == "a/"@ || side == "b/"@ || side == ""@ && !"a/"@.is_prefix_of(name)
            && !"b/"@.is_prefix_of(name) && name != "/dev/null"@
    }
}

/// Whether a line is one that a diff may have in front of the headers of a file.
pub open spec fn is_preamble(line: Seq<char>) -> bool {
    &&& patch_laws::is_whole(line)
    &&& "diff --git "@.is_prefix_of(line) || "index "@.is_prefix_of(line)
        || "new file mode "@.is_prefix_of(line) || "deleted file mode "@.is_prefix_of(line)
        || "old mode "@.is_prefix_of(line) || "new mode "@.is_prefix_of(line)
}

/// Whether a file patch can be written down.
pub open spec fn is_file(file: FileText) -> bool {
    &&& forall|i: int| 0 <= i < file.preamble.len() ==> is_preamble(#[trigger] file.preamble[i])
    &&& is_heading(file.old_side, file.old_path, file.old_note)
    &&& is_heading(file.new_side, file.new_path, file.new_note)
    &&& file.hunks.len() > 0
    &&& forall|i: int| 0 <= i < file.hunks.len() ==> is_hunk(#[trigger] file.hunks[i])
}

/// The file patch that a written one stands for.
pub open spec fn file_patch(file: FileText) -> FilePatchView {
    FilePatchView {
        old_path: file.old_path,
        new_path: file.new_path,
        hunks: file.hunks.map_values(|hunk: HunkText| hunk.hunk),
    }
}

proof fn lemma_digits_are_plain(value: nat)
    ensures
        text_laws::is_word(text::decimal_text(value)),
        !text::decimal_text(value).contains(','),
        !text::decimal_text(value).contains('@'),
        !text::decimal_text(value).contains('\n'),
{
    text_laws::law_decimal_texts_are_worth_their_number(value);
    let written = text::decimal_text(value);
    assert forall|i: int| 0 <= i < written.len() implies !text::is_whitespace(
        #[trigger] written[i],
    ) && written[i] != ',' && written[i] != '@' && written[i] != '\n' by {
        assert('0' <= written[i] <= '9');
    }
}

proof fn lemma_range(mark: char, start: nat, count: nat)
    requires
        start <= usize::MAX,
        count <= usize::MAX,
        mark == '-' || mark == '+',
    ensures
        patch_model::range(written_range(start, count)) == Ok::<(nat, nat), PatchErrorView>(
            (start, count),
        ),
        text_laws::is_word(seq![mark] + written_range(start, count)),
        !(seq![mark] + written_range(start, count)).contains('@'),
        !(seq![mark] + written_range(start, count)).contains('\n'),
{
    lemma_digits_are_plain(start);
    lemma_digits_are_plain(count);
    text_laws::law_written_numbers_are_read_back(start);
    text_laws::law_written_numbers_are_read_back(count);
    text_laws::law_texts_are_cut_where_they_were_joined(
        text::decimal_text(start),
        ',',
        text::decimal_text(count),
    );
    let first = text::decimal_text(start);
    let second = text::decimal_text(count);
    let word = seq![mark] + written_range(start, count);
    assert forall|i: int| 0 <= i < word.len() implies !text::is_whitespace(#[trigger] word[i])
        && word[i] != '@' && word[i] != '\n' by {
        if i == 0 {
            assert(word[i] == mark);
        } else if i < 1 + first.len() {
            assert(word[i] == first[i - 1]);
            assert(first.contains(first[i - 1]));
        } else if i == 1 + first.len() {
            assert(word[i] == ',');
        } else {
            assert(word[i] == second[i - 2 - first.len()]);
            assert(second.contains(second[i - 2 - first.len()]));
        }
    }
}

proof fn lemma_header(hunk: HunkText)
    requires
        is_hunk(hunk),
    ensures
        patch_model::hunk_header(written_header(hunk)) == Ok::<(nat, nat, nat), PatchErrorView>(
            (hunk.hunk.old_start, hunk.hunk.old_count, hunk.hunk.new_count),
        ),
        patch_laws::is_whole(written_header(hunk)),
        "@@"@.is_prefix_of(written_header(hunk)),
{
    reveal_strlit("@@");
    reveal_strlit(" ");
    reveal_strlit("-");
    reveal_strlit("+");
    reveal_strlit("\n");
    let old_range = written_range(hunk.hunk.old_start, hunk.hunk.old_count);
    let new_range = written_range(hunk.new_start, hunk.hunk.new_count);
    lemma_range('-', hunk.hunk.old_start, hunk.hunk.old_count);
    lemma_range('+', hunk.new_start, hunk.hunk.new_count);
    let first = "-"@ + old_range;
    let second = "+"@ + new_range;
    assert(first =~= seq!['-'] + old_range);
    assert(second =~= seq!['+'] + new_range);
    let body = " "@ + first + " "@ + second + " "@;
    text_laws::law_two_words_are_read_back(first, second);
    let head = "@@"@ + body + "@@"@;
    let tail = hunk.note + "\n"@;
    let whole = written_header(hunk);
    assert(whole =~= head + tail);
    assert(head.last() == '@');
    let kept = text_laws::lemma_line_ends(head, tail);
    let line = text::without_line_ends(whole);
    assert(line == head + tail.take(kept));
    assert("@@"@.is_prefix_of(line)) by {
        assert(line.subrange(0, 2) =~= "@@"@);
    }
    assert("@@"@.is_prefix_of(whole)) by {
        assert(whole.subrange(0, 2) =~= "@@"@);
    }
    let rest = line.skip(2);
    assert(rest =~= body + ("@@"@ + tail.take(kept)));
    let at = body.len() as int;
    assert(rest.subrange(at, at + 2) =~= "@@"@);
    assert forall|i: int| 0 <= i < body.len() implies #[trigger] body[i] != '@' && body[i]
        != '\n' by {
        if 0 < i <= first.len() {
            assert(body[i] == first[i - 1]);
            assert(first.contains(first[i - 1]));
        } else if first.len() + 2 <= i < body.len() - 1 {
            assert(body[i] == second[i - first.len() - 2]);
            assert(second.contains(second[i - first.len() - 2]));
        }
    }
    assert forall|i: int| 0 <= i < at implies !#[trigger] text::stands_at(rest, "@@"@, i) by {
        assert(rest[i] == body[i]);
        if text::stands_at(rest, "@@"@, i) {
            assert(rest.subrange(i, i + 2)[0] == rest[i]);
        }
    }
    text_laws::law_parts_are_found_where_they_first_stand(rest, "@@"@, 0, at);
    assert(rest.take(at) =~= body);
    assert(patch_model::hunk_ranges(line) == Some(body));
    assert(first.skip(1) =~= old_range);
    assert(second.skip(1) =~= new_range);
    let words = text::words_of(body);
    assert(words[0] == first && words[1] == second);
    assert(whole.last() == '\n');
    assert forall|i: int| 0 <= i < whole.len() - 1 implies #[trigger] whole[i] != '\n' by {
        if 2 <= i < 2 + body.len() {
            assert(whole[i] == body[i - 2]);
        } else if i >= 4 + body.len() {
            assert(whole[i] == hunk.note[i - 4 - body.len()]);
            assert(hunk.note.contains(hunk.note[i - 4 - body.len()]));
        }
    }
}

/// A hunk line as it is read before the line behind it says that it has no line
/// end.
spec fn ended(line: LineView) -> LineView {
    let content = patch_laws::line_text(line);
    if content.contains('\n') {
        line
    } else {
        match line {
            LineView::Context(_) => LineView::Context(content + seq!['\n']),
            LineView::Remove(_) => LineView::Remove(content + seq!['\n']),
            LineView::Add(_) => LineView::Add(content + seq!['\n']),
        }
    }
}

proof fn lemma_written_line(line: LineView)
    requires
        is_one_line(line),
    ensures
        !patch_model::is_newline_marker(written_line(line)[0]),
        patch_model::hunk_line(written_line(line)[0]) == Some(ended(line)),
        written_line(line).len() == 2 ==> patch_model::is_newline_marker(written_line(line)[1]),
        patch_model::old_lines(ended(line)) == patch_model::old_lines(line),
        patch_model::new_lines(ended(line)) == patch_model::new_lines(line),
        written_line(line).len() == 1 ==> ended(line) == line,
        1 <= written_line(line).len() <= 2,
        forall|i: int|
            0 <= i < written_line(line).len() ==> patch_laws::is_whole(
                #[trigger] written_line(line)[i],
            ),
{
    reveal_strlit("\\ No newline at end of file\n");
    reveal_strlit("\\ No newline at end of file");
    let content = patch_laws::line_text(line);
    let first = written_line(line)[0];
    if patch_model::is_newline_marker(first) {
        assert(first.subrange(0, "\\ No newline at end of file"@.len() as int)[0] == first[0]);
    }
    if content.contains('\n') {
        assert(first.skip(1) =~= content);
        assert(patch_laws::is_whole(content));
        assert forall|i: int| 0 <= i < first.len() - 1 implies #[trigger] first[i] != '\n' by {
            if i > 0 {
                assert(first[i] == content[i - 1]);
            }
        }
    } else {
        if patch_laws::is_whole(content) {
            assert(content.contains(content.last()));
        }
        let marker = "\\ No newline at end of file\n"@;
        assert(marker.subrange(0, "\\ No newline at end of file"@.len() as int)
            =~= "\\ No newline at end of file"@);
        assert(first.skip(1) =~= content + seq!['\n']);
        assert forall|i: int| 0 <= i < first.len() - 1 implies #[trigger] first[i] != '\n' by {
            if i > 0 {
                assert(first[i] == content[i - 1]);
                assert(content.contains(content[i - 1]));
            }
        }
        assert(patch_laws::is_whole(marker));
    }
}

proof fn lemma_stripped(lines: Seq<LineView>, line: LineView)
    requires
        is_one_line(line),
        written_line(line).len() == 2,
    ensures
        patch_model::strip_last(lines.push(ended(line))) == Ok::<Seq<LineView>, PatchErrorView>(
            lines.push(line),
        ),
{
    let content = patch_laws::line_text(line);
    let longer = content + seq!['\n'];
    assert(!content.contains('\n'));
    assert(longer.last() == '\n');
    assert(longer.drop_last() =~= content);
    assert(lines.push(ended(line)).drop_last() =~= lines);
    if patch_laws::is_whole(content) {
        assert(content.contains(content.last()));
    }
    assert(patch_model::without_line_end(longer) == content);
}

proof fn lemma_place_of_written_line(lines: Seq<LineView>, at: int, count: int)
    requires
        0 <= at < count <= lines.len(),
        forall|i: int| 0 <= i < lines.len() ==> is_one_line(#[trigger] lines[i]),
    ensures
        ({
            let all = written_lines(lines, count);
            let place = written_lines(lines, at).len() as int;
            &&& written_lines(lines, at + 1).len() == place + written_line(lines[at]).len()
            &&& place + written_line(lines[at]).len() <= all.len()
            &&& all[place] == written_line(lines[at])[0]
            &&& written_line(lines[at]).len() == 2 ==> all[place + 1] == written_line(lines[at])[1]
        }),
    decreases count,
{
    lemma_written_line(lines[at]);
    if at < count - 1 {
        lemma_place_of_written_line(lines, at, count - 1);
    }
}

/// How many lines are left to a hunk behind its first `at` lines.
spec fn left(hunk: HunkView, at: int) -> (nat, nat) {
    (
        (hunk.old_count - patch_model::old_total(hunk.lines, at)) as nat,
        (hunk.new_count - patch_model::new_total(hunk.lines, at)) as nat,
    )
}

proof fn lemma_totals_grow(lines: Seq<LineView>, at: int, count: int)
    requires
        0 <= at <= count <= lines.len(),
    ensures
        patch_model::old_total(lines, at) <= patch_model::old_total(lines, count),
        patch_model::new_total(lines, at) <= patch_model::new_total(lines, count),
        at < count ==> patch_model::old_total(lines, at) + patch_model::new_total(lines, at)
            < patch_model::old_total(lines, count) + patch_model::new_total(lines, count),
    decreases count - at,
{
    if at < count {
        lemma_totals_grow(lines, at, count - 1);
    }
}

/// What the lines of a hunk are read as, up to a last line that says that there is
/// no line end.
spec fn body_read(lines: Seq<LineView>, base: int) -> (int, Seq<LineView>) {
    let behind = base + written_lines(lines, lines.len() as int).len() as int;
    if lines.len() > 0 && written_line(lines.last()).len() == 2 {
        (behind - 1, lines.drop_last().push(ended(lines.last())))
    } else {
        (behind, lines)
    }
}

proof fn lemma_body(all: Seq<Seq<char>>, base: int, hunk: HunkView, at: int)
    requires
        0 <= base,
        0 <= at < hunk.lines.len(),
        patch_model::counts_match(hunk),
        forall|i: int| 0 <= i < hunk.lines.len() ==> is_one_line(#[trigger] hunk.lines[i]),
        base + written_lines(hunk.lines, hunk.lines.len() as int).len() <= all.len(),
        forall|i: int|
            0 <= i < written_lines(hunk.lines, hunk.lines.len() as int).len() ==> all[base + i]
                == #[trigger] written_lines(hunk.lines, hunk.lines.len() as int)[i],
    ensures
        patch_model::hunk_body(
            all,
            base + written_lines(hunk.lines, at).len() as int,
            left(hunk, at).0,
            left(hunk, at).1,
            hunk.lines.take(at),
        ) == Ok::<(int, Seq<LineView>), PatchErrorView>(body_read(hunk.lines, base)),
    decreases hunk.lines.len() - at,
{
    let lines = hunk.lines;
    let count = lines.len() as int;
    let line = lines[at];
    let place = base + written_lines(lines, at).len() as int;
    let written = written_lines(lines, count);
    lemma_written_line(line);
    lemma_place_of_written_line(lines, at, count);
    lemma_totals_grow(lines, at, count);
    lemma_totals_grow(lines, at + 1, count);
    let (old_left, new_left) = left(hunk, at);
    assert(all[place] == written[place - base]);
    assert(!(old_left == 0 && new_left == 0));
    assert(patch_model::old_lines(line) <= old_left && patch_model::new_lines(line) <= new_left);
    let (old_next, new_next) = left(hunk, at + 1);
    assert(old_next == old_left - patch_model::old_lines(line));
    assert(new_next == new_left - patch_model::new_lines(line));
    let read = lines.take(at).push(ended(line));
    assert(patch_model::hunk_body(all, place, old_left, new_left, lines.take(at))
        == patch_model::hunk_body(all, place + 1, old_next, new_next, read));
    assert(lines.take(at).push(line) =~= lines.take(at + 1));
    if at + 1 == count {
        assert(old_next == 0 && new_next == 0);
        assert(lines.take(count) =~= lines);
        assert(lines.take(at) =~= lines.drop_last());
        assert(line == lines.last());
    } else if written_line(line).len() == 1 {
        lemma_body(all, base, hunk, at + 1);
    } else {
        assert(all[place + 1] == written[place + 1 - base]);
        lemma_stripped(lines.take(at), line);
        assert(!(old_next == 0 && new_next == 0));
        assert(patch_model::hunk_body(all, place + 1, old_next, new_next, read)
            == patch_model::hunk_body(all, place + 2, old_next, new_next, lines.take(at + 1)));
        lemma_body(all, base, hunk, at + 1);
    }
}

/// Whether the lines `part` stand in `all` from `base` on.
spec fn stand_at(all: Seq<Seq<char>>, base: int, part: Seq<Seq<char>>) -> bool {
    &&& 0 <= base
    &&& base + part.len() <= all.len()
    &&& forall|i: int| 0 <= i < part.len() ==> all[base + i] == #[trigger] part[i]
}

/// Whether a hunk ends where the line at `at` begins.
spec fn ends_hunk(all: Seq<Seq<char>>, at: int) -> bool {
    at < all.len() ==> all[at].len() > 0 && all[at][0] != '\\'
}

proof fn lemma_hunk(all: Seq<Seq<char>>, base: int, hunk: HunkText)
    requires
        is_hunk(hunk),
        stand_at(all, base, written_hunk(hunk)),
        ends_hunk(all, base + written_hunk(hunk).len() as int),
    ensures
        patch_model::hunk_at(all, base) == Ok::<(int, HunkView), PatchErrorView>(
            (base + written_hunk(hunk).len() as int, hunk.hunk),
        ),
{
    let lines = hunk.hunk.lines;
    let count = lines.len() as int;
    let written = written_lines(lines, count);
    let whole = written_hunk(hunk);
    lemma_header(hunk);
    assert(whole[0] == written_header(hunk));
    assert(all[base + 0] == whole[0]);
    assert forall|i: int| 0 <= i < written.len() implies all[base + 1 + i]
        == #[trigger] written[i] by {
        assert(whole[i + 1] == written[i]);
        assert(all[base + (i + 1)] == whole[i + 1]);
    }
    reveal_strlit("\\ No newline at end of file");
    let behind = base + whole.len() as int;
    assert(behind == base + 1 + written.len());
    if behind < all.len() && patch_model::is_newline_marker(all[behind]) {
        assert(all[behind].subrange(0, "\\ No newline at end of file"@.len() as int)[0]
            == all[behind][0]);
    }
    assert(lines.take(0) =~= Seq::<LineView>::empty());
    if count == 0 {
        assert(patch_model::hunk_body(all, base + 1, 0, 0, Seq::empty()) == Ok::<
            (int, Seq<LineView>),
            PatchErrorView,
        >((base + 1, Seq::empty())));
        assert(lines =~= Seq::<LineView>::empty());
    } else {
        lemma_body(all, base + 1, hunk.hunk, 0);
        let last = lines.last();
        assert(is_one_line(lines[count - 1]));
        lemma_written_line(last);
        lemma_place_of_written_line(lines, count - 1, count);
        if written_line(last).len() == 2 {
            lemma_stripped(lines.drop_last(), last);
            assert(lines.drop_last().push(last) =~= lines);
            assert(all[base + 1 + (written.len() - 1)] == written[written.len() - 1]);
        }
    }
}

proof fn lemma_place_of_hunk(hunks: Seq<HunkText>, at: int, count: int)
    requires
        0 <= at < count <= hunks.len(),
    ensures
        ({
            let all = written_hunks(hunks, count);
            let place = written_hunks(hunks, at).len() as int;
            &&& written_hunks(hunks, at + 1).len() == place + written_hunk(hunks[at]).len()
            &&& stand_at(all, place, written_hunk(hunks[at]))
        }),
    decreases count,
{
    if at < count - 1 {
        lemma_place_of_hunk(hunks, at, count - 1);
    }
}

proof fn lemma_hunks(
    all: Seq<Seq<char>>,
    base: int,
    hunks: Seq<HunkText>,
    at: int,
)
    requires
        0 <= at <= hunks.len(),
        forall|i: int| 0 <= i < hunks.len() ==> is_hunk(#[trigger] hunks[i]),
        stand_at(all, base, written_hunks(hunks, hunks.len() as int)),
        ends_hunk(all, base + written_hunks(hunks, hunks.len() as int).len() as int),
        base + written_hunks(hunks, hunks.len() as int).len() < all.len() ==> all[base
            + written_hunks(hunks, hunks.len() as int).len()][0] != '@',
    ensures
        ({
            let views = hunks.map_values(|hunk: HunkText| hunk.hunk);
            patch_model::hunks_from(
                all,
                base + written_hunks(hunks, at).len() as int,
                views.take(at),
            ) == Ok::<(int, Seq<HunkView>), PatchErrorView>(
                (base + written_hunks(hunks, hunks.len() as int).len() as int, views),
            )
        }),
    decreases hunks.len() - at,
{
    let views = hunks.map_values(|hunk: HunkText| hunk.hunk);
    let count = hunks.len() as int;
    let written = written_hunks(hunks, count);
    let place = base + written_hunks(hunks, at).len() as int;
    reveal_strlit("@@");
    if at == count {
        assert(views.take(at) =~= views);
        if place < all.len() && "@@"@.is_prefix_of(all[place]) {
            assert(all[place].subrange(0, 2)[0] == all[place][0]);
        }
    } else {
        let hunk = hunks[at];
        lemma_place_of_hunk(hunks, at, count);
        lemma_header(hunk);
        let lines = written_hunk(hunk);
        assert forall|i: int| 0 <= i < lines.len() implies all[place + i]
            == #[trigger] lines[i] by {
            assert(written[(place - base) + i] == lines[i]);
            assert(all[base + ((place - base) + i)] == written[(place - base) + i]);
        }
        let next = place + lines.len() as int;
        if at + 1 < count {
            lemma_place_of_hunk(hunks, at + 1, count);
            lemma_header(hunks[at + 1]);
            let later = written_hunk(hunks[at + 1]);
            assert(later[0] == written_header(hunks[at + 1]));
            assert(written[next - base + 0] == later[0]);
            assert(all[base + (next - base)] == written[next - base]);
            assert(later[0].subrange(0, 2)[0] == later[0][0]);
        }
        assert(ends_hunk(all, next));
        lemma_hunk(all, place, hunk);
        assert(lines[0] == written_header(hunk));
        assert(all[place + 0] == lines[0]);
        assert(views.take(at).push(hunk.hunk) =~= views.take(at + 1));
        assert(place < all.len());
        lemma_hunks(all, base, hunks, at + 1);
    }
}

proof fn lemma_heading(mark: Seq<char>, side: Seq<char>, path: Option<Seq<char>>, note: Seq<char>)
    requires
        is_heading(side, path, note),
        mark == "--- "@ || mark == "+++ "@,
    ensures
        patch_model::header_path(mark + written_path(side, path) + note + "\n"@, mark) == Ok::<
            Option<Seq<char>>,
            PatchErrorView,
        >(path),
        mark.is_prefix_of(mark + written_path(side, path) + note + "\n"@),
        patch_laws::is_whole(mark + written_path(side, path) + note + "\n"@),
{
    reveal_strlit("--- ");
    reveal_strlit("+++ ");
    reveal_strlit("\n");
    reveal_strlit("a/");
    reveal_strlit("b/");
    reveal_strlit("");
    reveal_strlit("/dev/null");
    let name = written_path(side, path);
    let line = mark + name + note + "\n"@;
    assert(line.subrange(0, 4) =~= mark);
    assert(line.skip(4) =~= name + (note + "\n"@));
    assert forall|i: int| 0 <= i < name.len() implies #[trigger] name[i] != '\t' && name[i] != '\n'
        && name[i] != '\r' by {
        if let Some(given) = path {
            if i >= side.len() {
                assert(name[i] == given[i - side.len()]);
                assert(given.contains(given[i - side.len()]));
            }
        }
    }
    assert(name.len() > 0);
    assert(name.last() == name[name.len() - 1]);
    let tail = note + "\n"@;
    let kept = text_laws::lemma_line_ends(name, tail);
    let shown = name + tail.take(kept);
    assert(text::without_line_ends(line.skip(4)) == shown);
    if name.contains('\t') {
        let i = choose|i: int| 0 <= i < name.len() && name[i] == '\t';
        assert(name[i] != '\t');
    }
    assert(text::before(shown, '\t') == name) by {
        if kept == 0 {
            assert(shown =~= name);
            text_laws::law_texts_are_cut_where_they_were_joined(name, '\t', Seq::empty());
        } else if note.len() == 0 {
            assert(tail =~= seq!['\n']);
            assert(shown.len() == name.len() + 1);
            lemma_no_line_end_is_left(name, tail);
        } else {
            assert(tail.take(kept)[0] == '\t');
            let rest = tail.take(kept).skip(1);
            assert(shown =~= name.push('\t') + rest);
            text_laws::law_texts_are_cut_where_they_were_joined(name, '\t', rest);
        }
    }
    if let Some(given) = path {
        if side == ""@ {
            assert(name =~= given);
        } else {
            assert(name.subrange(0, 2) =~= side);
            assert(name.skip(2) =~= given);
            assert(name[1] == '/' && "/dev/null"@[1] == 'd');
        }
    }
    assert(line.last() == '\n');
    assert forall|i: int| 0 <= i < line.len() - 1 implies #[trigger] line[i] != '\n' by {
        if 4 <= i < 4 + name.len() {
            assert(line[i] == name[i - 4]);
        } else if i >= 4 + name.len() {
            assert(line[i] == note[i - 4 - name.len()]);
            assert(note.contains(note[i - 4 - name.len()]));
        }
    }
}

proof fn lemma_no_line_end_is_left(name: Seq<char>, tail: Seq<char>)
    requires
        name.len() > 0,
        name.last() != '\r' && name.last() != '\n',
        tail == seq!['\n'],
    ensures
        text::without_line_ends(name + tail) == name,
{
    assert(name + tail =~= name.push('\n'));
    text_laws::law_a_line_feed_is_cut_off(name);
}

proof fn lemma_preamble(all: Seq<Seq<char>>, at: int, end: int)
    requires
        0 <= at <= end < all.len(),
        forall|i: int| at <= i < end ==> is_preamble(#[trigger] all[i]),
        "--- "@.is_prefix_of(all[end]),
    ensures
        patch_model::next_header(all, at) == end,
    decreases end - at,
{
    if at < end {
        assert(is_preamble(all[at]));
        lemma_preamble_begins(all[at]);
        reveal_strlit("--- ");
        if "--- "@.is_prefix_of(all[at]) {
            assert(all[at].subrange(0, 4)[0] == all[at][0]);
        }
        lemma_preamble(all, at + 1, end);
    }
}

proof fn lemma_preamble_begins(line: Seq<char>)
    requires
        is_preamble(line),
    ensures
        line.len() > 0,
        line[0] == 'd' || line[0] == 'i' || line[0] == 'n' || line[0] == 'o',
{
    reveal_strlit("diff --git ");
    reveal_strlit("index ");
    reveal_strlit("new file mode ");
    reveal_strlit("deleted file mode ");
    reveal_strlit("old mode ");
    reveal_strlit("new mode ");
    if "diff --git "@.is_prefix_of(line) {
        assert(line.subrange(0, "diff --git "@.len() as int)[0] == line[0]);
    } else if "index "@.is_prefix_of(line) {
        assert(line.subrange(0, "index "@.len() as int)[0] == line[0]);
    } else if "new file mode "@.is_prefix_of(line) {
        assert(line.subrange(0, "new file mode "@.len() as int)[0] == line[0]);
    } else if "deleted file mode "@.is_prefix_of(line) {
        assert(line.subrange(0, "deleted file mode "@.len() as int)[0] == line[0]);
    } else if "old mode "@.is_prefix_of(line) {
        assert(line.subrange(0, "old mode "@.len() as int)[0] == line[0]);
    } else {
        assert(line.subrange(0, "new mode "@.len() as int)[0] == line[0]);
    }
}

/// Whether the line at `at`, where there is one, is one that a file patch begins
/// with.
spec fn ends_file(all: Seq<Seq<char>>, at: int) -> bool {
    at < all.len() ==> is_preamble(all[at]) || "--- "@.is_prefix_of(all[at])
}

proof fn lemma_file(all: Seq<Seq<char>>, base: int, file: FileText)
    requires
        is_file(file),
        stand_at(all, base, written_file(file)),
        ends_file(all, base + written_file(file).len() as int),
    ensures
        patch_model::next_header(all, base) == base + file.preamble.len(),
        patch_model::file_patch_at(all, base + file.preamble.len() as int) == Ok::<
            (int, FilePatchView),
            PatchErrorView,
        >((base + written_file(file).len() as int, file_patch(file))),
{
    let whole = written_file(file);
    let count = file.preamble.len() as int;
    let header = base + count;
    let hunks = written_hunks(file.hunks, file.hunks.len() as int);
    let old_line = "--- "@ + written_path(file.old_side, file.old_path) + file.old_note + "\n"@;
    let new_line = "+++ "@ + written_path(file.new_side, file.new_path) + file.new_note + "\n"@;
    lemma_heading("--- "@, file.old_side, file.old_path, file.old_note);
    lemma_heading("+++ "@, file.new_side, file.new_path, file.new_note);
    assert(whole[count] == old_line);
    assert(whole[count + 1] == new_line);
    assert(all[base + count] == whole[count]);
    assert(all[base + (count + 1)] == whole[count + 1]);
    assert forall|i: int| base <= i < header implies is_preamble(#[trigger] all[i]) by {
        assert(whole[i - base] == file.preamble[i - base]);
        assert(all[base + (i - base)] == whole[i - base]);
    }
    lemma_preamble(all, base, header);
    assert forall|i: int| 0 <= i < hunks.len() implies all[header + 2 + i]
        == #[trigger] hunks[i] by {
        assert(whole[count + 2 + i] == hunks[i]);
        assert(all[base + (count + 2 + i)] == whole[count + 2 + i]);
    }
    let next = base + whole.len() as int;
    assert(next == header + 2 + hunks.len());
    if next < all.len() {
        reveal_strlit("--- ");
        if is_preamble(all[next]) {
            lemma_preamble_begins(all[next]);
        } else {
            assert(all[next].subrange(0, 4)[0] == all[next][0]);
        }
    }
    lemma_hunks(all, header + 2, file.hunks, 0);
    let views = file.hunks.map_values(|hunk: HunkText| hunk.hunk);
    assert(views.take(0) =~= Seq::<HunkView>::empty());
    assert(views.len() > 0);
}

proof fn lemma_place_of_file(files: Seq<FileText>, at: int, count: int)
    requires
        0 <= at < count <= files.len(),
    ensures
        ({
            let all = written_files(files, count);
            let place = written_files(files, at).len() as int;
            &&& written_files(files, at + 1).len() == place + written_file(files[at]).len()
            &&& stand_at(all, place, written_file(files[at]))
        }),
    decreases count,
{
    if at < count - 1 {
        lemma_place_of_file(files, at, count - 1);
    }
}

proof fn lemma_file_begins(file: FileText)
    requires
        is_file(file),
    ensures
        written_file(file).len() > 0,
        is_preamble(written_file(file)[0]) || "--- "@.is_prefix_of(written_file(file)[0]),
{
    lemma_heading("--- "@, file.old_side, file.old_path, file.old_note);
    if file.preamble.len() > 0 {
        assert(written_file(file)[0] == file.preamble[0]);
    }
}

proof fn lemma_files(files: Seq<FileText>, at: int)
    requires
        0 <= at <= files.len(),
        forall|i: int| 0 <= i < files.len() ==> is_file(#[trigger] files[i]),
    ensures
        ({
            let views = files.map_values(|file: FileText| file_patch(file));
            patch_model::files_from(
                written_files(files, files.len() as int),
                written_files(files, at).len() as int,
                views.take(at),
            ) == Ok::<Seq<FilePatchView>, PatchErrorView>(views)
        }),
    decreases files.len() - at,
{
    let views = files.map_values(|file: FileText| file_patch(file));
    let count = files.len() as int;
    let all = written_files(files, count);
    let place = written_files(files, at).len() as int;
    if at == count {
        assert(views.take(at) =~= views);
        assert(patch_model::next_header(all, place) == place);
    } else {
        lemma_place_of_file(files, at, count);
        let file = files[at];
        let next = place + written_file(file).len() as int;
        if at + 1 < count {
            lemma_place_of_file(files, at + 1, count);
            lemma_file_begins(files[at + 1]);
            let later = written_file(files[at + 1]);
            assert(all[next + 0] == later[0]);
        }
        lemma_file(all, place, file);
        assert(views.take(at).push(file_patch(file)) =~= views.take(at + 1));
        assert(place + file.preamble.len() < all.len());
        lemma_files(files, at + 1);
    }
}

proof fn lemma_hunks_are_whole(hunks: Seq<HunkText>, count: int)
    requires
        0 <= count <= hunks.len(),
        forall|i: int| 0 <= i < hunks.len() ==> is_hunk(#[trigger] hunks[i]),
    ensures
        forall|i: int|
            0 <= i < written_hunks(hunks, count).len() ==> patch_laws::is_whole(
                #[trigger] written_hunks(hunks, count)[i],
            ),
    decreases count,
{
    if count > 0 {
        lemma_hunks_are_whole(hunks, count - 1);
        let hunk = hunks[count - 1];
        lemma_header(hunk);
        lemma_lines_are_whole(hunk.hunk.lines, hunk.hunk.lines.len() as int);
        let before = written_hunks(hunks, count - 1);
        let last = written_hunk(hunk);
        let body = written_lines(hunk.hunk.lines, hunk.hunk.lines.len() as int);
        let all = written_hunks(hunks, count);
        assert forall|i: int| 0 <= i < all.len() implies patch_laws::is_whole(#[trigger] all[i]) by {
            if i < before.len() {
                assert(all[i] == before[i]);
            } else {
                let j = i - before.len();
                assert(all[i] == last[j]);
                if j > 0 {
                    assert(last[j] == body[j - 1]);
                }
            }
        }
    }
}

proof fn lemma_lines_are_whole(lines: Seq<LineView>, count: int)
    requires
        0 <= count <= lines.len(),
        forall|i: int| 0 <= i < lines.len() ==> is_one_line(#[trigger] lines[i]),
    ensures
        forall|i: int|
            0 <= i < written_lines(lines, count).len() ==> patch_laws::is_whole(
                #[trigger] written_lines(lines, count)[i],
            ),
    decreases count,
{
    if count > 0 {
        lemma_lines_are_whole(lines, count - 1);
        lemma_written_line(lines[count - 1]);
        let before = written_lines(lines, count - 1);
        let last = written_line(lines[count - 1]);
        let all = written_lines(lines, count);
        assert forall|i: int| 0 <= i < all.len() implies patch_laws::is_whole(#[trigger] all[i]) by {
            if i < before.len() {
                assert(all[i] == before[i]);
            } else {
                assert(all[i] == last[i - before.len()]);
            }
        }
    }
}

proof fn lemma_files_are_whole(files: Seq<FileText>, count: int)
    requires
        0 <= count <= files.len(),
        forall|i: int| 0 <= i < files.len() ==> is_file(#[trigger] files[i]),
    ensures
        forall|i: int|
            0 <= i < written_files(files, count).len() ==> patch_laws::is_whole(
                #[trigger] written_files(files, count)[i],
            ),
    decreases count,
{
    if count > 0 {
        lemma_files_are_whole(files, count - 1);
        let file = files[count - 1];
        lemma_heading("--- "@, file.old_side, file.old_path, file.old_note);
        lemma_heading("+++ "@, file.new_side, file.new_path, file.new_note);
        lemma_hunks_are_whole(file.hunks, file.hunks.len() as int);
        let before = written_files(files, count - 1);
        let last = written_file(file);
        let hunks = written_hunks(file.hunks, file.hunks.len() as int);
        let all = written_files(files, count);
        assert forall|i: int| 0 <= i < all.len() implies patch_laws::is_whole(#[trigger] all[i]) by {
            if i < before.len() {
                assert(all[i] == before[i]);
            } else {
                let j = i - before.len();
                assert(all[i] == last[j]);
                if j < file.preamble.len() {
                    assert(last[j] == file.preamble[j]);
                    assert(is_preamble(file.preamble[j]));
                } else if j >= file.preamble.len() + 2 {
                    assert(last[j] == hunks[j - file.preamble.len() - 2]);
                }
            }
        }
    }
}

/// A patch that is written down and read is the same patch: the paths of each file,
/// the ranges of each hunk, and each context, removed and added line, character for
/// character.
pub proof fn law_written_patches_are_read_back(files: Seq<FileText>)
    requires
        files.len() > 0,
        forall|i: int| 0 <= i < files.len() ==> is_file(#[trigger] files[i]),
        written_files(files, files.len() as int).len() <= 200000,
    ensures
        ({
            let lines = written_files(files, files.len() as int);
            patch_model::parse_patch(patch_model::joined_lines(lines, 0, lines.len() as int))
                == Ok::<Seq<FilePatchView>, PatchErrorView>(
                files.map_values(|file: FileText| file_patch(file)),
            )
        }),
{
    let count = files.len() as int;
    let lines = written_files(files, count);
    lemma_files_are_whole(files, count);
    patch_laws::law_lines_in_a_row_are_found_again(lines);
    lemma_files(files, 0);
    let views = files.map_values(|file: FileText| file_patch(file));
    assert(views.take(0) =~= Seq::<FilePatchView>::empty());
    lemma_place_of_file(files, 0, count);
    lemma_file_begins(files[0]);
    let whole = patch_model::joined_lines(lines, 0, lines.len() as int);
    if whole.len() == 0 {
        assert(text::inclusive_lines(whole) =~= Seq::<Seq<char>>::empty()) by {
            assert(text::split_from(whole, '\n', 0) =~= seq![whole.skip(0)]);
        }
    }
}

/// A patch of one hunk that is written down behind the headers of its file and
/// read is the same hunk.
pub proof fn law_a_written_hunk_is_read_back(path: Seq<char>, hunk: HunkView, new_start: nat)
    requires
        path.len() > 0,
        !path.contains('\t') && !path.contains('\n') && !path.contains('\r'),
        patch_laws::has_whole_lines(hunk),
        patch_model::counts_match(hunk),
        hunk.lines.len() <= 100000,
        hunk.old_start <= usize::MAX && new_start <= usize::MAX,
    ensures
        ({
            let lines = seq![
                "--- a/"@ + path + "\n"@,
                "+++ b/"@ + path + "\n"@,
                "@@ -"@ + text::decimal_text(hunk.old_start) + ","@ + text::decimal_text(
                    hunk.old_count,
                ) + " +"@ + text::decimal_text(new_start) + ","@ + text::decimal_text(
                    hunk.new_count,
                ) + " @@\n"@,
            ] + hunk.lines.map_values(
                |line: LineView|
                    match line {
                        LineView::Context(content) => " "@ + content,
                        LineView::Remove(content) => "-"@ + content,
                        LineView::Add(content) => "+"@ + content,
                    },
            );
            patch_model::parse_patch(patch_model::joined_lines(lines, 0, lines.len() as int))
                == Ok::<Seq<FilePatchView>, PatchErrorView>(
                seq![
                    FilePatchView {
                        old_path: Some(path),
                        new_path: Some(path),
                        hunks: seq![hunk],
                    },
                ],
            )
        }),
{
    reveal_strlit("--- a/");
    reveal_strlit("+++ b/");
    reveal_strlit("--- ");
    reveal_strlit("+++ ");
    reveal_strlit("a/");
    reveal_strlit("b/");
    reveal_strlit("\n");
    reveal_strlit("@@ -");
    reveal_strlit("@@");
    reveal_strlit(" +");
    reveal_strlit(",");
    reveal_strlit(" @@\n");
    reveal_strlit(" ");
    reveal_strlit("-");
    reveal_strlit("+");
    let one = HunkText { hunk, new_start, note: Seq::empty() };
    let file = FileText {
        preamble: Seq::empty(),
        old_path: Some(path),
        old_side: "a/"@,
        old_note: Seq::empty(),
        new_path: Some(path),
        new_side: "b/"@,
        new_note: Seq::empty(),
        hunks: seq![one],
    };
    let files = seq![file];
    lemma_total_bounds(hunk.lines, hunk.lines.len() as int);
    assert forall|i: int| 0 <= i < hunk.lines.len() implies is_one_line(#[trigger] hunk.lines[i]) by {
        assert(patch_laws::is_whole(patch_laws::line_text(hunk.lines[i])));
    }
    assert(is_hunk(one));
    assert(is_file(file));
    let body = hunk.lines.map_values(
        |line: LineView|
            match line {
                LineView::Context(content) => " "@ + content,
                LineView::Remove(content) => "-"@ + content,
                LineView::Add(content) => "+"@ + content,
            },
    );
    lemma_whole_lines_are_written(hunk, body, hunk.lines.len() as int);
    assert(body.take(hunk.lines.len() as int) =~= body);
    let header = "@@ -"@ + text::decimal_text(hunk.old_start) + ","@ + text::decimal_text(
        hunk.old_count,
    ) + " +"@ + text::decimal_text(new_start) + ","@ + text::decimal_text(hunk.new_count)
        + " @@\n"@;
    assert(written_header(one) =~= header);
    let none = Seq::<Seq<char>>::empty();
    assert(written_hunks(file.hunks, 0) == none);
    assert(written_hunks(file.hunks, 1) =~= seq![header] + body);
    let old_line = "--- a/"@ + path + "\n"@;
    let new_line = "+++ b/"@ + path + "\n"@;
    assert("--- "@ + ("a/"@ + path) + Seq::<char>::empty() + "\n"@ =~= old_line);
    assert("+++ "@ + ("b/"@ + path) + Seq::<char>::empty() + "\n"@ =~= new_line);
    let lines = seq![old_line, new_line, header] + body;
    assert(written_file(file) =~= lines);
    assert(written_files(files, 0) == none);
    assert(written_files(files, 1) =~= lines);
    law_written_patches_are_read_back(files);
    assert(file_patch(file).hunks =~= seq![hunk]);
    assert(files.map_values(|file: FileText| file_patch(file)) =~= seq![file_patch(file)]);
}

proof fn lemma_total_bounds(lines: Seq<LineView>, count: int)
    requires
        0 <= count <= lines.len(),
    ensures
        patch_model::old_total(lines, count) <= count,
        patch_model::new_total(lines, count) <= count,
    decreases count,
{
    if count > 0 {
        lemma_total_bounds(lines, count - 1);
    }
}

proof fn lemma_whole_lines_are_written(hunk: HunkView, body: Seq<Seq<char>>, count: int)
    requires
        0 <= count <= hunk.lines.len() == body.len(),
        patch_laws::has_whole_lines(hunk),
        forall|i: int|
            0 <= i < body.len() ==> #[trigger] body[i] == (match hunk.lines[i] {
                LineView::Context(content) => " "@ + content,
                LineView::Remove(content) => "-"@ + content,
                LineView::Add(content) => "+"@ + content,
            }),
    ensures
        written_lines(hunk.lines, count) == body.take(count),
    decreases count,
{
    reveal_strlit(" ");
    reveal_strlit("-");
    reveal_strlit("+");
    if count > 0 {
        lemma_whole_lines_are_written(hunk, body, count - 1);
        let line = hunk.lines[count - 1];
        let content = patch_laws::line_text(line);
        assert(patch_laws::is_whole(content));
        assert(content[content.len() - 1] == '\n');
        assert(content.contains('\n'));
        assert(written_line(line)[0] =~= body[count - 1]);
        assert(written_line(line) =~= seq![body[count - 1]]);
        assert(body.take(count) =~= body.take(count - 1) + seq![body[count - 1]]);
    } else {
        assert(body.take(0) =~= Seq::<Seq<char>>::empty());
    }
}

} // verus!
