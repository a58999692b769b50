//! Unified diffs as mathematics: how a patch is read, and what applying it to a
//! text gives.

use crate::io_failure::{ErrorKind, IoFailureView};
use crate::path;
use crate::text;
use crate::tool::{FieldValueView, OutputView, ToolErrorView};
use crate::tool_support;
use crate::utf8;
use crate::workspace::PathErrorView;
use vstd::prelude::*;

verus! {

/// The longest patch, in lines.
pub const MAX_PATCH_LINES: usize = 200000;

/// The longest patch, in bytes.
pub const MAX_PATCH_BYTES: usize = 4194304;

/// The longest file that is patched, in bytes.
pub const MAX_PATCH_FILE_BYTES: usize = 33554432;

/// The longest file that is patched, in lines.
pub const MAX_PATCH_FILE_LINES: usize = 1000000;

/// How much of a line a conflict shows, in bytes.
pub const MAX_CONFLICT_LINE_BYTES: usize = 1024;

/// What is left of a file after a publication failed.
pub enum RecoveryView {
    LocatedVerified(Seq<char>),
    LocatedContentUnverified(Seq<char>),
    LocatedPolicyUnverified(Seq<char>),
    LocatedContentAndPolicyUnverified(Seq<char>),
    Unlocated,
    NotApplicableNewFile,
}

/// Why a patch was not applied.
pub enum PatchErrorView {
    InvalidPatch(Seq<char>),
    Limit(Seq<char>),
    Conflict(Seq<char>),
    Workspace(PathErrorView),
    Io { path: Seq<char>, source: IoFailureView },
    Preserved { target: Seq<char>, recovery: RecoveryView, source: IoFailureView },
    Published { target: Seq<char>, recovery: RecoveryView, source: IoFailureView },
    Cancelled,
}

/// One line of a hunk.
pub enum LineView {
    Context(Seq<char>),
    Remove(Seq<char>),
    Add(Seq<char>),
}

/// One hunk of a file patch.
pub struct HunkView {
    pub old_start: nat,
    pub old_count: nat,
    pub new_count: nat,
    pub lines: Seq<LineView>,
}

/// The patch of one file.
pub struct FilePatchView {
    pub old_path: Option<Seq<char>>,
    pub new_path: Option<Seq<char>>,
    pub hunks: Seq<HunkView>,
}

/// The path that a file header names; none for `/dev/null`.
pub open spec fn header_path(line: Seq<char>, prefix: Seq<char>) -> Result<
    Option<Seq<char>>,
    PatchErrorView,
> {
    if !prefix.is_prefix_of(line) {
        Err(
            PatchErrorView::InvalidPatch(
                "expected "@ + text::debug_text(prefix) + " file header"@,
            ),
        )
    } else {
        let raw = text::before(text::without_line_ends(line.skip(prefix.len() as int)), '\t');
        if raw == "/dev/null"@ {
            Ok(None)
        } else {
            let name = if "a/"@.is_prefix_of(raw) || "b/"@.is_prefix_of(raw) {
                raw.skip(2)
            } else {
                raw
            };
            if name.len() == 0 {
                Err(PatchErrorView::InvalidPatch("patch file path must not be empty"@))
            } else {
                Ok(Some(name))
            }
        }
    }
}

/// A start and a count, the count being one where it is left out.
pub open spec fn range(part: Seq<char>) -> Result<(nat, nat), PatchErrorView> {
    let start = text::before(part, ',');
    let count = match text::after(part, ',') {
        Some(count) => count,
        None => "1"@,
    };
    match text::usize_value(start) {
        None => Err(
            PatchErrorView::InvalidPatch(
                "invalid hunk range start "@ + text::debug_text(start),
            ),
        ),
        Some(first) => match text::usize_value(count) {
            None => Err(
                PatchErrorView::InvalidPatch(
                    "invalid hunk range count "@ + text::debug_text(count),
                ),
            ),
            Some(length) => Ok((first, length)),
        },
    }
}

/// What stands between the two `@@` of a hunk header.
pub open spec fn hunk_ranges(line: Seq<char>) -> Option<Seq<char>> {
    if !"@@"@.is_prefix_of(line) {
        None
    } else {
        let body = line.skip(2);
        match text::part_position(body, "@@"@, 0) {
            Some(position) => Some(body.take(position)),
            None => None,
        }
    }
}

/// The old start, the old count and the new count of a hunk header.
pub open spec fn hunk_header(header: Seq<char>) -> Result<(nat, nat, nat), PatchErrorView> {
    let line = text::without_line_ends(header);
    match hunk_ranges(line) {
        None => Err(
            PatchErrorView::InvalidPatch("invalid hunk header "@ + text::debug_text(line)),
        ),
        Some(body) => {
            let ranges = text::words_of(body);
            if ranges.len() == 0 {
                Err(
                    PatchErrorView::InvalidPatch(
                        "missing old range in hunk header "@ + text::debug_text(line),
                    ),
                )
            } else if ranges.len() == 1 {
                Err(
                    PatchErrorView::InvalidPatch(
                        "missing new range in hunk header "@ + text::debug_text(line),
                    ),
                )
            } else if ranges.len() > 2 || !text::begins_with(ranges[0], '-') || !text::begins_with(
                ranges[1],
                '+',
            ) {
                Err(
                    PatchErrorView::InvalidPatch(
                        "invalid ranges in hunk header "@ + text::debug_text(line),
                    ),
                )
            } else {
                match range(ranges[0].skip(1)) {
                    Err(error) => Err(error),
                    Ok((old_start, old_count)) => match range(ranges[1].skip(1)) {
                        Err(error) => Err(error),
                        Ok((_, new_count)) => Ok((old_start, old_count, new_count)),
                    },
                }
            }
        },
    }
}

/// A line without its line feed, and without a carriage return before that.
pub open spec fn without_line_end(line: Seq<char>) -> Seq<char> {
    if line.len() > 0 && line.last() == '\n' {
        text::without_return(line.drop_last())
    } else {
        line
    }
}

/// The lines of a hunk, the last without its line end.
pub open spec fn strip_last(lines: Seq<LineView>) -> Result<Seq<LineView>, PatchErrorView> {
    if lines.len() == 0 {
        Err(PatchErrorView::InvalidPatch("newline marker has no preceding hunk line"@))
    } else {
        Ok(
            lines.drop_last().push(
                match lines.last() {
                    LineView::Context(line) => LineView::Context(without_line_end(line)),
                    LineView::Remove(line) => LineView::Remove(without_line_end(line)),
                    LineView::Add(line) => LineView::Add(without_line_end(line)),
                },
            ),
        )
    }
}

/// Whether a line marks that the one before it has no line end.
pub open spec fn is_newline_marker(line: Seq<char>) -> bool {
    "\\ No newline at end of file"@.is_prefix_of(line)
}

/// A hunk line by its first character.
pub open spec fn hunk_line(line: Seq<char>) -> Option<LineView> {
    if text::begins_with(line, ' ') {
        Some(LineView::Context(line.skip(1)))
    } else if text::begins_with(line, '-') {
        Some(LineView::Remove(line.skip(1)))
    } else if text::begins_with(line, '+') {
        Some(LineView::Add(line.skip(1)))
    } else {
        None
    }
}

/// How many old lines a hunk line stands for.
pub open spec fn old_lines(line: LineView) -> nat {
    if line is Add {
        0
    } else {
        1
    }
}

/// How many new lines a hunk line stands for.
pub open spec fn new_lines(line: LineView) -> nat {
    if line is Remove {
        0
    } else {
        1
    }
}

/// The lines of a hunk, read on from `at` until the declared counts are met,
/// with the place behind them.
pub open spec fn hunk_body(
    lines: Seq<Seq<char>>,
    at: int,
    old_left: nat,
    new_left: nat,
    body: Seq<LineView>,
) -> Result<(int, Seq<LineView>), PatchErrorView>
    decreases lines.len() - at,
{
    if old_left == 0 && new_left == 0 {
        Ok((at, body))
    } else if at < 0 || at >= lines.len() {
        Err(PatchErrorView::InvalidPatch("hunk ended before its declared counts"@))
    } else if is_newline_marker(lines[at]) {
        match strip_last(body) {
            Err(error) => Err(error),
            Ok(stripped) => hunk_body(lines, at + 1, old_left, new_left, stripped),
        }
    } else {
        match hunk_line(lines[at]) {
            None => Err(
                PatchErrorView::InvalidPatch(
                    "invalid hunk line "@ + text::debug_text(lines[at]),
                ),
            ),
            Some(line) => if old_lines(line) > old_left || new_lines(line) > new_left {
                Err(PatchErrorView::InvalidPatch("hunk content exceeds its declared counts"@))
            } else {
                hunk_body(
                    lines,
                    at + 1,
                    (old_left - old_lines(line)) as nat,
                    (new_left - new_lines(line)) as nat,
                    body.push(line),
                )
            },
        }
    }
}

/// A hunk whose header stands at `at`, with the place behind it.
pub open spec fn hunk_at(lines: Seq<Seq<char>>, at: int) -> Result<
    (int, HunkView),
    PatchErrorView,
> {
    match hunk_header(lines[at]) {
        Err(error) => Err(error),
        Ok((old_start, old_count, new_count)) => match hunk_body(
            lines,
            at + 1,
            old_count,
            new_count,
            Seq::empty(),
        ) {
            Err(error) => Err(error),
            Ok((next, body)) => if 0 <= next < lines.len() && is_newline_marker(lines[next]) {
                match strip_last(body) {
                    Err(error) => Err(error),
                    Ok(stripped) => Ok(
                        (
                            next + 1,
                            HunkView { old_start, old_count, new_count, lines: stripped },
                        ),
                    ),
                }
            } else {
                Ok((next, HunkView { old_start, old_count, new_count, lines: body }))
            },
        },
    }
}

proof fn lemma_hunk_body_advances(
    lines: Seq<Seq<char>>,
    at: int,
    old_left: nat,
    new_left: nat,
    body: Seq<LineView>,
)
    requires
        0 <= at <= lines.len(),
    ensures
        hunk_body(lines, at, old_left, new_left, body) matches Ok((next, _)) ==> at <= next
            <= lines.len(),
    decreases lines.len() - at,
{
    if !(old_left == 0 && new_left == 0) && at < lines.len() {
        if is_newline_marker(lines[at]) {
            if let Ok(stripped) = strip_last(body) {
                lemma_hunk_body_advances(lines, at + 1, old_left, new_left, stripped);
            }
        } else if let Some(line) = hunk_line(lines[at]) {
            if old_lines(line) <= old_left && new_lines(line) <= new_left {
                lemma_hunk_body_advances(
                    lines,
                    at + 1,
                    (old_left - old_lines(line)) as nat,
                    (new_left - new_lines(line)) as nat,
                    body.push(line),
                );
            }
        }
    }
}

/// A hunk ends behind its header, and inside the patch.
pub proof fn lemma_hunk_advances(lines: Seq<Seq<char>>, at: int)
    requires
        0 <= at < lines.len(),
    ensures
        hunk_at(lines, at) matches Ok((next, _)) ==> at < next <= lines.len(),
{
    if let Ok((old_start, old_count, new_count)) = hunk_header(lines[at]) {
        lemma_hunk_body_advances(lines, at + 1, old_count, new_count, Seq::empty());
    }
}

/// The hunks that follow a file header, read on from `at`, with the place
/// behind them.
pub open spec fn hunks_from(lines: Seq<Seq<char>>, at: int, hunks: Seq<HunkView>) -> Result<
    (int, Seq<HunkView>),
    PatchErrorView,
>
    decreases lines.len() - at,
{
    if at < 0 || at >= lines.len() || !"@@"@.is_prefix_of(lines[at]) {
        Ok((at, hunks))
    } else {
        match hunk_at(lines, at) {
            Err(error) => Err(error),
            Ok((next, hunk)) => {
                proof {
                    lemma_hunk_advances(lines, at);
                }
                hunks_from(lines, next, hunks.push(hunk))
            },
        }
    }
}

/// Lines between two file patches that may stand there.
pub open spec fn is_diff_metadata(line: Seq<char>) -> bool {
    ||| "diff --git "@.is_prefix_of(line)
    ||| "index "@.is_prefix_of(line)
    ||| "new file mode "@.is_prefix_of(line)
    ||| "deleted file mode "@.is_prefix_of(line)
    ||| "old mode "@.is_prefix_of(line)
    ||| "new mode "@.is_prefix_of(line)
}

/// The first file header at or after `at`, or the end.
pub open spec fn next_header(lines: Seq<Seq<char>>, at: int) -> int
    decreases lines.len() - at,
{
    if at < 0 || at >= lines.len() || "--- "@.is_prefix_of(lines[at]) {
        at
    } else {
        next_header(lines, at + 1)
    }
}

/// The file patch whose header stands at `at`, with the place behind it.
pub open spec fn file_patch_at(lines: Seq<Seq<char>>, at: int) -> Result<
    (int, FilePatchView),
    PatchErrorView,
> {
    match header_path(lines[at], "--- "@) {
        Err(error) => Err(error),
        Ok(old_path) => if at + 1 >= lines.len() {
            Err(PatchErrorView::InvalidPatch("missing +++ file header"@))
        } else {
            match header_path(lines[at + 1], "+++ "@) {
                Err(error) => Err(error),
                Ok(new_path) => match hunks_from(lines, at + 2, Seq::empty()) {
                    Err(error) => Err(error),
                    Ok((next, hunks)) => if hunks.len() == 0 {
                        Err(
                            PatchErrorView::InvalidPatch(
                                "file patch must contain at least one hunk"@,
                            ),
                        )
                    } else if next < lines.len() && !"--- "@.is_prefix_of(lines[next])
                        && !is_diff_metadata(lines[next]) {
                        Err(
                            PatchErrorView::InvalidPatch(
                                "unaccounted content after hunk: "@ + text::debug_text(
                                    lines[next],
                                ),
                            ),
                        )
                    } else {
                        Ok((next, FilePatchView { old_path, new_path, hunks }))
                    },
                },
            }
        },
    }
}

proof fn lemma_hunks_advance(lines: Seq<Seq<char>>, at: int, hunks: Seq<HunkView>)
    requires
        0 <= at <= lines.len(),
    ensures
        hunks_from(lines, at, hunks) matches Ok((next, _)) ==> at <= next <= lines.len(),
    decreases lines.len() - at,
{
    if at < lines.len() && "@@"@.is_prefix_of(lines[at]) {
        lemma_hunk_advances(lines, at);
        if let Ok((next, hunk)) = hunk_at(lines, at) {
            lemma_hunks_advance(lines, next, hunks.push(hunk));
        }
    }
}

/// A file patch ends behind its header, and inside the patch.
pub proof fn lemma_file_patch_advances(lines: Seq<Seq<char>>, at: int)
    requires
        0 <= at < lines.len(),
    ensures
        file_patch_at(lines, at) matches Ok((next, _)) ==> at < next <= lines.len(),
{
    if at + 1 < lines.len() {
        lemma_hunks_advance(lines, at + 2, Seq::empty());
    }
}

/// A header is looked for at or behind `at`, and inside the patch.
pub proof fn lemma_next_header_advances(lines: Seq<Seq<char>>, at: int)
    requires
        0 <= at <= lines.len(),
    ensures
        at <= next_header(lines, at) <= lines.len(),
    decreases lines.len() - at,
{
    if at < lines.len() && !"--- "@.is_prefix_of(lines[at]) {
        lemma_next_header_advances(lines, at + 1);
    }
}

/// The file patches from `at` on.
pub open spec fn files_from(lines: Seq<Seq<char>>, at: int, files: Seq<FilePatchView>) -> Result<
    Seq<FilePatchView>,
    PatchErrorView,
>
    decreases lines.len() - at,
{
    let header = next_header(lines, at);
    if at < 0 || header < at || header >= lines.len() {
        Ok(files)
    } else {
        match file_patch_at(lines, header) {
            Err(error) => Err(error),
            Ok((next, file)) => {
                proof {
                    lemma_file_patch_advances(lines, header);
                }
                files_from(lines, next, files.push(file))
            },
        }
    }
}

/// The file patches that a patch is made of.
pub open spec fn parse_patch(patch: Seq<char>) -> Result<Seq<FilePatchView>, PatchErrorView> {
    let lines = text::inclusive_lines(patch);
    if patch.len() == 0 {
        Err(PatchErrorView::InvalidPatch("patch must not be empty"@))
    } else if lines.len() > MAX_PATCH_LINES {
        Err(PatchErrorView::Limit("patch exceeds 200000 lines"@))
    } else {
        match files_from(lines, 0, Seq::empty()) {
            Err(error) => Err(error),
            Ok(files) => if files.len() == 0 {
                Err(
                    PatchErrorView::InvalidPatch(
                        "patch does not contain a unified diff file header"@,
                    ),
                )
            } else {
                Ok(files)
            },
        }
    }
}

/// The file that a file patch changes.
pub open spec fn target_path(file: FilePatchView) -> Result<Seq<char>, PatchErrorView> {
    match (file.old_path, file.new_path) {
        (Some(old), Some(new)) => if path::components(old) == path::components(new) {
            Ok(new)
        } else {
            Err(
                PatchErrorView::InvalidPatch(
                    "renaming '"@ + old + "' to '"@ + new
                        + "' is not supported by the minimal patch tool"@,
                ),
            )
        },
        (None, Some(new)) => Ok(new),
        (Some(old), None) => Ok(old),
        (None, None) => Err(
            PatchErrorView::InvalidPatch("a file patch cannot use /dev/null for both paths"@),
        ),
    }
}

/// A line as a conflict shows it.
pub open spec fn shown_line(line: Seq<char>) -> Seq<char> {
    text::debug_text(
        line.take(tool_support::utf8_cut(line, MAX_CONFLICT_LINE_BYTES as nat, 0)),
    )
}

/// Why the line at `index` is not the `expected` one.
pub open spec fn line_conflict(original: Seq<Seq<char>>, index: int, expected: Seq<char>) -> Option<
    PatchErrorView,
> {
    if index >= original.len() {
        Some(
            PatchErrorView::Conflict(
                "patch expects old line "@ + text::decimal_text((index + 1) as nat)
                    + ", but the file ended"@,
            ),
        )
    } else if original[index] != expected {
        Some(
            PatchErrorView::Conflict(
                "patch context mismatch at old line "@ + text::decimal_text((index + 1) as nat)
                    + ": expected "@ + shown_line(expected) + ", found "@ + shown_line(
                    original[index],
                ),
            ),
        )
    } else {
        None
    }
}

/// How far a patch has been applied: the lines of the original that are done,
/// and the text written for them.
pub struct Progress {
    pub cursor: nat,
    pub output: Seq<char>,
}

/// The lines `from..to` of a text in a row.
pub open spec fn joined_lines(lines: Seq<Seq<char>>, from: int, to: int) -> Seq<char>
    decreases to - from,
{
    if from >= to {
        Seq::empty()
    } else {
        joined_lines(lines, from, to - 1) + lines[to - 1]
    }
}

/// One hunk line applied.
pub open spec fn apply_line(original: Seq<Seq<char>>, line: LineView, done: Progress) -> Result<
    Progress,
    PatchErrorView,
> {
    match line {
        LineView::Context(expected) => match line_conflict(
            original,
            done.cursor as int,
            expected,
        ) {
            Some(error) => Err(error),
            None => Ok(Progress { cursor: done.cursor + 1, output: done.output + expected }),
        },
        LineView::Remove(expected) => match line_conflict(
            original,
            done.cursor as int,
            expected,
        ) {
            Some(error) => Err(error),
            None => Ok(Progress { cursor: done.cursor + 1, ..done }),
        },
        LineView::Add(added) => Ok(Progress { output: done.output + added, ..done }),
    }
}

/// The hunk lines from `at` on applied.
pub open spec fn apply_lines(
    original: Seq<Seq<char>>,
    lines: Seq<LineView>,
    at: int,
    done: Progress,
) -> Result<Progress, PatchErrorView>
    decreases lines.len() - at,
{
    if at < 0 || at >= lines.len() {
        Ok(done)
    } else {
        match apply_line(original, lines[at], done) {
            Err(error) => Err(error),
            Ok(next) => apply_lines(original, lines, at + 1, next),
        }
    }
}

/// How many old lines the first `count` lines of a hunk stand for.
pub open spec fn old_total(lines: Seq<LineView>, count: int) -> nat
    decreases count,
{
    if count <= 0 {
        0
    } else {
        old_total(lines, count - 1) + old_lines(lines[count - 1])
    }
}

/// How many new lines the first `count` lines of a hunk stand for.
pub open spec fn new_total(lines: Seq<LineView>, count: int) -> nat
    decreases count,
{
    if count <= 0 {
        0
    } else {
        new_total(lines, count - 1) + new_lines(lines[count - 1])
    }
}

/// Whether the lines of a hunk are as many as its header says.
pub open spec fn counts_match(hunk: HunkView) -> bool {
    &&& old_total(hunk.lines, hunk.lines.len() as int) == hunk.old_count
    &&& new_total(hunk.lines, hunk.lines.len() as int) == hunk.new_count
}

/// The index of the first line of the original that a hunk is about.
pub open spec fn first_line(hunk: HunkView) -> nat {
    if hunk.old_start == 0 {
        0
    } else {
        (hunk.old_start - 1) as nat
    }
}

/// One hunk applied, with the lines of the original before it.
pub open spec fn apply_hunk(original: Seq<Seq<char>>, hunk: HunkView, done: Progress) -> Result<
    Progress,
    PatchErrorView,
> {
    let start = first_line(hunk);
    if start < done.cursor || start > original.len() {
        Err(
            PatchErrorView::Conflict(
                "hunk starting at old line "@ + text::decimal_text(hunk.old_start)
                    + " is out of order or outside the file"@,
            ),
        )
    } else {
        let begun = Progress {
            cursor: start,
            output: done.output + joined_lines(original, done.cursor as int, start as int),
        };
        match apply_lines(original, hunk.lines, 0, begun) {
            Err(error) => Err(error),
            Ok(next) => if !counts_match(hunk) {
                Err(
                    PatchErrorView::InvalidPatch(
                        "parsed hunk counts do not match its header"@,
                    ),
                )
            } else {
                Ok(next)
            },
        }
    }
}

/// The hunks from `at` on applied.
pub open spec fn apply_hunks_from(
    original: Seq<Seq<char>>,
    hunks: Seq<HunkView>,
    at: int,
    done: Progress,
) -> Result<Progress, PatchErrorView>
    decreases hunks.len() - at,
{
    if at < 0 || at >= hunks.len() {
        Ok(done)
    } else {
        match apply_hunk(original, hunks[at], done) {
            Err(error) => Err(error),
            Ok(next) => apply_hunks_from(original, hunks, at + 1, next),
        }
    }
}

/// The text that applying `hunks` to `original` gives.
pub open spec fn apply_hunks(original: Seq<char>, hunks: Seq<HunkView>) -> Result<
    Seq<char>,
    PatchErrorView,
> {
    let lines = text::inclusive_lines(original);
    match apply_hunks_from(lines, hunks, 0, Progress { cursor: 0, output: Seq::empty() }) {
        Err(error) => Err(error),
        Ok(done) => Ok(
            done.output + joined_lines(lines, done.cursor as int, lines.len() as int),
        ),
    }
}

/// Why a file patch does not fit a target, whatever its hunks hold.
pub open spec fn refusal(file: FilePatchView, original: Option<Seq<char>>) -> Option<
    PatchErrorView,
> {
    match (file.old_path, file.new_path, original) {
        (None, Some(_), Some(_)) => Some(
            PatchErrorView::Conflict("new-file patch target already exists"@),
        ),
        (Some(_), _, None) => Some(PatchErrorView::Conflict("patch source file does not exist"@)),
        (Some(_), None, Some(_)) => Some(
            PatchErrorView::InvalidPatch(
                "delete-file patches are not supported by the minimal patch tool"@,
            ),
        ),
        _ => None,
    }
}

/// The text that the hunks of a patch are applied to.
pub open spec fn old_content(original: Option<Seq<char>>) -> Seq<char> {
    match original {
        Some(content) => content,
        None => Seq::empty(),
    }
}

/// The new content of the file that a file patch changes.
pub open spec fn prepare_change(file: FilePatchView, original: Option<Seq<char>>) -> Result<
    Seq<char>,
    PatchErrorView,
> {
    match refusal(file, original) {
        Some(error) => Err(error),
        None => apply_hunks(old_content(original), file.hunks),
    }
}

/// Where a verified recovery file lies.
pub open spec fn recovery_files(recovery: RecoveryView) -> Seq<Seq<char>> {
    match recovery {
        RecoveryView::LocatedVerified(path) => seq![tool_support::displayed_path(path)],
        RecoveryView::LocatedPolicyUnverified(path) => seq![tool_support::displayed_path(path)],
        _ => Seq::empty(),
    }
}

/// Where a file lies that may be a recovery file.
pub open spec fn recovery_candidates(recovery: RecoveryView) -> Seq<Seq<char>> {
    match recovery {
        RecoveryView::LocatedContentUnverified(path) => seq![tool_support::displayed_path(path)],
        RecoveryView::LocatedContentAndPolicyUnverified(path) => {
            seq![tool_support::displayed_path(path)]
        },
        _ => Seq::empty(),
    }
}

pub open spec fn recovery_state(recovery: RecoveryView) -> Seq<char> {
    match recovery {
        RecoveryView::LocatedVerified(_) => "located_verified"@,
        RecoveryView::LocatedContentUnverified(_) => "located_content_unverified"@,
        RecoveryView::LocatedPolicyUnverified(_) => "located_policy_unverified"@,
        RecoveryView::LocatedContentAndPolicyUnverified(_) => {
            "located_content_and_policy_unverified"@
        },
        RecoveryView::Unlocated => "unlocated"@,
        RecoveryView::NotApplicableNewFile => "not_applicable_new_file"@,
    }
}

pub open spec fn recovery_policy(recovery: RecoveryView) -> Seq<char> {
    match recovery {
        RecoveryView::LocatedVerified(_) => "verified_search_and_git_ignored"@,
        RecoveryView::LocatedContentUnverified(_) => "verified_search_and_git_ignored"@,
        RecoveryView::LocatedPolicyUnverified(_) => "unverified"@,
        RecoveryView::LocatedContentAndPolicyUnverified(_) => "unverified"@,
        RecoveryView::Unlocated => "unverified"@,
        RecoveryView::NotApplicableNewFile => "not_applicable"@,
    }
}

/// The state that a failure behind the publication reports.
pub open spec fn published_state(recovery: RecoveryView) -> Seq<char> {
    match recovery {
        RecoveryView::LocatedVerified(_) => "published_with_recovery"@,
        RecoveryView::LocatedPolicyUnverified(_) => "published_with_recovery"@,
        RecoveryView::LocatedContentUnverified(_) => "published_recovery_candidate"@,
        RecoveryView::LocatedContentAndPolicyUnverified(_) => "published_recovery_candidate"@,
        RecoveryView::Unlocated => "published_recovery_unlocated"@,
        RecoveryView::NotApplicableNewFile => "published_without_recovery"@,
    }
}

pub open spec fn preserved_code(recovery: RecoveryView) -> Seq<char> {
    match recovery {
        RecoveryView::LocatedVerified(_) => "patch_not_published_with_recovery"@,
        RecoveryView::LocatedPolicyUnverified(_) => "patch_not_published_with_recovery"@,
        RecoveryView::LocatedContentUnverified(_) => {
            "patch_not_published_with_recovery_candidate"@
        },
        RecoveryView::LocatedContentAndPolicyUnverified(_) => {
            "patch_not_published_with_recovery_candidate"@
        },
        RecoveryView::Unlocated => "patch_not_published_recovery_unlocated"@,
        RecoveryView::NotApplicableNewFile => "patch_not_published_without_recovery"@,
    }
}

pub open spec fn published_code(recovery: RecoveryView) -> Seq<char> {
    match recovery {
        RecoveryView::LocatedVerified(_) => "patch_published_with_recovery"@,
        RecoveryView::LocatedPolicyUnverified(_) => "patch_published_with_recovery"@,
        RecoveryView::LocatedContentUnverified(_) => "patch_published_with_recovery_candidate"@,
        RecoveryView::LocatedContentAndPolicyUnverified(_) => {
            "patch_published_with_recovery_candidate"@
        },
        RecoveryView::Unlocated => "patch_published_recovery_unlocated"@,
        RecoveryView::NotApplicableNewFile => "patch_published_without_recovery"@,
    }
}

/// The extensions of a failure that concerns a publication.
pub open spec fn publication_fields(
    state: Seq<char>,
    changed: Seq<Seq<char>>,
    recovery: RecoveryView,
) -> Seq<(Seq<char>, FieldValueView)> {
    seq![
        ("publication_state"@, FieldValueView::Text(state)),
        ("changed_files"@, FieldValueView::Texts(changed)),
        ("recovery_files"@, FieldValueView::Texts(recovery_files(recovery))),
        ("recovery_candidates"@, FieldValueView::Texts(recovery_candidates(recovery))),
        ("recovery_state"@, FieldValueView::Text(recovery_state(recovery))),
        ("recovery_policy"@, FieldValueView::Text(recovery_policy(recovery))),
    ]
}

impl PatchErrorView {
    pub open spec fn code(self) -> Seq<char> {
        match self {
            PatchErrorView::InvalidPatch(_) => "invalid_patch"@,
            PatchErrorView::Limit(_) => "patch_too_large"@,
            PatchErrorView::Conflict(_) => "patch_conflict"@,
            PatchErrorView::Workspace(error) => error.code(),
            PatchErrorView::Io { source, .. } => if source.kind == ErrorKind::Unsupported {
                "unsupported_file_metadata"@
            } else if source.kind == ErrorKind::WouldBlock || source.kind
                == ErrorKind::InvalidInput {
                "patch_conflict"@
            } else {
                "workspace_io_error"@
            },
            PatchErrorView::Preserved { recovery, .. } => preserved_code(recovery),
            PatchErrorView::Published { recovery, .. } => published_code(recovery),
            PatchErrorView::Cancelled => "tool_cancelled"@,
        }
    }

    pub open spec fn retryable(self) -> bool {
        match self {
            PatchErrorView::Workspace(error) => error.retryable(),
            PatchErrorView::Io { source, .. } => source.kind == ErrorKind::Interrupted,
            _ => false,
        }
    }

    pub open spec fn message(self) -> Seq<char> {
        match self {
            PatchErrorView::InvalidPatch(message) => "invalid patch: "@ + message,
            PatchErrorView::Limit(message) => "patch limit exceeded: "@ + message,
            PatchErrorView::Conflict(message) => "patch conflict: "@ + message,
            PatchErrorView::Workspace(error) => error.message(),
            PatchErrorView::Io { path, source } => "failed to update '"@ + path + "': "@
                + source.message,
            PatchErrorView::Preserved { target, source, .. } => "patch was not published at '"@
                + target + "', and staged data was preserved: "@ + source.message,
            PatchErrorView::Published { target, source, .. } => "patch was published at '"@ + target
                + "', but commit validation failed: "@ + source.message,
            PatchErrorView::Cancelled => "apply_patch was cancelled"@,
        }
    }

    /// The tool output that reports the error.
    pub open spec fn output(self) -> OutputView {
        match self {
            PatchErrorView::Preserved { target, recovery, source } => {
                let shown = tool_support::displayed_path(target);
                OutputView::Failure {
                    error: ToolErrorView {
                        code: preserved_code(recovery),
                        message: tool_support::json_prefix(
                            "patch was not published at '"@ + shown
                                + "', and recovery evidence was recorded: "@ + source.message,
                            8192,
                        ),
                        retryable: false,
                    },
                    extensions: publication_fields("not_published"@, Seq::empty(), recovery),
                }
            },
            PatchErrorView::Published { target, recovery, source } => {
                let shown = tool_support::displayed_path(target);
                OutputView::Failure {
                    error: ToolErrorView {
                        code: published_code(recovery),
                        message: tool_support::json_prefix(
                            "patch was published at '"@ + shown
                                + "', but commit validation failed: "@ + source.message,
                            8192,
                        ),
                        retryable: false,
                    },
                    extensions: publication_fields(
                        published_state(recovery),
                        seq![shown],
                        recovery,
                    ),
                }
            },
            error => tool_support::failure_view(error.code(), error.message(), error.retryable()),
        }
    }
}

/// The number of line feeds in some bytes.
pub open spec fn newlines(bytes: Seq<u8>) -> nat
    decreases bytes.len(),
{
    if bytes.len() == 0 {
        0
    } else {
        newlines(bytes.drop_last()) + if bytes.last() == 10 {
            1nat
        } else {
            0
        }
    }
}

/// The number of lines in some bytes, a last one without a line feed included.
pub open spec fn line_count(bytes: Seq<u8>) -> nat {
    newlines(bytes) + if bytes.len() > 0 && bytes.last() != 10 {
        1nat
    } else {
        0
    }
}

/// The error for a target of too many bytes.
pub open spec fn target_too_long(path: Seq<char>) -> PatchErrorView {
    PatchErrorView::Limit("patch target '"@ + path + "' exceeds 33554432 bytes"@)
}

/// The error for a target of too many lines.
pub open spec fn target_too_many_lines(path: Seq<char>) -> PatchErrorView {
    PatchErrorView::Limit("patch target '"@ + path + "' exceeds 1000000 lines"@)
}

/// Why a target cannot take another chunk behind `content`.
pub open spec fn chunk_error(path: Seq<char>, content: Seq<u8>, chunk: Seq<u8>) -> Option<
    PatchErrorView,
> {
    if content.len() + chunk.len() > MAX_PATCH_FILE_BYTES {
        Some(target_too_long(path))
    } else if newlines(content + chunk) > MAX_PATCH_FILE_LINES {
        Some(target_too_many_lines(path))
    } else {
        None
    }
}

/// The text that a whole target holds.
pub open spec fn target_text(path: Seq<char>, content: Seq<u8>) -> Result<
    Seq<char>,
    PatchErrorView,
> {
    if line_count(content) > MAX_PATCH_FILE_LINES {
        Err(target_too_many_lines(path))
    } else if !vstd::utf8::valid_utf8(content) {
        Err(
            PatchErrorView::Io {
                path,
                source: IoFailureView {
                    kind: ErrorKind::InvalidData,
                    message: utf8::utf8_error_text(content),
                    os_error: None,
                },
            },
        )
    } else {
        Ok(vstd::utf8::decode_utf8(content))
    }
}

/// What a patch that was published did.
pub struct PatchResultView {
    pub changed_files: Seq<Seq<char>>,
    pub recovery_files: Seq<Seq<char>>,
}

/// How a publication ended.
pub enum PublicationView {
    /// The target was replaced; its old content may have been kept.
    Done { recovery: Option<Seq<char>> },
    /// It failed before the new content was visible.
    BeforePublication { source: IoFailureView, recovery: Option<RecoveryView> },
    /// It failed after the new content was visible.
    Published { source: IoFailureView, target: Seq<char>, recovery: RecoveryView },
}

/// Where the run of a patch stands.
pub enum RunView {
    /// The target is to be looked up for writing.
    Resolving { file: FilePatchView, path: Seq<char> },
    /// The target that exists is to be read.
    Reading { file: FilePatchView, path: Seq<char> },
    /// The new content is known. Before it is published, a last look is taken
    /// for a request to stop.
    Polling { path: Seq<char>, content: Seq<char>, replaces: bool },
    /// The new content is to be published.
    Publishing { path: Seq<char>, content: Seq<char>, replaces: bool },
    Finished(Result<PatchResultView, PatchErrorView>),
}

/// What the outside says to a run.
pub enum EventView {
    Resolved(Result<(Seq<char>, bool), PathErrorView>),
    Read(Result<Seq<char>, PatchErrorView>),
    /// What the last look before the publication said.
    Cancellation(bool),
    Published(PublicationView),
}

/// A run that ended because it was asked to stop.
pub open spec fn cancelled() -> RunView {
    RunView::Finished(Err(PatchErrorView::Cancelled))
}

/// The run of a patch before its target is looked up, where a look has said that
/// it is to stop if `stopped` holds. An empty patch is refused without a look.
pub open spec fn begin(patch: Seq<char>, stopped: bool) -> RunView {
    if patch.len() > 0 && stopped {
        cancelled()
    } else {
        match parse_patch(patch) {
            Err(error) => RunView::Finished(Err(error)),
            Ok(files) => if files.len() != 1 {
                RunView::Finished(
                    Err(
                        PatchErrorView::InvalidPatch(
                            "the minimal patch tool accepts exactly one file patch"@,
                        ),
                    ),
                )
            } else {
                match target_path(files[0]) {
                    Err(error) => RunView::Finished(Err(error)),
                    Ok(path) => RunView::Resolving { file: files[0], path },
                }
            },
        }
    }
}

/// The run once the old content of the target is known, where a look has said
/// that it is to stop if `stopped` holds. A patch that does not fit the target is
/// refused without a look.
pub open spec fn prepared(
    file: FilePatchView,
    path: Seq<char>,
    original: Option<Seq<char>>,
    stopped: bool,
) -> RunView {
    match refusal(file, original) {
        Some(error) => RunView::Finished(Err(error)),
        None => if stopped {
            cancelled()
        } else {
            match apply_hunks(old_content(original), file.hunks) {
                Err(error) => RunView::Finished(Err(error)),
                Ok(content) => RunView::Polling { path, content, replaces: original is Some },
            }
        },
    }
}

/// The run once the last look before the publication is taken.
pub open spec fn polled(
    path: Seq<char>,
    content: Seq<char>,
    replaces: bool,
    requested: bool,
) -> RunView {
    if requested {
        cancelled()
    } else if vstd::utf8::encode_utf8(content).len() > MAX_PATCH_FILE_BYTES {
        RunView::Finished(
            Err(
                PatchErrorView::Limit("patch result '"@ + path + "' exceeds 33554432 bytes"@),
            ),
        )
    } else {
        RunView::Publishing { path, content, replaces }
    }
}

/// What a publication comes to.
pub open spec fn publication_result(path: Seq<char>, publication: PublicationView) -> Result<
    PatchResultView,
    PatchErrorView,
> {
    match publication {
        PublicationView::Done { recovery } => Ok(
            PatchResultView {
                changed_files: seq![tool_support::displayed_path(path)],
                recovery_files: match recovery {
                    Some(kept) => seq![tool_support::displayed_path(kept)],
                    None => Seq::empty(),
                },
            },
        ),
        PublicationView::BeforePublication { source, recovery: Some(recovery) } => Err(
            PatchErrorView::Preserved { target: path, recovery, source },
        ),
        PublicationView::BeforePublication { source, recovery: None } => Err(
            PatchErrorView::Io { path, source },
        ),
        PublicationView::Published { source, target, recovery } => Err(
            PatchErrorView::Published { target, recovery, source },
        ),
    }
}

/// Whether an event lets a run make the new content of the target, which is where
/// it looks for a request to stop.
pub open spec fn prepares(run: RunView, event: EventView) -> bool {
    match (run, event) {
        (RunView::Resolving { file, .. }, EventView::Resolved(Ok((_, existed)))) => !existed
            && refusal(file, None) is None,
        (RunView::Reading { file, .. }, EventView::Read(Ok(content))) => refusal(
            file,
            Some(content),
        ) is None,
        _ => false,
    }
}

/// How an event moves a run on, where a look that the run takes meanwhile has
/// said that it is to stop if `stopped` holds. An event that the run does not wait
/// for leaves it where it is.
pub open spec fn advance(run: RunView, event: EventView, stopped: bool) -> RunView {
    match (run, event) {
        (RunView::Resolving { .. }, EventView::Resolved(Err(error))) => RunView::Finished(
            Err(PatchErrorView::Workspace(error)),
        ),
        (RunView::Resolving { file, .. }, EventView::Resolved(Ok((path, existed)))) => if existed {
            RunView::Reading { file, path }
        } else {
            prepared(file, path, None, stopped)
        },
        (RunView::Reading { .. }, EventView::Read(Err(error))) => RunView::Finished(
            Err(error),
        ),
        (RunView::Reading { file, path }, EventView::Read(Ok(content))) => prepared(
            file,
            path,
            Some(content),
            stopped,
        ),
        (
            RunView::Polling { path, content, replaces },
            EventView::Cancellation(requested),
        ) => polled(path, content, replaces, requested),
        (RunView::Publishing { path, .. }, EventView::Published(publication)) => RunView::Finished(
            publication_result(path, publication),
        ),
        _ => run,
    }
}

} // verus!
