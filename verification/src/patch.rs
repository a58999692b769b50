//! Applying a unified diff to one file of the workspace.

use crate::cancellation;
use crate::cancellation::Cancellation;
use crate::io_failure::{ErrorKind, IoFailure};
use crate::output_size;
use crate::output_size::finalize_output;
use crate::patch_laws;
use crate::patch_model;
use crate::patch_model::{
    EventView, FilePatchView, HunkView, LineView, PatchErrorView, PatchResultView, Progress,
    PublicationView, RecoveryView, RunView, MAX_CONFLICT_LINE_BYTES, MAX_PATCH_BYTES,
    MAX_PATCH_FILE_BYTES, MAX_PATCH_FILE_LINES, MAX_PATCH_LINES,
};
use crate::path::same_path;
use crate::text;
use crate::text::{
    begins_with_char, byte_len, chars_of, concat2, concat3, decimal, parse_usize, position_of_part,
    same_text, split_at_first, split_inclusive_lines, split_words, starts_with, strip_return,
    text_of, to_debug_text, trim_line_ends,
};
use crate::tool;
use crate::tool::{
    no_fields, one_content, push_field, ContentView, FieldValue, FieldValueView, OutputView,
    ToolContent, ToolError, ToolOutput,
};
use crate::tool_support;
use crate::tool_support::{
    display_relative_path, failure, object_members, truncate_json_string, truncate_utf8, Members,
    ToolArguments,
};
use crate::utf8::{check_utf8, Utf8Check};
use crate::workspace::{ResolvedWorkspacePath, WorkspaceContext, WorkspacePathError, WorkspaceView};
use vstd::prelude::*;

verus! {

/// What is left of a file after a publication failed.
#[derive(Debug, PartialEq, Eq)]
pub enum PublishedRecovery {
    LocatedVerified(String),
    LocatedContentUnverified(String),
    LocatedPolicyUnverified(String),
    LocatedContentAndPolicyUnverified(String),
    Unlocated,
    NotApplicableNewFile,
}

impl View for PublishedRecovery {
    type V = RecoveryView;

    open spec fn view(&self) -> RecoveryView {
        match self {
            PublishedRecovery::LocatedVerified(path) => RecoveryView::LocatedVerified(path@),
            PublishedRecovery::LocatedContentUnverified(path) => {
                RecoveryView::LocatedContentUnverified(path@)
            },
            PublishedRecovery::LocatedPolicyUnverified(path) => {
                RecoveryView::LocatedPolicyUnverified(path@)
            },
            PublishedRecovery::LocatedContentAndPolicyUnverified(path) => {
                RecoveryView::LocatedContentAndPolicyUnverified(path@)
            },
            PublishedRecovery::Unlocated => RecoveryView::Unlocated,
            PublishedRecovery::NotApplicableNewFile => RecoveryView::NotApplicableNewFile,
        }
    }
}

/// Why a patch was not applied.
#[derive(Debug, PartialEq, Eq)]
pub enum PatchError {
    InvalidPatch(String),
    Limit(String),
    Conflict(String),
    Workspace(WorkspacePathError),
    Io { path: String, source: IoFailure },
    Preserved { target: String, recovery: PublishedRecovery, source: IoFailure },
    Published { target: String, recovery: PublishedRecovery, source: IoFailure },
    Cancelled,
}

impl View for PatchError {
    type V = PatchErrorView;

    open spec fn view(&self) -> PatchErrorView {
        match self {
            PatchError::InvalidPatch(message) => PatchErrorView::InvalidPatch(message@),
            PatchError::Limit(message) => PatchErrorView::Limit(message@),
            PatchError::Conflict(message) => PatchErrorView::Conflict(message@),
            PatchError::Workspace(error) => PatchErrorView::Workspace(error@),
            PatchError::Io { path, source } => PatchErrorView::Io { path: path@, source: source@ },
            PatchError::Preserved { target, recovery, source } => PatchErrorView::Preserved {
                target: target@,
                recovery: recovery@,
                source: source@,
            },
            PatchError::Published { target, recovery, source } => PatchErrorView::Published {
                target: target@,
                recovery: recovery@,
                source: source@,
            },
            PatchError::Cancelled => PatchErrorView::Cancelled,
        }
    }
}

fn invalid(message: &str) -> (error: PatchError)
    ensures
        error@ == PatchErrorView::InvalidPatch(message@),
{
    PatchError::InvalidPatch(message.to_owned())
}

/// A message about a text that is shown as `Debug` writes it.
fn invalid_text(message: &str, shown: &str) -> (error: PatchError)
    ensures
        error@ == PatchErrorView::InvalidPatch(message@ + text::debug_text(shown@)),
{
    PatchError::InvalidPatch(concat2(message, to_debug_text(shown).as_str()))
}

/// One line of a hunk.
#[derive(Debug, PartialEq, Eq)]
pub enum PatchLine {
    Context(String),
    Remove(String),
    Add(String),
}

impl View for PatchLine {
    type V = LineView;

    open spec fn view(&self) -> LineView {
        match self {
            PatchLine::Context(line) => LineView::Context(line@),
            PatchLine::Remove(line) => LineView::Remove(line@),
            PatchLine::Add(line) => LineView::Add(line@),
        }
    }
}

/// The values of a sequence of hunk lines.
pub open spec fn line_views(lines: Seq<PatchLine>) -> Seq<LineView> {
    lines.map_values(|line: PatchLine| line@)
}

/// One hunk of a file patch.
#[derive(Debug, PartialEq, Eq)]
pub struct Hunk {
    pub old_start: usize,
    pub old_count: usize,
    pub new_count: usize,
    pub lines: Vec<PatchLine>,
}

impl View for Hunk {
    type V = HunkView;

    open spec fn view(&self) -> HunkView {
        HunkView {
            old_start: self.old_start as nat,
            old_count: self.old_count as nat,
            new_count: self.new_count as nat,
            lines: line_views(self.lines@),
        }
    }
}

/// The values of a sequence of hunks.
pub open spec fn hunk_views(hunks: Seq<Hunk>) -> Seq<HunkView> {
    hunks.map_values(|hunk: Hunk| hunk@)
}

/// The patch of one file.
#[derive(Debug, PartialEq, Eq)]
pub struct FilePatch {
    pub old_path: Option<String>,
    pub new_path: Option<String>,
    pub hunks: Vec<Hunk>,
}

/// The view of an optional text.
pub open spec fn optional_text(value: Option<String>) -> Option<Seq<char>> {
    match value {
        Some(text) => Some(text@),
        None => None,
    }
}

impl View for FilePatch {
    type V = FilePatchView;

    open spec fn view(&self) -> FilePatchView {
        FilePatchView {
            old_path: optional_text(self.old_path),
            new_path: optional_text(self.new_path),
            hunks: hunk_views(self.hunks@),
        }
    }
}

/// The values of a sequence of file patches.
pub open spec fn file_views(files: Seq<FilePatch>) -> Seq<FilePatchView> {
    files.map_values(|file: FilePatch| file@)
}

fn text_from(line: &str, from: usize) -> (rest: String)
    requires
        from <= line@.len(),
    ensures
        rest@ == line@.skip(from as int),
{
    let chars = chars_of(line);
    let rest = text_of(&chars, from, chars.len());
    assert(rest@ == line@.skip(from as int));
    rest
}

fn parse_header_path(line: &str, prefix: &str) -> (result: Result<Option<String>, PatchError>)
    ensures
        match result {
            Ok(path) => patch_model::header_path(line@, prefix@) == Ok::<
                Option<Seq<char>>,
                PatchErrorView,
            >(optional_text(path)),
            Err(error) => patch_model::header_path(line@, prefix@) == Err::<
                Option<Seq<char>>,
                PatchErrorView,
            >(error@),
        },
{
    if !starts_with(line, prefix) {
        let message = concat3("expected ", to_debug_text(prefix).as_str(), " file header");
        return Err(PatchError::InvalidPatch(message));
    }
    let prefix_chars = chars_of(prefix);
    let rest = text_from(line, prefix_chars.len());
    let trimmed = trim_line_ends(rest.as_str());
    let (raw, _) = split_at_first(trimmed.as_str(), '\t');
    if same_text(raw.as_str(), "/dev/null") {
        return Ok(None);
    }
    let name = if starts_with(raw.as_str(), "a/") || starts_with(raw.as_str(), "b/") {
        proof {
            reveal_strlit("a/");
            reveal_strlit("b/");
        }
        text_from(raw.as_str(), 2)
    } else {
        raw
    };
    if name.as_str().is_empty() {
        return Err(invalid("patch file path must not be empty"));
    }
    Ok(Some(name))
}

fn parse_range(part: &str) -> (result: Result<(usize, usize), PatchError>)
    ensures
        match result {
            Ok((start, count)) => patch_model::range(part@) == Ok::<(nat, nat), PatchErrorView>(
                (start as nat, count as nat),
            ),
            Err(error) => patch_model::range(part@) == Err::<(nat, nat), PatchErrorView>(error@),
        },
{
    let (start, given) = split_at_first(part, ',');
    let count = match given {
        Some(count) => count,
        None => "1".to_owned(),
    };
    let first: usize = match parse_usize(start.as_str()) {
        Some(first) => first,
        None => {
            return Err(invalid_text("invalid hunk range start ", start.as_str()));
        },
    };
    let length: usize = match parse_usize(count.as_str()) {
        Some(length) => length,
        None => {
            return Err(invalid_text("invalid hunk range count ", count.as_str()));
        },
    };
    Ok((first, length))
}

fn hunk_ranges(line: &str) -> (body: Option<String>)
    ensures
        match body {
            Some(found) => patch_model::hunk_ranges(line@) == Some(found@),
            None => patch_model::hunk_ranges(line@) is None,
        },
{
    if !starts_with(line, "@@") {
        return None;
    }
    proof {
        reveal_strlit("@@");
    }
    let body = text_from(line, 2);
    let chars = chars_of(body.as_str());
    let mark = chars_of("@@");
    match position_of_part(&chars, &mark, 0) {
        Some(position) => {
            let found = text_of(&chars, 0, position);
            assert(found@ == body@.take(position as int));
            Some(found)
        },
        None => None,
    }
}

fn parse_hunk_header(header: &str) -> (result: Result<(usize, usize, usize), PatchError>)
    ensures
        match result {
            Ok((old_start, old_count, new_count)) => patch_model::hunk_header(header@) == Ok::<
                (nat, nat, nat),
                PatchErrorView,
            >((old_start as nat, old_count as nat, new_count as nat)),
            Err(error) => patch_model::hunk_header(header@) == Err::<
                (nat, nat, nat),
                PatchErrorView,
            >(error@),
        },
{
    let line = trim_line_ends(header);
    let body = match hunk_ranges(line.as_str()) {
        Some(body) => body,
        None => {
            return Err(invalid_text("invalid hunk header ", line.as_str()));
        },
    };
    let ranges = split_words(body.as_str());
    let ghost views = text::texts(ranges@);
    assert(views.len() == ranges@.len());
    if ranges.len() == 0 {
        return Err(invalid_text("missing old range in hunk header ", line.as_str()));
    }
    if ranges.len() == 1 {
        return Err(invalid_text("missing new range in hunk header ", line.as_str()));
    }
    assert(views[0] == ranges@[0]@ && views[1] == ranges@[1]@);
    if ranges.len() > 2 || !begins_with_char(ranges[0].as_str(), '-') || !begins_with_char(
        ranges[1].as_str(),
        '+',
    ) {
        return Err(invalid_text("invalid ranges in hunk header ", line.as_str()));
    }
    let old = text_from(ranges[0].as_str(), 1);
    let new = text_from(ranges[1].as_str(), 1);
    match parse_range(old.as_str()) {
        Err(error) => Err(error),
        Ok((old_start, old_count)) => match parse_range(new.as_str()) {
            Err(error) => Err(error),
            Ok((_, new_count)) => Ok((old_start, old_count, new_count)),
        },
    }
}

fn without_line_end(line: &str) -> (result: String)
    ensures
        result@ == patch_model::without_line_end(line@),
{
    let chars = chars_of(line);
    let length: usize = chars.len();
    if length > 0 && chars[length - 1] == '\n' {
        let body = text_of(&chars, 0, length - 1);
        assert(body@ == line@.drop_last());
        strip_return(body.as_str())
    } else {
        line.to_owned()
    }
}

fn strip_last_line_ending(lines: &mut Vec<PatchLine>) -> (result: Result<(), PatchError>)
    ensures
        match result {
            Ok(()) => patch_model::strip_last(line_views(old(lines)@)) == Ok::<
                Seq<LineView>,
                PatchErrorView,
            >(line_views(final(lines)@)),
            Err(error) => patch_model::strip_last(line_views(old(lines)@)) == Err::<
                Seq<LineView>,
                PatchErrorView,
            >(error@),
        },
{
    let ghost views = line_views(lines@);
    assert(views.len() == lines@.len());
    match lines.pop() {
        None => Err(invalid("newline marker has no preceding hunk line")),
        Some(last) => {
            assert(views.last() == last@);
            let stripped = match last {
                PatchLine::Context(line) => PatchLine::Context(without_line_end(line.as_str())),
                PatchLine::Remove(line) => PatchLine::Remove(without_line_end(line.as_str())),
                PatchLine::Add(line) => PatchLine::Add(without_line_end(line.as_str())),
            };
            assert(line_views(lines@) == views.drop_last());
            let ghost shorter = lines@;
            lines.push(stripped);
            assert(line_views(lines@) == line_views(shorter).push(stripped@));
            Ok(())
        },
    }
}

fn is_newline_marker(line: &str) -> (result: bool)
    ensures
        result == patch_model::is_newline_marker(line@),
{
    starts_with(line, "\\ No newline at end of file")
}

fn parse_hunk_line(line: &str) -> (result: Option<PatchLine>)
    ensures
        match result {
            Some(found) => patch_model::hunk_line(line@) == Some(found@),
            None => patch_model::hunk_line(line@) is None,
        },
{
    if begins_with_char(line, ' ') {
        Some(PatchLine::Context(text_from(line, 1)))
    } else if begins_with_char(line, '-') {
        Some(PatchLine::Remove(text_from(line, 1)))
    } else if begins_with_char(line, '+') {
        Some(PatchLine::Add(text_from(line, 1)))
    } else {
        None
    }
}

/// Whether a step that may be stopped came to this error: it was stopped by a
/// look, or went on and came to what the model says.
pub open spec fn came_to<T>(
    error: PatchErrorView,
    expected: Result<T, PatchErrorView>,
    before: Cancellation,
    after: Cancellation,
) -> bool {
    ||| cancellation::was_stopped(before, after) && error is Cancelled
    ||| cancellation::went_on(before, after) && expected == Err::<T, PatchErrorView>(error)
}

fn parse_hunk_body(
    lines: &Vec<String>,
    start: usize,
    old_count: usize,
    new_count: usize,
    cancellation: &mut Cancellation,
) -> (result: Result<(usize, Vec<PatchLine>), PatchError>)
    requires
        start <= lines@.len(),
    ensures
        match result {
            Ok((next, body)) => cancellation::went_on(
                *old(cancellation),
                *final(cancellation),
            ) && patch_model::hunk_body(
                text::texts(lines@),
                start as int,
                old_count as nat,
                new_count as nat,
                Seq::empty(),
            ) == Ok::<(int, Seq<LineView>), PatchErrorView>((next as int, line_views(body@)))
                && start <= next <= lines@.len(),
            Err(error) => came_to(
                error@,
                patch_model::hunk_body(
                    text::texts(lines@),
                    start as int,
                    old_count as nat,
                    new_count as nat,
                    Seq::empty(),
                ),
                *old(cancellation),
                *final(cancellation),
            ),
        },
{
    let ghost views = text::texts(lines@);
    let ghost expected = patch_model::hunk_body(
        views,
        start as int,
        old_count as nat,
        new_count as nat,
        Seq::empty(),
    );
    let mut body: Vec<PatchLine> = Vec::new();
    assert(line_views(body@) == Seq::<LineView>::empty());
    let mut old_left: usize = old_count;
    let mut new_left: usize = new_count;
    let mut index: usize = start;
    while old_left > 0 || new_left > 0
        invariant
            cancellation::went_on(*old(cancellation), *cancellation),
            start <= index <= lines@.len(),
            views == text::texts(lines@),
            views.len() == lines@.len(),
            expected == patch_model::hunk_body(
                views,
                start as int,
                old_count as nat,
                new_count as nat,
                Seq::empty(),
            ),
            expected == patch_model::hunk_body(
                views,
                index as int,
                old_left as nat,
                new_left as nat,
                line_views(body@),
            ),
        decreases lines@.len() - index,
    {
        if cancellation.requested() {
            return Err(PatchError::Cancelled);
        }
        if index >= lines.len() {
            return Err(invalid("hunk ended before its declared counts"));
        }
        let line = lines[index].as_str();
        assert(views[index as int] == line@);
        if is_newline_marker(line) {
            match strip_last_line_ending(&mut body) {
                Err(error) => {
                    return Err(error);
                },
                Ok(()) => {},
            }
        } else {
            let parsed = match parse_hunk_line(line) {
                Some(parsed) => parsed,
                None => {
                    return Err(invalid_text("invalid hunk line ", line));
                },
            };
            let (old_lines, new_lines): (usize, usize) = match &parsed {
                PatchLine::Context(_) => (1, 1),
                PatchLine::Remove(_) => (1, 0),
                PatchLine::Add(_) => (0, 1),
            };
            if old_lines > old_left || new_lines > new_left {
                return Err(invalid("hunk content exceeds its declared counts"));
            }
            old_left -= old_lines;
            new_left -= new_lines;
            let ghost earlier = body@;
            body.push(parsed);
            assert(line_views(body@) == line_views(earlier).push(parsed@));
        }
        index += 1;
    }
    Ok((index, body))
}

fn parse_hunk(lines: &Vec<String>, start: usize, cancellation: &mut Cancellation) -> (result: Result<
    (usize, Hunk),
    PatchError,
>)
    requires
        start < lines@.len(),
    ensures
        match result {
            Ok((next, hunk)) => cancellation::went_on(
                *old(cancellation),
                *final(cancellation),
            ) && patch_model::hunk_at(text::texts(lines@), start as int) == Ok::<
                (int, HunkView),
                PatchErrorView,
            >((next as int, hunk@)) && start < next <= lines@.len(),
            Err(error) => came_to(
                error@,
                patch_model::hunk_at(text::texts(lines@), start as int),
                *old(cancellation),
                *final(cancellation),
            ),
        },
{
    let ghost views = text::texts(lines@);
    let length: usize = lines.len();
    assert(views[start as int] == lines@[start as int]@);
    let (old_start, old_count, new_count) = match parse_hunk_header(lines[start].as_str()) {
        Ok(header) => header,
        Err(error) => {
            return Err(error);
        },
    };
    let (mut next, mut body) = match parse_hunk_body(
        lines,
        start + 1,
        old_count,
        new_count,
        cancellation,
    ) {
        Ok(parsed) => parsed,
        Err(error) => {
            return Err(error);
        },
    };
    if next < length {
        assert(views[next as int] == lines@[next as int]@);
        if is_newline_marker(lines[next].as_str()) {
            match strip_last_line_ending(&mut body) {
                Err(error) => {
                    return Err(error);
                },
                Ok(()) => {},
            }
            next += 1;
        }
    }
    Ok((next, Hunk { old_start, old_count, new_count, lines: body }))
}

fn parse_hunks(lines: &Vec<String>, start: usize, cancellation: &mut Cancellation) -> (result: Result<
    (usize, Vec<Hunk>),
    PatchError,
>)
    requires
        start <= lines@.len(),
    ensures
        match result {
            Ok((next, hunks)) => cancellation::went_on(
                *old(cancellation),
                *final(cancellation),
            ) && patch_model::hunks_from(
                text::texts(lines@),
                start as int,
                Seq::empty(),
            ) == Ok::<(int, Seq<HunkView>), PatchErrorView>((next as int, hunk_views(hunks@)))
                && start <= next <= lines@.len(),
            Err(error) => came_to(
                error@,
                patch_model::hunks_from(text::texts(lines@), start as int, Seq::empty()),
                *old(cancellation),
                *final(cancellation),
            ),
        },
{
    let ghost views = text::texts(lines@);
    let ghost expected = patch_model::hunks_from(views, start as int, Seq::empty());
    let mut hunks: Vec<Hunk> = Vec::new();
    assert(hunk_views(hunks@) == Seq::<HunkView>::empty());
    let mut index: usize = start;
    while index < lines.len() && starts_with(lines[index].as_str(), "@@")
        invariant
            cancellation::went_on(*old(cancellation), *cancellation),
            start <= index <= lines@.len(),
            views == text::texts(lines@),
            views.len() == lines@.len(),
            expected == patch_model::hunks_from(views, start as int, Seq::empty()),
            expected == patch_model::hunks_from(views, index as int, hunk_views(hunks@)),
        decreases lines@.len() - index,
    {
        assert(views[index as int] == lines@[index as int]@);
        match parse_hunk(lines, index, cancellation) {
            Err(error) => {
                return Err(error);
            },
            Ok((next, hunk)) => {
                let ghost earlier = hunks@;
                hunks.push(hunk);
                assert(hunk_views(hunks@) == hunk_views(earlier).push(hunk@));
                index = next;
            },
        }
    }
    if index < lines.len() {
        assert(views[index as int] == lines@[index as int]@);
    }
    Ok((index, hunks))
}

fn is_diff_metadata(line: &str) -> (result: bool)
    ensures
        result == patch_model::is_diff_metadata(line@),
{
    starts_with(line, "diff --git ") || starts_with(line, "index ") || starts_with(
        line,
        "new file mode ",
    ) || starts_with(line, "deleted file mode ") || starts_with(line, "old mode ") || starts_with(
        line,
        "new mode ",
    )
}

fn parse_file_patch(lines: &Vec<String>, start: usize, cancellation: &mut Cancellation) -> (result:
    Result<(usize, FilePatch), PatchError>)
    requires
        start < lines@.len(),
    ensures
        match result {
            Ok((next, file)) => cancellation::went_on(
                *old(cancellation),
                *final(cancellation),
            ) && patch_model::file_patch_at(text::texts(lines@), start as int)
                == Ok::<(int, FilePatchView), PatchErrorView>((next as int, file@)) && start < next
                <= lines@.len(),
            Err(error) => came_to(
                error@,
                patch_model::file_patch_at(text::texts(lines@), start as int),
                *old(cancellation),
                *final(cancellation),
            ),
        },
{
    let ghost views = text::texts(lines@);
    assert(views.len() == lines@.len());
    assert(views[start as int] == lines@[start as int]@);
    let old_path = match parse_header_path(lines[start].as_str(), "--- ") {
        Ok(path) => path,
        Err(error) => {
            return Err(error);
        },
    };
    if lines.len() - start <= 1 {
        return Err(invalid("missing +++ file header"));
    }
    assert(views[start + 1] == lines@[start + 1]@);
    let new_path = match parse_header_path(lines[start + 1].as_str(), "+++ ") {
        Ok(path) => path,
        Err(error) => {
            return Err(error);
        },
    };
    let (next, hunks) = match parse_hunks(lines, start + 2, cancellation) {
        Ok(parsed) => parsed,
        Err(error) => {
            return Err(error);
        },
    };
    assert(hunk_views(hunks@).len() == hunks@.len());
    if hunks.len() == 0 {
        return Err(invalid("file patch must contain at least one hunk"));
    }
    if next < lines.len() {
        assert(views[next as int] == lines@[next as int]@);
        let unaccounted = lines[next].as_str();
        if !starts_with(unaccounted, "--- ") && !is_diff_metadata(unaccounted) {
            return Err(invalid_text("unaccounted content after hunk: ", unaccounted));
        }
    }
    Ok((next, FilePatch { old_path, new_path, hunks }))
}

/// Reads a patch into the patches of its files.
pub fn parse_patch(patch: &str, cancellation: &mut Cancellation) -> (result: Result<
    Vec<FilePatch>,
    PatchError,
>)
    ensures
        match result {
            Ok(files) => cancellation::went_on(
                *old(cancellation),
                *final(cancellation),
            ) && patch_model::parse_patch(patch@) == Ok::<
                Seq<FilePatchView>,
                PatchErrorView,
            >(file_views(files@)),
            Err(error) => came_to(
                error@,
                patch_model::parse_patch(patch@),
                *old(cancellation),
                *final(cancellation),
            ),
        },
        patch@.len() == 0 ==> final(cancellation).looks() == old(cancellation).looks(),
        patch@.len() > 0 ==> cancellation::has_looked(*old(cancellation), *final(cancellation)),
{
    if patch.is_empty() {
        return Err(invalid("patch must not be empty"));
    }
    if cancellation.requested() {
        return Err(PatchError::Cancelled);
    }
    let lines = split_inclusive_lines(patch);
    let ghost views = text::texts(lines@);
    assert(views.len() == lines@.len());
    if lines.len() > MAX_PATCH_LINES {
        return Err(PatchError::Limit("patch exceeds 200000 lines".to_owned()));
    }
    let ghost expected = patch_model::files_from(views, 0, Seq::empty());
    let mut files: Vec<FilePatch> = Vec::new();
    assert(file_views(files@) == Seq::<FilePatchView>::empty());
    let mut index: usize = 0;
    while index < lines.len()
        invariant
            cancellation::went_on(*old(cancellation), *cancellation),
            cancellation::has_looked(*old(cancellation), *cancellation),
            index <= lines@.len(),
            views == text::texts(lines@),
            views.len() == lines@.len() <= MAX_PATCH_LINES,
            views == text::inclusive_lines(patch@),
            patch@.len() > 0,
            expected == patch_model::files_from(views, 0, Seq::empty()),
            expected == patch_model::files_from(views, index as int, file_views(files@)),
        decreases lines@.len() - index,
    {
        if cancellation.requested() {
            return Err(PatchError::Cancelled);
        }
        let ghost from = index as int;
        while index < lines.len() && !starts_with(lines[index].as_str(), "--- ")
            invariant
                from <= index <= lines@.len(),
                views == text::texts(lines@),
                views.len() == lines@.len(),
                patch_model::next_header(views, from) == patch_model::next_header(
                    views,
                    index as int,
                ),
            decreases lines@.len() - index,
        {
            assert(views[index as int] == lines@[index as int]@);
            index += 1;
        }
        if index < lines.len() {
            assert(views[index as int] == lines@[index as int]@);
            match parse_file_patch(&lines, index, cancellation) {
                Err(error) => {
                    return Err(error);
                },
                Ok((next, file)) => {
                    let ghost earlier = files@;
                    files.push(file);
                    assert(file_views(files@) == file_views(earlier).push(file@));
                    index = next;
                },
            }
        } else {
            assert(patch_model::next_header(views, from) == views.len());
            assert(patch_model::next_header(views, index as int) == views.len());
        }
    }
    assert(file_views(files@).len() == files@.len());
    if files.len() == 0 {
        return Err(invalid("patch does not contain a unified diff file header"));
    }
    Ok(files)
}

impl FilePatch {
    /// The file that the patch changes.
    pub fn target_path(&self) -> (result: Result<String, PatchError>)
        ensures
            match result {
                Ok(path) => patch_model::target_path(self@) == Ok::<Seq<char>, PatchErrorView>(
                    path@,
                ),
                Err(error) => patch_model::target_path(self@) == Err::<
                    Seq<char>,
                    PatchErrorView,
                >(error@),
            },
    {
        match (&self.old_path, &self.new_path) {
            (Some(old), Some(new)) => if same_path(old.as_str(), new.as_str()) {
                Ok(new.as_str().to_owned())
            } else {
                let mut message = concat3("renaming '", old.as_str(), "' to '");
                message.push_str(new.as_str());
                message.push_str("' is not supported by the minimal patch tool");
                Err(PatchError::InvalidPatch(message))
            },
            (None, Some(new)) => Ok(new.as_str().to_owned()),
            (Some(old), None) => Ok(old.as_str().to_owned()),
            (None, None) => Err(invalid("a file patch cannot use /dev/null for both paths")),
        }
    }

    /// The new content of the file that the patch changes.
    pub fn prepare_change(&self, original: Option<&str>, cancellation: &mut Cancellation) -> (result:
        Result<String, PatchError>)
        ensures
            match result {
                Ok(updated) => cancellation::went_on(
                    *old(cancellation),
                    *final(cancellation),
                ) && patch_model::prepare_change(self@, optional_str(original)) == Ok::<
                    Seq<char>,
                    PatchErrorView,
                >(updated@),
                Err(error) => came_to(
                    error@,
                    patch_model::prepare_change(self@, optional_str(original)),
                    *old(cancellation),
                    *final(cancellation),
                ),
            },
            patch_model::refusal(self@, optional_str(original)) is Some
                ==> final(cancellation).looks() == old(cancellation).looks(),
            patch_model::refusal(self@, optional_str(original)) is None && self.hunks@.len() > 0
                ==> cancellation::has_looked(*old(cancellation), *final(cancellation)),
    {
        match (&self.old_path, &self.new_path, original) {
            (None, Some(_), Some(_)) => Err(
                PatchError::Conflict("new-file patch target already exists".to_owned()),
            ),
            (Some(_), _, None) => Err(
                PatchError::Conflict("patch source file does not exist".to_owned()),
            ),
            (Some(_), None, Some(_)) => Err(
                invalid("delete-file patches are not supported by the minimal patch tool"),
            ),
            (_, _, Some(content)) => apply_hunks(content, &self.hunks, cancellation),
            (_, _, None) => {
                proof {
                    reveal_strlit("");
                    assert(""@ == Seq::<char>::empty());
                }
                apply_hunks("", &self.hunks, cancellation)
            },
        }
    }
}

/// The view of an optional text.
pub open spec fn optional_str(value: Option<&str>) -> Option<Seq<char>> {
    match value {
        Some(text) => Some(text@),
        None => None,
    }
}

fn shown_line(line: &str) -> (shown: String)
    ensures
        shown@ == patch_model::shown_line(line@),
{
    to_debug_text(truncate_utf8(line, MAX_CONFLICT_LINE_BYTES).as_str())
}

fn require_original_line(original: &Vec<String>, index: usize, expected: &str) -> (result: Result<
    (),
    PatchError,
>)
    requires
        index <= original@.len(),
    ensures
        match result {
            Ok(()) => patch_model::line_conflict(
                text::texts(original@),
                index as int,
                expected@,
            ) is None && index < original@.len(),
            Err(error) => patch_model::line_conflict(
                text::texts(original@),
                index as int,
                expected@,
            ) == Some(error@),
        },
{
    let ghost views = text::texts(original@);
    assert(views.len() == original@.len());
    if index >= original.len() {
        let number = decimal(index as u128 + 1);
        let message = concat3("patch expects old line ", number.as_str(), ", but the file ended");
        return Err(PatchError::Conflict(message));
    }
    assert(views[index as int] == original@[index as int]@);
    let actual = original[index].as_str();
    if !same_text(actual, expected) {
        let number = decimal(index as u128 + 1);
        let mut message = concat3(
            "patch context mismatch at old line ",
            number.as_str(),
            ": expected ",
        );
        message.push_str(shown_line(expected).as_str());
        message.push_str(", found ");
        message.push_str(shown_line(actual).as_str());
        return Err(PatchError::Conflict(message));
    }
    Ok(())
}

/// Appends the lines `from..to`.
fn push_lines(
    output: &mut String,
    lines: &Vec<String>,
    from: usize,
    to: usize,
    cancellation: &mut Cancellation,
) -> (result: Result<(), PatchError>)
    requires
        from <= to <= lines@.len(),
    ensures
        match result {
            Ok(()) => cancellation::went_on(*old(cancellation), *final(cancellation))
                && final(output)@ == old(output)@ + patch_model::joined_lines(
                text::texts(lines@),
                from as int,
                to as int,
            ),
            Err(error) => error@ is Cancelled && cancellation::was_stopped(
                *old(cancellation),
                *final(cancellation),
            ),
        },
{
    let ghost views = text::texts(lines@);
    let mut index: usize = from;
    assert(output@ == old(output)@ + patch_model::joined_lines(views, from as int, from as int));
    while index < to
        invariant
            cancellation::went_on(*old(cancellation), *cancellation),
            from <= index <= to <= lines@.len(),
            views == text::texts(lines@),
            output@ == old(output)@ + patch_model::joined_lines(views, from as int, index as int),
        decreases to - index,
    {
        if (index - from) % 1024 == 0 && cancellation.requested() {
            return Err(PatchError::Cancelled);
        }
        assert(views[index as int] == lines@[index as int]@);
        output.push_str(lines[index].as_str());
        index += 1;
    }
    Ok(())
}

fn count_lines(lines: &Vec<PatchLine>) -> (counts: (usize, usize))
    ensures
        counts.0 == patch_model::old_total(line_views(lines@), lines@.len() as int),
        counts.1 == patch_model::new_total(line_views(lines@), lines@.len() as int),
{
    let ghost views = line_views(lines@);
    let mut old_seen: usize = 0;
    let mut new_seen: usize = 0;
    let mut index: usize = 0;
    while index < lines.len()
        invariant
            index <= lines@.len(),
            old_seen <= index,
            new_seen <= index,
            views == line_views(lines@),
            old_seen == patch_model::old_total(views, index as int),
            new_seen == patch_model::new_total(views, index as int),
        decreases lines@.len() - index,
    {
        assert(views[index as int] == lines@[index as int]@);
        match &lines[index] {
            PatchLine::Context(_) => {
                old_seen += 1;
                new_seen += 1;
            },
            PatchLine::Remove(_) => {
                old_seen += 1;
            },
            PatchLine::Add(_) => {
                new_seen += 1;
            },
        }
        index += 1;
    }
    (old_seen, new_seen)
}

fn apply_lines(
    original: &Vec<String>,
    lines: &Vec<PatchLine>,
    start: usize,
    output: &mut String,
    cancellation: &mut Cancellation,
) -> (result: Result<usize, PatchError>)
    requires
        start <= original@.len(),
    ensures
        ({
            let expected = patch_model::apply_lines(
                text::texts(original@),
                line_views(lines@),
                0,
                Progress { cursor: start as nat, output: old(output)@ },
            );
            match result {
                Ok(cursor) => cancellation::went_on(
                    *old(cancellation),
                    *final(cancellation),
                ) && expected == Ok::<Progress, PatchErrorView>(
                    Progress { cursor: cursor as nat, output: final(output)@ },
                ) && start <= cursor <= original@.len(),
                Err(error) => came_to(error@, expected, *old(cancellation), *final(cancellation)),
            }
        }),
{
    let ghost known = text::texts(original@);
    let ghost views = line_views(lines@);
    let ghost begun = Progress { cursor: start as nat, output: output@ };
    let ghost expected = patch_model::apply_lines(known, views, 0, begun);
    let length: usize = original.len();
    let mut cursor: usize = start;
    let mut index: usize = 0;
    while index < lines.len()
        invariant
            cancellation::went_on(*old(cancellation), *cancellation),
            index <= lines@.len(),
            start <= cursor <= original@.len() == length,
            known == text::texts(original@),
            views == line_views(lines@),
            begun == (Progress { cursor: start as nat, output: old(output)@ }),
            expected == patch_model::apply_lines(known, views, 0, begun),
            expected == patch_model::apply_lines(
                known,
                views,
                index as int,
                Progress { cursor: cursor as nat, output: output@ },
            ),
        decreases lines@.len() - index,
    {
        if cancellation.requested() {
            return Err(PatchError::Cancelled);
        }
        assert(views[index as int] == lines@[index as int]@);
        match &lines[index] {
            PatchLine::Context(line) => {
                if let Err(error) = require_original_line(original, cursor, line.as_str()) {
                    return Err(error);
                }
                output.push_str(line.as_str());
                cursor += 1;
            },
            PatchLine::Remove(line) => {
                if let Err(error) = require_original_line(original, cursor, line.as_str()) {
                    return Err(error);
                }
                cursor += 1;
            },
            PatchLine::Add(line) => {
                output.push_str(line.as_str());
            },
        }
        index += 1;
    }
    assert(views.len() == lines@.len());
    Ok(cursor)
}

fn apply_hunk(
    original: &Vec<String>,
    hunk: &Hunk,
    cursor: usize,
    output: &mut String,
    cancellation: &mut Cancellation,
) -> (result: Result<usize, PatchError>)
    requires
        cursor <= original@.len(),
    ensures
        ({
            let expected = patch_model::apply_hunk(
                text::texts(original@),
                hunk@,
                Progress { cursor: cursor as nat, output: old(output)@ },
            );
            match result {
                Ok(next) => cancellation::went_on(
                    *old(cancellation),
                    *final(cancellation),
                ) && expected == Ok::<Progress, PatchErrorView>(
                    Progress { cursor: next as nat, output: final(output)@ },
                ) && cursor <= next <= original@.len(),
                Err(error) => came_to(error@, expected, *old(cancellation), *final(cancellation)),
            }
        }),
{
    assert(text::texts(original@).len() == original@.len());
    let start: usize = if hunk.old_start == 0 {
        0
    } else {
        hunk.old_start - 1
    };
    if start < cursor || start > original.len() {
        let number = decimal(hunk.old_start as u128);
        let message = concat3(
            "hunk starting at old line ",
            number.as_str(),
            " is out of order or outside the file",
        );
        return Err(PatchError::Conflict(message));
    }
    if let Err(error) = push_lines(output, original, cursor, start, cancellation) {
        return Err(error);
    }
    let next: usize = match apply_lines(original, &hunk.lines, start, output, cancellation) {
        Ok(next) => next,
        Err(error) => {
            return Err(error);
        },
    };
    let (old_seen, new_seen) = count_lines(&hunk.lines);
    assert(line_views(hunk.lines@).len() == hunk.lines@.len());
    if old_seen != hunk.old_count || new_seen != hunk.new_count {
        return Err(invalid("parsed hunk counts do not match its header"));
    }
    Ok(next)
}

/// The text that applying `hunks` to `original` gives.
pub fn apply_hunks(original: &str, hunks: &Vec<Hunk>, cancellation: &mut Cancellation) -> (result:
    Result<String, PatchError>)
    ensures
        match result {
            Ok(updated) => cancellation::went_on(
                *old(cancellation),
                *final(cancellation),
            ) && patch_model::apply_hunks(original@, hunk_views(hunks@)) == Ok::<
                Seq<char>,
                PatchErrorView,
            >(updated@),
            Err(error) => came_to(
                error@,
                patch_model::apply_hunks(original@, hunk_views(hunks@)),
                *old(cancellation),
                *final(cancellation),
            ),
        },
        hunks@.len() > 0 ==> cancellation::has_looked(*old(cancellation), *final(cancellation)),
{
    let lines = split_inclusive_lines(original);
    let ghost known = text::texts(lines@);
    let ghost views = hunk_views(hunks@);
    assert(known.len() == lines@.len());
    let ghost begun = Progress { cursor: 0, output: Seq::empty() };
    let ghost expected = patch_model::apply_hunks_from(known, views, 0, begun);
    let mut output = String::new();
    let mut cursor: usize = 0;
    let mut index: usize = 0;
    while index < hunks.len()
        invariant
            cancellation::went_on(*old(cancellation), *cancellation),
            index > 0 ==> cancellation::has_looked(*old(cancellation), *cancellation),
            index <= hunks@.len(),
            cursor <= lines@.len(),
            known == text::texts(lines@),
            known == text::inclusive_lines(original@),
            views == hunk_views(hunks@),
            begun == (Progress { cursor: 0, output: Seq::empty() }),
            expected == patch_model::apply_hunks_from(known, views, 0, begun),
            expected == patch_model::apply_hunks_from(
                known,
                views,
                index as int,
                Progress { cursor: cursor as nat, output: output@ },
            ),
        decreases hunks@.len() - index,
    {
        if cancellation.requested() {
            return Err(PatchError::Cancelled);
        }
        assert(views[index as int] == hunks@[index as int]@);
        match apply_hunk(&lines, &hunks[index], cursor, &mut output, cancellation) {
            Err(error) => {
                return Err(error);
            },
            Ok(next) => {
                cursor = next;
            },
        }
        index += 1;
    }
    assert(views.len() == hunks@.len());
    if let Err(error) = push_lines(&mut output, &lines, cursor, lines.len(), cancellation) {
        return Err(error);
    }
    Ok(output)
}

fn recovery_state(recovery: &PublishedRecovery) -> (text: &'static str)
    ensures
        text@ == patch_model::recovery_state(recovery@),
{
    match recovery {
        PublishedRecovery::LocatedVerified(_) => {
            "located_verified"
        },
        PublishedRecovery::LocatedContentUnverified(_) => {
            "located_content_unverified"
        },
        PublishedRecovery::LocatedPolicyUnverified(_) => {
            "located_policy_unverified"
        },
        PublishedRecovery::LocatedContentAndPolicyUnverified(_) => {
            "located_content_and_policy_unverified"
        },
        PublishedRecovery::Unlocated => {
            "unlocated"
        },
        PublishedRecovery::NotApplicableNewFile => {
            "not_applicable_new_file"
        },
    }
}

fn recovery_policy(recovery: &PublishedRecovery) -> (text: &'static str)
    ensures
        text@ == patch_model::recovery_policy(recovery@),
{
    match recovery {
        PublishedRecovery::LocatedVerified(_) => {
            "verified_search_and_git_ignored"
        },
        PublishedRecovery::LocatedContentUnverified(_) => {
            "verified_search_and_git_ignored"
        },
        PublishedRecovery::LocatedPolicyUnverified(_) => {
            "unverified"
        },
        PublishedRecovery::LocatedContentAndPolicyUnverified(_) => {
            "unverified"
        },
        PublishedRecovery::Unlocated => {
            "unverified"
        },
        PublishedRecovery::NotApplicableNewFile => {
            "not_applicable"
        },
    }
}

fn published_state(recovery: &PublishedRecovery) -> (text: &'static str)
    ensures
        text@ == patch_model::published_state(recovery@),
{
    match recovery {
        PublishedRecovery::LocatedVerified(_) => {
            "published_with_recovery"
        },
        PublishedRecovery::LocatedContentUnverified(_) => {
            "published_recovery_candidate"
        },
        PublishedRecovery::LocatedPolicyUnverified(_) => {
            "published_with_recovery"
        },
        PublishedRecovery::LocatedContentAndPolicyUnverified(_) => {
            "published_recovery_candidate"
        },
        PublishedRecovery::Unlocated => {
            "published_recovery_unlocated"
        },
        PublishedRecovery::NotApplicableNewFile => {
            "published_without_recovery"
        },
    }
}

fn preserved_code(recovery: &PublishedRecovery) -> (text: &'static str)
    ensures
        text@ == patch_model::preserved_code(recovery@),
{
    match recovery {
        PublishedRecovery::LocatedVerified(_) => {
            "patch_not_published_with_recovery"
        },
        PublishedRecovery::LocatedContentUnverified(_) => {
            "patch_not_published_with_recovery_candidate"
        },
        PublishedRecovery::LocatedPolicyUnverified(_) => {
            "patch_not_published_with_recovery"
        },
        PublishedRecovery::LocatedContentAndPolicyUnverified(_) => {
            "patch_not_published_with_recovery_candidate"
        },
        PublishedRecovery::Unlocated => {
            "patch_not_published_recovery_unlocated"
        },
        PublishedRecovery::NotApplicableNewFile => {
            "patch_not_published_without_recovery"
        },
    }
}

fn published_code(recovery: &PublishedRecovery) -> (text: &'static str)
    ensures
        text@ == patch_model::published_code(recovery@),
{
    match recovery {
        PublishedRecovery::LocatedVerified(_) => {
            "patch_published_with_recovery"
        },
        PublishedRecovery::LocatedContentUnverified(_) => {
            "patch_published_with_recovery_candidate"
        },
        PublishedRecovery::LocatedPolicyUnverified(_) => {
            "patch_published_with_recovery"
        },
        PublishedRecovery::LocatedContentAndPolicyUnverified(_) => {
            "patch_published_with_recovery_candidate"
        },
        PublishedRecovery::Unlocated => {
            "patch_published_recovery_unlocated"
        },
        PublishedRecovery::NotApplicableNewFile => {
            "patch_published_without_recovery"
        },
    }
}

/// A list of one text.
fn one_text(text: String) -> (texts: Vec<String>)
    ensures
        text::texts(texts@) == seq![text@],
{
    let mut texts: Vec<String> = Vec::new();
    texts.push(text);
    assert(text::texts(texts@) == seq![text@]);
    texts
}

/// A list of no texts.
fn no_texts() -> (texts: Vec<String>)
    ensures
        text::texts(texts@) == Seq::<Seq<char>>::empty(),
{
    let texts: Vec<String> = Vec::new();
    assert(text::texts(texts@) == Seq::<Seq<char>>::empty());
    texts
}

fn recovery_files(recovery: &PublishedRecovery) -> (files: Vec<String>)
    ensures
        text::texts(files@) == patch_model::recovery_files(recovery@),
{
    match recovery {
        PublishedRecovery::LocatedVerified(path) => one_text(display_relative_path(path.as_str())),
        PublishedRecovery::LocatedPolicyUnverified(path) => one_text(
            display_relative_path(path.as_str()),
        ),
        _ => no_texts(),
    }
}

fn recovery_candidates(recovery: &PublishedRecovery) -> (files: Vec<String>)
    ensures
        text::texts(files@) == patch_model::recovery_candidates(recovery@),
{
    match recovery {
        PublishedRecovery::LocatedContentUnverified(path) => one_text(
            display_relative_path(path.as_str()),
        ),
        PublishedRecovery::LocatedContentAndPolicyUnverified(path) => one_text(
            display_relative_path(path.as_str()),
        ),
        _ => no_texts(),
    }
}

fn publication_fields(state: &str, changed: Vec<String>, recovery: &PublishedRecovery) -> (fields:
    Vec<tool::Field>)
    ensures
        tool::field_views(fields@) == patch_model::publication_fields(
            state@,
            text::texts(changed@),
            recovery@,
        ),
{
    let mut fields = no_fields();
    push_field(&mut fields, "publication_state", FieldValue::Text(state.to_owned()));
    push_field(&mut fields, "changed_files", FieldValue::Texts(changed));
    push_field(&mut fields, "recovery_files", FieldValue::Texts(recovery_files(recovery)));
    push_field(
        &mut fields,
        "recovery_candidates",
        FieldValue::Texts(recovery_candidates(recovery)),
    );
    push_field(
        &mut fields,
        "recovery_state",
        FieldValue::Text(recovery_state(recovery).to_owned()),
    );
    push_field(
        &mut fields,
        "recovery_policy",
        FieldValue::Text(recovery_policy(recovery).to_owned()),
    );
    assert(tool::field_views(fields@) =~= patch_model::publication_fields(
        state@,
        text::texts(changed@),
        recovery@,
    ));
    fields
}

impl PatchError {
    /// The code of the tool failure that reports the error.
    pub fn code(&self) -> (code: &'static str)
        ensures
            code@ == self@.code(),
    {
        match self {
            PatchError::InvalidPatch(_) => "invalid_patch",
            PatchError::Limit(_) => "patch_too_large",
            PatchError::Conflict(_) => "patch_conflict",
            PatchError::Workspace(error) => error.code(),
            PatchError::Io { source, .. } => if source.kind == ErrorKind::Unsupported {
                "unsupported_file_metadata"
            } else if source.kind == ErrorKind::WouldBlock || source.kind
                == ErrorKind::InvalidInput {
                "patch_conflict"
            } else {
                "workspace_io_error"
            },
            PatchError::Preserved { recovery, .. } => preserved_code(recovery),
            PatchError::Published { recovery, .. } => published_code(recovery),
            PatchError::Cancelled => "tool_cancelled",
        }
    }

    /// Whether the same patch may succeed when it is tried again.
    pub fn retryable(&self) -> (result: bool)
        ensures
            result == self@.retryable(),
    {
        match self {
            PatchError::Workspace(error) => error.retryable(),
            PatchError::Io { source, .. } => source.is_interrupted(),
            _ => false,
        }
    }

    /// The error in words.
    pub fn message(&self) -> (message: String)
        ensures
            message@ == self@.message(),
    {
        match self {
            PatchError::InvalidPatch(message) => concat2("invalid patch: ", message.as_str()),
            PatchError::Limit(message) => concat2("patch limit exceeded: ", message.as_str()),
            PatchError::Conflict(message) => concat2("patch conflict: ", message.as_str()),
            PatchError::Workspace(error) => error.message(),
            PatchError::Io { path, source } => {
                let mut message = concat3("failed to update '", path.as_str(), "': ");
                message.push_str(source.message.as_str());
                message
            },
            PatchError::Preserved { target, source, .. } => {
                let mut message = concat3(
                    "patch was not published at '",
                    target.as_str(),
                    "', and staged data was preserved: ",
                );
                message.push_str(source.message.as_str());
                message
            },
            PatchError::Published { target, source, .. } => {
                let mut message = concat3(
                    "patch was published at '",
                    target.as_str(),
                    "', but commit validation failed: ",
                );
                message.push_str(source.message.as_str());
                message
            },
            PatchError::Cancelled => "apply_patch was cancelled".to_owned(),
        }
    }

    /// The tool output that reports the error.
    pub fn into_output(self) -> (output: ToolOutput)
        ensures
            output@ == self@.output(),
    {
        match self {
            PatchError::Preserved { target, recovery, source } => {
                let shown = display_relative_path(target.as_str());
                let mut message = concat3(
                    "patch was not published at '",
                    shown.as_str(),
                    "', and recovery evidence was recorded: ",
                );
                message.push_str(source.message.as_str());
                let (message, _) = truncate_json_string(message.as_str(), 8192);
                ToolOutput::Failure {
                    error: ToolError {
                        code: preserved_code(&recovery).to_owned(),
                        message,
                        retryable: false,
                    },
                    extensions: publication_fields("not_published", no_texts(), &recovery),
                }
            },
            PatchError::Published { target, recovery, source } => {
                let shown = display_relative_path(target.as_str());
                let mut message = concat3(
                    "patch was published at '",
                    shown.as_str(),
                    "', but commit validation failed: ",
                );
                message.push_str(source.message.as_str());
                let (message, _) = truncate_json_string(message.as_str(), 8192);
                ToolOutput::Failure {
                    error: ToolError {
                        code: published_code(&recovery).to_owned(),
                        message,
                        retryable: false,
                    },
                    extensions: publication_fields(
                        published_state(&recovery),
                        one_text(shown),
                        &recovery,
                    ),
                }
            },
            error => failure(error.code(), error.message().as_str(), error.retryable()),
        }
    }
}

/// The error for a target of too many bytes.
fn target_too_long(path: &str) -> (error: PatchError)
    ensures
        error@ == patch_model::target_too_long(path@),
{
    PatchError::Limit(concat3("patch target '", path, "' exceeds 33554432 bytes"))
}

fn target_too_many_lines(path: &str) -> (error: PatchError)
    ensures
        error@ == patch_model::target_too_many_lines(path@),
{
    PatchError::Limit(concat3("patch target '", path, "' exceeds 1000000 lines"))
}

/// Refuses a target whose length is over the limit before it is read.
pub fn check_target_length(path: &str, length: u64) -> (result: Result<(), PatchError>)
    ensures
        match result {
            Ok(()) => length <= MAX_PATCH_FILE_BYTES,
            Err(error) => length > MAX_PATCH_FILE_BYTES && error@ == patch_model::target_too_long(
                path@,
            ),
        },
{
    if length > 33554432 {
        return Err(target_too_long(path));
    }
    Ok(())
}

/// The part of a patch target that has been read.
pub struct PatchTarget {
    path: String,
    bytes: Vec<u8>,
    newline_count: usize,
}

proof fn lemma_newlines_of_concat(left: Seq<u8>, right: Seq<u8>)
    ensures
        patch_model::newlines(left + right) == patch_model::newlines(left) + patch_model::newlines(
            right,
        ),
    decreases right.len(),
{
    if right.len() == 0 {
        assert(left + right == left);
    } else {
        lemma_newlines_of_concat(left, right.drop_last());
        assert((left + right).drop_last() == left + right.drop_last());
    }
}

fn count_newlines(bytes: &[u8]) -> (count: usize)
    ensures
        count == patch_model::newlines(bytes@),
        count <= bytes@.len(),
{
    let mut count: usize = 0;
    let mut index: usize = 0;
    while index < bytes.len()
        invariant
            index <= bytes@.len(),
            count <= index,
            count == patch_model::newlines(bytes@.take(index as int)),
        decreases bytes@.len() - index,
    {
        assert(bytes@.take(index + 1).drop_last() == bytes@.take(index as int));
        if bytes[index] == 10 {
            count += 1;
        }
        index += 1;
    }
    assert(bytes@.take(bytes@.len() as int) == bytes@);
    count
}

impl PatchTarget {
    /// The bytes read so far.
    pub closed spec fn content(self) -> Seq<u8> {
        self.bytes@
    }

    /// The path of the target.
    pub closed spec fn target(self) -> Seq<char> {
        self.path@
    }

    /// The count of lines is right, and both limits are kept.
    pub closed spec fn well_formed(self) -> bool {
        &&& self.newline_count == patch_model::newlines(self.bytes@)
        &&& self.bytes@.len() <= MAX_PATCH_FILE_BYTES
        &&& self.newline_count <= MAX_PATCH_FILE_LINES
    }

    /// A target before its first chunk.
    pub fn new(path: &str) -> (target: PatchTarget)
        ensures
            target.well_formed(),
            target.content() == Seq::<u8>::empty(),
            target.target() == path@,
    {
        PatchTarget { path: path.to_owned(), bytes: Vec::new(), newline_count: 0 }
    }

    /// Takes one more chunk.
    pub fn feed(&mut self, chunk: &[u8]) -> (result: Result<(), PatchError>)
        requires
            old(self).well_formed(),
        ensures
            final(self).target() == old(self).target(),
            final(self).well_formed(),
            match result {
                Ok(()) => patch_model::chunk_error(
                    old(self).target(),
                    old(self).content(),
                    chunk@,
                ) is None && final(self).content() == old(self).content() + chunk@,
                Err(error) => patch_model::chunk_error(
                    old(self).target(),
                    old(self).content(),
                    chunk@,
                ) == Some(error@) && final(self).content() == old(self).content(),
            },
    {
        if chunk.len() > MAX_PATCH_FILE_BYTES - self.bytes.len() {
            return Err(target_too_long(self.path.as_str()));
        }
        let added: usize = count_newlines(chunk);
        proof {
            lemma_newlines_of_concat(self.bytes@, chunk@);
        }
        if added > MAX_PATCH_FILE_LINES - self.newline_count {
            return Err(target_too_many_lines(self.path.as_str()));
        }
        self.newline_count = self.newline_count + added;
        self.bytes.extend_from_slice(chunk);
        assert(self.bytes@ =~= old(self).bytes@ + chunk@);
        Ok(())
    }

    /// The text of the whole target.
    pub fn finish(self) -> (result: Result<String, PatchError>)
        requires
            self.well_formed(),
        ensures
            match result {
                Ok(text) => patch_model::target_text(self.target(), self.content()) == Ok::<
                    Seq<char>,
                    PatchErrorView,
                >(text@),
                Err(error) => patch_model::target_text(self.target(), self.content()) == Err::<
                    Seq<char>,
                    PatchErrorView,
                >(error@),
            },
    {
        let length: usize = self.bytes.len();
        let open_line = length > 0 && self.bytes[length - 1] != 10;
        if open_line && self.newline_count == MAX_PATCH_FILE_LINES {
            return Err(target_too_many_lines(self.path.as_str()));
        }
        match check_utf8(self.bytes.as_slice()) {
            Utf8Check::Valid(text) => Ok(text),
            Utf8Check::Incomplete { valid_up_to: _, message } => Err(
                PatchError::Io {
                    path: self.path,
                    source: IoFailure::new(ErrorKind::InvalidData, message.as_str()),
                },
            ),
            Utf8Check::Invalid { valid_up_to: _, message } => Err(
                PatchError::Io {
                    path: self.path,
                    source: IoFailure::new(ErrorKind::InvalidData, message.as_str()),
                },
            ),
        }
    }
}

/// What a patch that was published did.
#[derive(Debug, PartialEq, Eq)]
pub struct PatchResult {
    pub changed_files: Vec<String>,
    pub recovery_files: Vec<String>,
}

impl View for PatchResult {
    type V = PatchResultView;

    open spec fn view(&self) -> PatchResultView {
        PatchResultView {
            changed_files: text::texts(self.changed_files@),
            recovery_files: text::texts(self.recovery_files@),
        }
    }
}

/// How a publication ended.
#[derive(Debug, PartialEq, Eq)]
pub enum Publication {
    /// The new content is visible; the old one may have been kept.
    Done { recovery: Option<String> },
    /// It failed before the new content was visible.
    BeforePublication { source: IoFailure, recovery: Option<PublishedRecovery> },
    /// It failed after the new content was visible.
    Published { source: IoFailure, target: String, recovery: PublishedRecovery },
}

impl View for Publication {
    type V = PublicationView;

    open spec fn view(&self) -> PublicationView {
        match self {
            Publication::Done { recovery } => PublicationView::Done {
                recovery: optional_text(*recovery),
            },
            Publication::BeforePublication { source, recovery } => {
                PublicationView::BeforePublication {
                    source: source@,
                    recovery: match recovery {
                        Some(kept) => Some(kept@),
                        None => None,
                    },
                }
            },
            Publication::Published { source, target, recovery } => PublicationView::Published {
                source: source@,
                target: target@,
                recovery: recovery@,
            },
        }
    }
}

/// Where the run of a patch stands, and so what it waits for.
#[derive(Debug, PartialEq, Eq)]
pub enum PatchRun {
    /// The target is to be looked up for writing.
    Resolving { file: FilePatch, path: String },
    /// The target that exists is to be read.
    Reading { file: FilePatch, path: String },
    /// The new content is known. Before it is published, a last look is to be
    /// taken for a request to stop.
    Polling { path: String, content: String, replaces: bool },
    /// The new content is to be published.
    Publishing { path: String, content: String, replaces: bool },
    /// The run is over.
    Finished(Result<PatchResult, PatchError>),
}

impl View for PatchRun {
    type V = RunView;

    open spec fn view(&self) -> RunView {
        match self {
            PatchRun::Resolving { file, path } => RunView::Resolving { file: file@, path: path@ },
            PatchRun::Reading { file, path } => RunView::Reading { file: file@, path: path@ },
            PatchRun::Polling { path, content, replaces } => RunView::Polling {
                path: path@,
                content: content@,
                replaces: *replaces,
            },
            PatchRun::Publishing { path, content, replaces } => RunView::Publishing {
                path: path@,
                content: content@,
                replaces: *replaces,
            },
            PatchRun::Finished(Ok(result)) => RunView::Finished(Ok(result@)),
            PatchRun::Finished(Err(error)) => RunView::Finished(Err(error@)),
        }
    }
}

/// What the outside says to a run.
#[derive(Debug, PartialEq, Eq)]
pub enum PatchEvent {
    /// The target was looked up.
    Resolved(Result<ResolvedWorkspacePath, WorkspacePathError>),
    /// The target was read.
    Read(Result<String, PatchError>),
    /// The last look before the publication was taken, and said this.
    Cancellation(bool),
    /// The publication ended.
    Published(Publication),
}

impl View for PatchEvent {
    type V = EventView;

    open spec fn view(&self) -> EventView {
        match self {
            PatchEvent::Resolved(Ok(resolved)) => EventView::Resolved(
                Ok((resolved.relative_path@, resolved.existed)),
            ),
            PatchEvent::Resolved(Err(error)) => EventView::Resolved(Err(error@)),
            PatchEvent::Read(Ok(content)) => EventView::Read(Ok(content@)),
            PatchEvent::Read(Err(error)) => EventView::Read(Err(error@)),
            PatchEvent::Cancellation(requested) => EventView::Cancellation(*requested),
            PatchEvent::Published(publication) => EventView::Published(publication@),
        }
    }
}

/// Begins to apply a patch, up to the lookup of its target.
pub fn apply_unified_patch(patch: &str, cancellation: &mut Cancellation) -> (run: PatchRun)
    ensures
        run@ == patch_model::begin(
            patch@,
            cancellation::was_stopped(*old(cancellation), *final(cancellation)),
        ),
        cancellation::went_on(*old(cancellation), *final(cancellation))
            || cancellation::was_stopped(*old(cancellation), *final(cancellation)),
        patch@.len() == 0 ==> final(cancellation).looks() == old(cancellation).looks(),
        patch@.len() > 0 ==> cancellation::has_looked(*old(cancellation), *final(cancellation)),
        run is Resolving ==> run.hunk_count() > 0,
{
    let mut files = match parse_patch(patch, cancellation) {
        Ok(files) => files,
        Err(error) => {
            return PatchRun::Finished(Err(error));
        },
    };
    let ghost views = file_views(files@);
    assert(views.len() == files@.len());
    if files.len() != 1 {
        return PatchRun::Finished(
            Err(invalid("the minimal patch tool accepts exactly one file patch")),
        );
    }
    if cancellation.requested() {
        return PatchRun::Finished(Err(PatchError::Cancelled));
    }
    assert(views[0] == files@[0]@);
    proof {
        patch_laws::law_read_hunks_are_complete(patch@);
        assert(views[0].hunks.len() == files@[0].hunks@.len());
    }
    let file = files.swap_remove(0);
    match file.target_path() {
        Err(error) => PatchRun::Finished(Err(error)),
        Ok(path) => PatchRun::Resolving { file, path },
    }
}

fn prepare(
    file: FilePatch,
    path: String,
    original: Option<&str>,
    cancellation: &mut Cancellation,
) -> (run: PatchRun)
    ensures
        run@ == patch_model::prepared(
            file@,
            path@,
            optional_str(original),
            cancellation::was_stopped(*old(cancellation), *final(cancellation)),
        ),
        cancellation::went_on(*old(cancellation), *final(cancellation))
            || cancellation::was_stopped(*old(cancellation), *final(cancellation)),
        patch_model::refusal(file@, optional_str(original)) is Some
            ==> final(cancellation).looks() == old(cancellation).looks(),
        patch_model::refusal(file@, optional_str(original)) is None && file.hunks@.len() > 0
            ==> cancellation::has_looked(*old(cancellation), *final(cancellation)),
{
    let replaces = original.is_some();
    match file.prepare_change(original, cancellation) {
        Ok(content) => PatchRun::Polling { path, content, replaces },
        Err(error) => PatchRun::Finished(Err(error)),
    }
}

/// Takes a last look before the publication.
fn poll(path: String, content: String, replaces: bool, requested: bool) -> (run: PatchRun)
    ensures
        run@ == patch_model::polled(path@, content@, replaces, requested),
{
    if requested {
        return PatchRun::Finished(Err(PatchError::Cancelled));
    }
    if byte_len(content.as_str()) > MAX_PATCH_FILE_BYTES {
        let message = concat3("patch result '", path.as_str(), "' exceeds 33554432 bytes");
        return PatchRun::Finished(Err(PatchError::Limit(message)));
    }
    PatchRun::Publishing { path, content, replaces }
}

fn publication_result(path: &str, publication: Publication) -> (result: Result<
    PatchResult,
    PatchError,
>)
    ensures
        match result {
            Ok(done) => patch_model::publication_result(path@, publication@) == Ok::<
                PatchResultView,
                PatchErrorView,
            >(done@),
            Err(error) => patch_model::publication_result(path@, publication@) == Err::<
                PatchResultView,
                PatchErrorView,
            >(error@),
        },
{
    match publication {
        Publication::Done { recovery } => {
            let recovery_files = match recovery {
                Some(kept) => one_text(display_relative_path(kept.as_str())),
                None => no_texts(),
            };
            Ok(
                PatchResult {
                    changed_files: one_text(display_relative_path(path)),
                    recovery_files,
                },
            )
        },
        Publication::BeforePublication { source, recovery: Some(recovery) } => Err(
            PatchError::Preserved { target: path.to_owned(), recovery, source },
        ),
        Publication::BeforePublication { source, recovery: None } => Err(
            PatchError::Io { path: path.to_owned(), source },
        ),
        Publication::Published { source, target, recovery } => Err(
            PatchError::Published { target, recovery, source },
        ),
    }
}

impl PatchRun {
    /// How many hunks the patch of the run still holds.
    pub open spec fn hunk_count(self) -> nat {
        match self {
            PatchRun::Resolving { file, .. } => file.hunks@.len(),
            PatchRun::Reading { file, .. } => file.hunks@.len(),
            _ => 0,
        }
    }

    /// Moves the run on by an event. It looks for a request to stop only while it
    /// makes the new content of the target, so never once the content may have
    /// been published.
    pub fn advance(self, event: PatchEvent, cancellation: &mut Cancellation) -> (run: PatchRun)
        ensures
            run@ == patch_model::advance(
                self@,
                event@,
                cancellation::was_stopped(*old(cancellation), *final(cancellation)),
            ),
            cancellation::went_on(*old(cancellation), *final(cancellation))
                || cancellation::was_stopped(*old(cancellation), *final(cancellation)),
            !patch_model::prepares(self@, event@) ==> final(cancellation).looks() == old(
                cancellation,
            ).looks(),
            patch_model::prepares(self@, event@) && self.hunk_count() > 0
                ==> cancellation::has_looked(*old(cancellation), *final(cancellation)),
            run is Reading ==> run.hunk_count() == self.hunk_count(),
    {
        match (self, event) {
            (PatchRun::Resolving { .. }, PatchEvent::Resolved(Err(error))) => {
                PatchRun::Finished(Err(PatchError::Workspace(error)))
            },
            (PatchRun::Resolving { file, .. }, PatchEvent::Resolved(Ok(resolved))) => {
                if resolved.existed {
                    PatchRun::Reading { file, path: resolved.relative_path }
                } else {
                    prepare(file, resolved.relative_path, None, cancellation)
                }
            },
            (PatchRun::Reading { .. }, PatchEvent::Read(Err(error))) => PatchRun::Finished(
                Err(error),
            ),
            (PatchRun::Reading { file, path }, PatchEvent::Read(Ok(content))) => prepare(
                file,
                path,
                Some(content.as_str()),
                cancellation,
            ),
            (
                PatchRun::Polling { path, content, replaces },
                PatchEvent::Cancellation(requested),
            ) => poll(path, content, replaces, requested),
            (PatchRun::Publishing { path, .. }, PatchEvent::Published(publication)) => {
                PatchRun::Finished(publication_result(path.as_str(), publication))
            },
            (run, _) => run,
        }
    }
}

/// The patch that the members of an arguments object hold.
pub open spec fn patch_argument(members: Option<Seq<(Seq<char>, Option<Seq<char>>)>>) -> Result<
    Seq<char>,
    OutputView,
> {
    match tool_support::refused_arguments(members, seq!["patch"@]) {
        Some(output) => Err(output),
        None => match tool_support::required_text(members->Some_0, "patch"@) {
            Err(output) => Err(output),
            Ok(patch) => if vstd::utf8::encode_utf8(patch).len() > MAX_PATCH_BYTES {
                Err(
                    tool_support::failure_view(
                        "patch_too_large"@,
                        "patch exceeds 4194304 bytes"@,
                        false,
                    ),
                )
            } else {
                Ok(patch)
            },
        },
    }
}

/// The patch that the arguments of a call hold, read from their JSON text.
pub fn parse_patch_arguments(arguments: &str) -> (result: Result<String, ToolOutput>)
    ensures
        match result {
            Ok(patch) => patch_argument(tool_support::json_object_members(arguments@)) == Ok::<
                Seq<char>,
                OutputView,
            >(patch@),
            Err(output) => patch_argument(tool_support::json_object_members(arguments@)) == Err::<
                Seq<char>,
                OutputView,
            >(output@),
        },
{
    let members = object_members(arguments);
    patch_from_members(members)
}

/// The patch that the members of an arguments object hold.
pub fn patch_from_members(members: Option<Members>) -> (result: Result<String, ToolOutput>)
    ensures
        match result {
            Ok(patch) => patch_argument(tool_support::optional_member_views(members)) == Ok::<
                Seq<char>,
                OutputView,
            >(patch@),
            Err(output) => patch_argument(tool_support::optional_member_views(members)) == Err::<
                Seq<char>,
                OutputView,
            >(output@),
        },
{
    let allowed: [&str; 1] = ["patch"];
    assert(tool_support::name_views(allowed@) =~= seq!["patch"@]);
    let arguments = match ToolArguments::from_members(members, &allowed) {
        Ok(arguments) => arguments,
        Err(output) => {
            return Err(output);
        },
    };
    let patch = match arguments.required_string("patch") {
        Ok(patch) => patch,
        Err(output) => {
            return Err(output);
        },
    };
    if byte_len(patch.as_str()) > MAX_PATCH_BYTES {
        return Err(failure("patch_too_large", "patch exceeds 4194304 bytes", false));
    }
    Ok(patch)
}

/// The output of a patch that was published, before its length is bounded.
pub open spec fn success(result: PatchResultView, workspace: WorkspaceView) -> OutputView {
    OutputView::Success {
        content: seq![
            ContentView::Json(
                seq![
                    ("changed_files"@, FieldValueView::Texts(result.changed_files)),
                    ("recovery_files"@, FieldValueView::Texts(result.recovery_files)),
                ],
            ),
        ],
        metadata: seq![
            ("files_changed"@, FieldValueView::Number(result.changed_files.len() as u64)),
            ("recovery_files"@, FieldValueView::Number(result.recovery_files.len() as u64)),
            (
                "recovery_policy"@,
                FieldValueView::Text("ignored_by_search_and_git_until_caller_removes"@),
            ),
            ("workspace"@, FieldValueView::Workspace(workspace.metadata())),
        ],
        extensions: Seq::empty(),
    }
}

/// The output of a patch that was published.
pub fn patch_success(result: PatchResult, workspace: &WorkspaceContext) -> (output: ToolOutput)
    ensures
        output@ == output_size::finalized(success(result@, workspace@)),
{
    let ghost done = result@;
    assert(text::texts(result.changed_files@).len() == result.changed_files@.len());
    assert(text::texts(result.recovery_files@).len() == result.recovery_files@.len());
    let mut metadata = no_fields();
    push_field(
        &mut metadata,
        "files_changed",
        FieldValue::Number(result.changed_files.len() as u64),
    );
    push_field(
        &mut metadata,
        "recovery_files",
        FieldValue::Number(result.recovery_files.len() as u64),
    );
    push_field(
        &mut metadata,
        "recovery_policy",
        FieldValue::Text("ignored_by_search_and_git_until_caller_removes".to_owned()),
    );
    push_field(&mut metadata, "workspace", FieldValue::Workspace(workspace.metadata()));
    let mut fields = no_fields();
    push_field(&mut fields, "changed_files", FieldValue::Texts(result.changed_files));
    push_field(&mut fields, "recovery_files", FieldValue::Texts(result.recovery_files));
    let ghost expected = success(done, workspace@);
    assert(tool::field_views(fields@) =~= expected->Success_content[0]->Json_0);
    assert(tool::field_views(metadata@) =~= expected->Success_metadata);
    finalize_output(
        ToolOutput::Success {
            content: one_content(ToolContent::Json { fields }),
            metadata,
            extensions: no_fields(),
        },
    )
}

} // verus!
