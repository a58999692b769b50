//! Searching the files of the workspace for a literal text.

use crate::literal_pattern::LiteralPattern;
use crate::output_size;
use crate::output_size::finalize_output;
use crate::search_line::LineState;
use crate::search_model;
use crate::search_model::{
    ResultsView, ScanView, MAX_SEARCH_MATCHES, MAX_SEARCH_PATH_BYTES,
    MAX_SEARCH_QUERY_BYTES,
};
use crate::io_failure::{ErrorKind, IoFailure};
use crate::text::{byte_len, concat3, strip_return};
use crate::tool;
use crate::tool::{
    no_fields, one_content, push_field, ContentView, FieldValue, FieldValueView, MatchView,
    OutputView, SearchMatch, ToolContent, ToolOutput,
};
use crate::tool_support;
use crate::tool_support::{
    failure, object_members, truncate_json_string, Members, ToolArguments,
    MAX_METADATA_TEXT_SERIALIZED_BYTES, MAX_TOOL_CONTENT_SERIALIZED_BYTES,
};
use crate::utf8;
use crate::utf8::{check_utf8, Utf8Check, Utf8Stream};
use crate::workspace::{WorkspaceContext, WorkspaceView};
use vstd::prelude::*;
use vstd::slice::slice_subrange;

verus! {

/// The length of a match as a JSON object, written with `serde_json::to_vec`:
/// three members, the texts escaped as JSON strings and the number in decimal.
#[verifier::external_body]
fn match_json_len(path: &str, line: u64, text: &str) -> (length: usize)
    ensures
        length == search_model::match_json_len(MatchView { path: path@, line, text: text@ }),
{
    let mut object = serde_json::Map::new();
    object.insert(String::from("path"), serde_json::Value::from(path));
    object.insert(String::from("line"), serde_json::Value::from(line));
    object.insert(String::from("text"), serde_json::Value::from(text));
    serde_json::to_vec(&object).expect("search match JSON serializes").len()
}

fn visible_utf8_prefix(bytes: &[u8]) -> (text: Option<String>)
    ensures
        match text {
            Some(found) => search_model::visible_text(bytes@) == Some(found@),
            None => search_model::visible_text(bytes@) is None,
        },
{
    match check_utf8(bytes) {
        Utf8Check::Valid(text) => Some(text),
        Utf8Check::Incomplete { valid_up_to, message: _ } => {
            let prefix = slice_subrange(bytes, 0, valid_up_to);
            proof {
                utf8::lemma_longest_valid_prefix_unique(
                    bytes@,
                    valid_up_to as int,
                    search_model::valid_prefix_len(bytes@),
                );
                assert(prefix@ == bytes@.take(valid_up_to as int));
            }
            match check_utf8(prefix) {
                Utf8Check::Valid(text) => Some(text),
                _ => None,
            }
        },
        Utf8Check::Invalid { valid_up_to: _, message: _ } => None,
    }
}

/// What a search has found.
pub struct SearchResults {
    matches: Vec<SearchMatch>,
    serialized_bytes: usize,
    bytes_searched: u64,
    binary_files_skipped: u64,
    lines_truncated: u64,
    truncated: bool,
    limit_reached: bool,
}

impl View for SearchResults {
    type V = ResultsView;

    closed spec fn view(&self) -> ResultsView {
        ResultsView {
            matches: tool::match_views(self.matches@),
            serialized_bytes: self.serialized_bytes as nat,
            bytes_searched: self.bytes_searched,
            binary_files_skipped: self.binary_files_skipped,
            lines_truncated: self.lines_truncated,
            truncated: self.truncated,
            limit_reached: self.limit_reached,
        }
    }
}

fn successor(number: u64) -> (next: u64)
    ensures
        next == search_model::successor(number),
{
    if number < u64::MAX {
        number + 1
    } else {
        number
    }
}

impl SearchResults {
    /// The serialized matches are within their limit.
    pub closed spec fn well_formed(self) -> bool {
        self.serialized_bytes <= MAX_TOOL_CONTENT_SERIALIZED_BYTES
    }

    /// A search before its first file.
    pub fn new() -> (results: SearchResults)
        ensures
            results.well_formed(),
            results@ == ResultsView::initial(),
    {
        let results = SearchResults {
            matches: Vec::new(),
            serialized_bytes: 0,
            bytes_searched: 0,
            binary_files_skipped: 0,
            lines_truncated: 0,
            truncated: false,
            limit_reached: false,
        };
        assert(tool::match_views(results.matches@) =~= Seq::<MatchView>::empty());
        results
    }

    /// Whether the search is over for want of room.
    pub fn limit_reached(&self) -> (result: bool)
        ensures
            result == self@.limit_reached,
    {
        self.limit_reached
    }

    fn push_match(&mut self, found: SearchMatch)
        requires
            old(self).well_formed(),
        ensures
            final(self).well_formed(),
            final(self)@ == old(self)@.with_match(found@),
    {
        assert(tool::match_views(self.matches@).len() == self.matches@.len());
        let length: usize = match_json_len(found.path.as_str(), found.line, found.text.as_str());
        if self.matches.len() >= MAX_SEARCH_MATCHES || length > MAX_TOOL_CONTENT_SERIALIZED_BYTES
            - self.serialized_bytes {
            self.truncated = true;
            self.limit_reached = true;
        } else {
            self.serialized_bytes = self.serialized_bytes + length;
            self.matches.push(found);
            assert(tool::match_views(self.matches@) =~= tool::match_views(
                old(self).matches@,
            ).push(found@));
        }
    }
}

/// Adds what a whole line holds.
fn finish_line(
    results: &mut SearchResults,
    path: &str,
    number: u64,
    line: &LineState,
)
    requires
        old(results).well_formed(),
        line.well_formed(),
    ensures
        final(results).well_formed(),
        final(results)@ == old(results)@.with_line(line.needle(), path@, number, line.line()),
{
    if results.limit_reached || !line.matched() {
        return;
    }
    if let Some(shown) = visible_utf8_prefix(line.visible()) {
        if line.truncated() {
            results.lines_truncated = successor(results.lines_truncated);
            results.truncated = true;
        }
        results.push_match(
            SearchMatch {
                path: path.to_owned(),
                line: number,
                text: strip_return(shown.as_str()),
            },
        );
    }
}

/// A file that is being searched. Its matches count only once all of it has
/// turned out to be UTF-8.
pub struct FileSearch<'a> {
    pattern: &'a LiteralPattern,
    content: Ghost<Seq<u8>>,
    before: Ghost<ResultsView>,
    path: String,
    results: SearchResults,
    kept_matches: usize,
    kept_serialized_bytes: usize,
    kept_lines_truncated: u64,
    kept_truncated: bool,
    kept_limit_reached: bool,
    bytes_searched: u64,
    line: LineState,
    line_number: u64,
    encoding: Utf8Stream,
}

impl<'a> FileSearch<'a> {
    /// The text that is looked for.
    pub closed spec fn needle(self) -> Seq<u8> {
        self.pattern.needle()
    }

    /// The bytes of the file so far.
    pub closed spec fn content(self) -> Seq<u8> {
        self.content@
    }

    /// The path under which matches are shown.
    pub closed spec fn shown_path(self) -> Seq<char> {
        self.path@
    }

    /// The results before the file.
    pub closed spec fn before(self) -> ResultsView {
        self.before@
    }

    pub closed spec fn well_formed(self) -> bool {
        let before = self.before@;
        &&& self.pattern.well_formed()
        &&& self.results.well_formed()
        &&& self.line.well_formed()
        &&& self.line.needle() == self.pattern.needle()
        &&& self.encoding.well_formed()
        &&& self.encoding.seen() == self.content@
        &&& search_model::scan(self.pattern.needle(), self.path@, self.content@, before) == (
        ScanView { line: self.line.line(), number: self.line_number, results: self.results@ })
        &&& self.bytes_searched == search_model::more_bytes(
            before.bytes_searched,
            self.content@.len(),
        )
        &&& self.kept_matches == before.matches.len()
        &&& before.matches.is_prefix_of(self.results@.matches)
        &&& self.kept_serialized_bytes == before.serialized_bytes
        &&& self.kept_serialized_bytes <= MAX_TOOL_CONTENT_SERIALIZED_BYTES
        &&& self.kept_lines_truncated == before.lines_truncated
        &&& self.kept_truncated == before.truncated
        &&& self.kept_limit_reached == before.limit_reached
        &&& self.results@.binary_files_skipped == before.binary_files_skipped
    }

    /// Begins with a file.
    pub fn begin(path: &str, pattern: &'a LiteralPattern, results: SearchResults) -> (search:
        FileSearch<'a>)
        requires
            pattern.well_formed(),
            results.well_formed(),
        ensures
            search.well_formed(),
            search.needle() == pattern.needle(),
            search.shown_path() == path@,
            search.content() == Seq::<u8>::empty(),
            search.before() == results@,
    {
        assert(tool::match_views(results.matches@).len() == results.matches@.len());
        let kept_matches: usize = results.matches.len();
        let kept_serialized_bytes: usize = results.serialized_bytes;
        let kept_lines_truncated: u64 = results.lines_truncated;
        let kept_truncated = results.truncated;
        let kept_limit_reached = results.limit_reached;
        let bytes_searched: u64 = results.bytes_searched;
        proof {
            assert(results@.matches.subrange(0, results@.matches.len() as int)
                =~= results@.matches);
        }
        FileSearch {
            pattern,
            content: Ghost(Seq::empty()),
            before: Ghost(results@),
            path: path.to_owned(),
            kept_matches,
            kept_serialized_bytes,
            kept_lines_truncated,
            kept_truncated,
            kept_limit_reached,
            bytes_searched,
            results,
            line: LineState::new(pattern),
            line_number: 1,
            encoding: Utf8Stream::new(),
        }
    }

    /// The path under which matches are shown.
    pub fn path(&self) -> (path: &str)
        ensures
            path@ == self.shown_path(),
    {
        self.path.as_str()
    }

    fn feed_line(&mut self, bytes: &[u8])
        requires
            old(self).well_formed_but_encoding(),
            !bytes@.contains(10),
        ensures
            final(self).well_formed_but_encoding(),
            final(self).pattern == old(self).pattern,
            final(self).path@ == old(self).path@,
            final(self).before@ == old(self).before@,
            final(self).content@ == old(self).content@ + bytes@,
            final(self).encoding == old(self).encoding,
            final(self).bytes_searched == old(self).bytes_searched,
    {
        proof {
            search_model::lemma_scan_within_a_line(
                self.pattern.needle(),
                self.path@,
                self.content@,
                bytes@,
                self.before@,
            );
        }
        self.line.feed(bytes, self.pattern);
        self.content = Ghost(self.content@ + bytes@);
    }

    fn end_line(&mut self)
        requires
            old(self).well_formed_but_encoding(),
        ensures
            final(self).well_formed_but_encoding(),
            final(self).pattern == old(self).pattern,
            final(self).path@ == old(self).path@,
            final(self).before@ == old(self).before@,
            final(self).content@ == old(self).content@.push(10),
            final(self).encoding == old(self).encoding,
            final(self).bytes_searched == old(self).bytes_searched,
    {
        let ghost after = self.content@.push(10);
        assert(after.drop_last() =~= self.content@);
        finish_line(&mut self.results, self.path.as_str(), self.line_number, &self.line);
        self.line = LineState::new(self.pattern);
        self.line_number = successor(self.line_number);
        self.content = Ghost(after);
    }

    /// What holds inside a chunk, before its bytes are counted and their
    /// encoding is checked.
    closed spec fn well_formed_but_encoding(self) -> bool {
        let before = self.before@;
        &&& self.pattern.well_formed()
        &&& self.results.well_formed()
        &&& self.line.well_formed()
        &&& self.line.needle() == self.pattern.needle()
        &&& search_model::scan(self.pattern.needle(), self.path@, self.content@, before) == (
        ScanView { line: self.line.line(), number: self.line_number, results: self.results@ })
        &&& self.kept_matches == before.matches.len()
        &&& before.matches.is_prefix_of(self.results@.matches)
        &&& self.kept_serialized_bytes == before.serialized_bytes
        &&& self.kept_serialized_bytes <= MAX_TOOL_CONTENT_SERIALIZED_BYTES
        &&& self.kept_lines_truncated == before.lines_truncated
        &&& self.kept_truncated == before.truncated
        &&& self.kept_limit_reached == before.limit_reached
        &&& self.results@.binary_files_skipped == before.binary_files_skipped
    }

    /// Takes the next bytes of the file.
    pub fn feed(&mut self, chunk: &[u8])
        requires
            old(self).well_formed(),
        ensures
            final(self).well_formed(),
            final(self).needle() == old(self).needle(),
            final(self).shown_path() == old(self).shown_path(),
            final(self).before() == old(self).before(),
            final(self).content() == old(self).content() + chunk@,
    {
        let ghost before = self.content@;
        let length: usize = chunk.len();
        let mut start: usize = 0;
        let mut index: usize = 0;
        assert(before + chunk@.take(0) =~= before);
        while index < length
            invariant
                start <= index <= length,
                length == chunk@.len(),
                self.well_formed_but_encoding(),
                self.content@ == before + chunk@.take(start as int),
                forall|i: int| start <= i < index ==> chunk@[i] != 10,
                self.pattern == old(self).pattern,
                self.path@ == old(self).path@,
                self.before@ == old(self).before@,
                self.encoding == old(self).encoding,
                self.bytes_searched == old(self).bytes_searched,
            decreases length - index,
        {
            if chunk[index] == 10 {
                let run = slice_subrange(chunk, start, index);
                self.feed_line(run);
                self.end_line();
                assert(before + chunk@.take(index + 1) =~= (before + chunk@.take(start as int)
                    + run@).push(10));
                start = index + 1;
            }
            index += 1;
        }
        let run = slice_subrange(chunk, start, length);
        self.feed_line(run);
        assert(before + chunk@ =~= before + chunk@.take(start as int) + run@);
        self.encoding.feed(chunk);
        self.bytes_searched = add_bytes(self.bytes_searched, chunk.len());
    }

    /// The results behind the whole file.
    pub fn finish(self) -> (results: SearchResults)
        requires
            self.well_formed(),
        ensures
            results.well_formed(),
            results@ == search_model::search_content(
                self.needle(),
                self.shown_path(),
                self.content(),
                self.before(),
            ),
    {
        let mut results = self.results;
        if !self.encoding.is_valid() {
            assert(tool::match_views(results.matches@).len() == results.matches@.len());
            results.matches.truncate(self.kept_matches);
            assert(tool::match_views(results.matches@) =~= self.before@.matches);
            results.serialized_bytes = self.kept_serialized_bytes;
            results.lines_truncated = self.kept_lines_truncated;
            results.truncated = self.kept_truncated;
            results.limit_reached = self.kept_limit_reached;
            results.binary_files_skipped = successor(results.binary_files_skipped);
            results.bytes_searched = self.bytes_searched;
            return results;
        }
        if self.line.bytes_seen() > 0 {
            finish_line(&mut results, self.path.as_str(), self.line_number, &self.line);
        }
        results.bytes_searched = self.bytes_searched;
        results
    }
}

fn add_bytes(searched: u64, count: usize) -> (sum: u64)
    ensures
        sum == search_model::more_bytes(searched, count as nat),
{
    let count: u64 = count as u64;
    if searched > u64::MAX - count {
        u64::MAX
    } else {
        searched + count
    }
}

/// What a search is asked for.
pub struct SearchRequest {
    pub query: String,
    pub path: String,
}

/// The mathematical value of a [`SearchRequest`].
pub struct RequestView {
    pub query: Seq<char>,
    pub path: Seq<char>,
}

impl View for SearchRequest {
    type V = RequestView;

    open spec fn view(&self) -> RequestView {
        RequestView { query: self.query@, path: self.path@ }
    }
}

/// The names of the arguments of a search.
pub open spec fn argument_names() -> Seq<Seq<char>> {
    seq!["query"@, "path"@]
}

/// The search that the members of an arguments object ask for.
pub open spec fn request(members: Option<Seq<(Seq<char>, Option<Seq<char>>)>>) -> Result<
    RequestView,
    OutputView,
> {
    match tool_support::refused_arguments(members, argument_names()) {
        Some(output) => Err(output),
        None => match tool_support::required_text(members->Some_0, "query"@) {
            Err(output) => Err(output),
            Ok(query) => if vstd::utf8::encode_utf8(query).len() > MAX_SEARCH_QUERY_BYTES {
                Err(
                    tool_support::failure_view(
                        "invalid_arguments"@,
                        "argument 'query' exceeds 8192 bytes"@,
                        false,
                    ),
                )
            } else {
                match tool_support::optional_text(members->Some_0, "path"@) {
                    Err(output) => Err(output),
                    Ok(None) => Ok(RequestView { query, path: "."@ }),
                    Ok(Some(path)) => if vstd::utf8::encode_utf8(path).len()
                        > MAX_SEARCH_PATH_BYTES {
                        Err(
                            tool_support::failure_view(
                                "invalid_arguments"@,
                                "argument 'path' exceeds 8192 bytes"@,
                                false,
                            ),
                        )
                    } else {
                        Ok(RequestView { query, path })
                    },
                }
            },
        },
    }
}

/// The search that the arguments of a call ask for, read from their JSON text.
pub fn parse_search_arguments(arguments: &str) -> (result: Result<SearchRequest, ToolOutput>)
    ensures
        match result {
            Ok(found) => request(tool_support::json_object_members(arguments@)) == Ok::<
                RequestView,
                OutputView,
            >(found@),
            Err(output) => request(tool_support::json_object_members(arguments@)) == Err::<
                RequestView,
                OutputView,
            >(output@),
        },
{
    let members = object_members(arguments);
    search_request(members)
}

/// The search that the members of an arguments object ask for.
pub fn search_request(members: Option<Members>) -> (result: Result<SearchRequest, ToolOutput>)
    ensures
        match result {
            Ok(found) => request(tool_support::optional_member_views(members)) == Ok::<
                RequestView,
                OutputView,
            >(found@),
            Err(output) => request(tool_support::optional_member_views(members)) == Err::<
                RequestView,
                OutputView,
            >(output@),
        },
{
    let allowed: [&str; 2] = ["query", "path"];
    assert(tool_support::name_views(allowed@) =~= argument_names());
    let arguments = match ToolArguments::from_members(members, &allowed) {
        Ok(arguments) => arguments,
        Err(output) => {
            return Err(output);
        },
    };
    let query = match arguments.required_string("query") {
        Ok(query) => query,
        Err(output) => {
            return Err(output);
        },
    };
    if byte_len(query.as_str()) > MAX_SEARCH_QUERY_BYTES {
        return Err(failure("invalid_arguments", "argument 'query' exceeds 8192 bytes", false));
    }
    let path = match arguments.optional_string("path") {
        Ok(Some(path)) => path,
        Ok(None) => {
            return Ok(SearchRequest { query, path: ".".to_owned() });
        },
        Err(output) => {
            return Err(output);
        },
    };
    if byte_len(path.as_str()) > MAX_SEARCH_PATH_BYTES {
        return Err(failure("invalid_arguments", "argument 'path' exceeds 8192 bytes", false));
    }
    Ok(SearchRequest { query, path })
}

/// The pattern of a query.
pub fn query_pattern(query: &str) -> (pattern: LiteralPattern)
    requires
        query@.len() > 0,
    ensures
        pattern.well_formed(),
        pattern.needle() == vstd::utf8::encode_utf8(query@),
{
    assert(vstd::utf8::encode_utf8(query@).len() > 0);
    LiteralPattern::new(query.as_bytes())
}

/// The output of a search that came to its end, before its length is bounded.
pub open spec fn success(
    request: RequestView,
    results: ResultsView,
    directories_visited: u64,
    depth_truncated: bool,
    workspace: WorkspaceView,
) -> OutputView {
    let limit = MAX_METADATA_TEXT_SERIALIZED_BYTES as nat;
    OutputView::Success {
        content: seq![
            ContentView::Json(seq![("matches"@, FieldValueView::Matches(results.matches))]),
        ],
        metadata: seq![
            ("path"@, FieldValueView::Text(tool_support::json_prefix(request.path, limit))),
            (
                "path_bytes"@,
                FieldValueView::Number(vstd::utf8::encode_utf8(request.path).len() as u64),
            ),
            (
                "path_truncated"@,
                FieldValueView::Flag(tool_support::is_cut(request.path, limit)),
            ),
            ("query"@, FieldValueView::Text(tool_support::json_prefix(request.query, limit))),
            (
                "query_bytes"@,
                FieldValueView::Number(vstd::utf8::encode_utf8(request.query).len() as u64),
            ),
            (
                "query_truncated"@,
                FieldValueView::Flag(tool_support::is_cut(request.query, limit)),
            ),
            ("matches"@, FieldValueView::Number(results.matches.len() as u64)),
            ("bytes_searched"@, FieldValueView::Number(results.bytes_searched)),
            ("binary_files_skipped"@, FieldValueView::Number(results.binary_files_skipped)),
            ("directories_visited"@, FieldValueView::Number(directories_visited)),
            ("lines_truncated"@, FieldValueView::Number(results.lines_truncated)),
            ("truncated"@, FieldValueView::Flag(results.truncated || depth_truncated)),
            ("workspace"@, FieldValueView::Workspace(workspace.metadata())),
        ],
        extensions: Seq::empty(),
    }
}

/// The output of a search that came to its end.
pub fn search_success(
    request: &SearchRequest,
    results: SearchResults,
    directories_visited: u64,
    depth_truncated: bool,
    workspace: &WorkspaceContext,
) -> (output: ToolOutput)
    ensures
        output@ == output_size::finalized(
            success(request@, results@, directories_visited, depth_truncated, workspace@),
        ),
{
    let (path, path_truncated) = truncate_json_string(
        request.path.as_str(),
        MAX_METADATA_TEXT_SERIALIZED_BYTES,
    );
    let (query, query_truncated) = truncate_json_string(
        request.query.as_str(),
        MAX_METADATA_TEXT_SERIALIZED_BYTES,
    );
    assert(tool::match_views(results.matches@).len() == results.matches@.len());
    let count: u64 = results.matches.len() as u64;
    let mut metadata = no_fields();
    push_field(&mut metadata, "path", FieldValue::Text(path));
    push_field(
        &mut metadata,
        "path_bytes",
        FieldValue::Number(byte_len(request.path.as_str()) as u64),
    );
    push_field(&mut metadata, "path_truncated", FieldValue::Flag(path_truncated));
    push_field(&mut metadata, "query", FieldValue::Text(query));
    push_field(
        &mut metadata,
        "query_bytes",
        FieldValue::Number(byte_len(request.query.as_str()) as u64),
    );
    push_field(&mut metadata, "query_truncated", FieldValue::Flag(query_truncated));
    push_field(&mut metadata, "matches", FieldValue::Number(count));
    push_field(&mut metadata, "bytes_searched", FieldValue::Number(results.bytes_searched));
    push_field(
        &mut metadata,
        "binary_files_skipped",
        FieldValue::Number(results.binary_files_skipped),
    );
    push_field(
        &mut metadata,
        "directories_visited",
        FieldValue::Number(directories_visited),
    );
    push_field(&mut metadata, "lines_truncated", FieldValue::Number(results.lines_truncated));
    push_field(
        &mut metadata,
        "truncated",
        FieldValue::Flag(results.truncated || depth_truncated),
    );
    push_field(&mut metadata, "workspace", FieldValue::Workspace(workspace.metadata()));
    let ghost found = results@;
    let mut fields = no_fields();
    push_field(&mut fields, "matches", FieldValue::Matches(results.matches));
    let ghost expected = success(
        request@,
        found,
        directories_visited,
        depth_truncated,
        workspace@,
    );
    assert(tool::field_views(fields@) =~= seq![
        ("matches"@, FieldValueView::Matches(found.matches)),
    ]);
    assert(tool::field_views(metadata@) =~= expected->Success_metadata);
    finalize_output(
        ToolOutput::Success {
            content: one_content(ToolContent::Json { fields }),
            metadata,
            extensions: no_fields(),
        },
    )
}

/// The failure of a search that was asked to stop.
pub fn search_cancelled() -> (output: ToolOutput)
    ensures
        output@ == tool_support::failure_view(
            "tool_cancelled"@,
            "search_files was cancelled"@,
            false,
        ),
{
    failure("tool_cancelled", "search_files was cancelled", false)
}

/// What a search was doing when a system call failed.
pub enum SearchStep {
    /// Listing a directory.
    List(String),
    /// Reading the next entry of a directory.
    ReadEntry,
    /// Inspecting an entry of a directory.
    InspectEntry,
    /// Opening a file or directory.
    Open(String),
    /// Reading a file.
    Read(String),
}

impl SearchStep {
    /// What a failure of the step says before its cause.
    pub open spec fn failure_text(self) -> Seq<char> {
        match self {
            SearchStep::List(path) => "failed to list '"@ + path@ + "': "@,
            SearchStep::ReadEntry => "failed to read a directory entry: "@,
            SearchStep::InspectEntry => "failed to inspect a directory entry: "@,
            SearchStep::Open(path) => "failed to open '"@ + path@ + "': "@,
            SearchStep::Read(path) => "failed to search '"@ + path@ + "': "@,
        }
    }
}

/// The failure of a search at one of its steps.
pub fn search_failure(step: SearchStep, source: &IoFailure) -> (output: ToolOutput)
    ensures
        output@ == tool_support::failure_view(
            "workspace_io_error"@,
            step.failure_text() + source@.message,
            source@.kind == ErrorKind::Interrupted,
        ),
{
    let mut message = match &step {
        SearchStep::List(path) => concat3("failed to list '", path.as_str(), "': "),
        SearchStep::ReadEntry => "failed to read a directory entry: ".to_owned(),
        SearchStep::InspectEntry => "failed to inspect a directory entry: ".to_owned(),
        SearchStep::Open(path) => concat3("failed to open '", path.as_str(), "': "),
        SearchStep::Read(path) => concat3("failed to search '", path.as_str(), "': "),
    };
    message.push_str(source.message.as_str());
    failure("workspace_io_error", message.as_str(), source.is_interrupted())
}

} // verus!
