//! A search for a literal text as mathematics: which lines of a file it finds,
//! and which of them fit into its output.

use crate::literal_pattern;
use crate::text;
use crate::tool::MatchView;
use crate::tool_support;
use crate::utf8;
use vstd::prelude::*;

verus! {

/// The most matches that a search returns.
pub const MAX_SEARCH_MATCHES: usize = 200;

/// How much of a matching line a search returns, in bytes.
pub const MAX_SEARCH_LINE_BYTES: usize = 8192;

/// The longest query, in bytes.
pub const MAX_SEARCH_QUERY_BYTES: usize = 8192;

/// The longest path, in bytes.
pub const MAX_SEARCH_PATH_BYTES: usize = 8192;

/// The longest prefix of some bytes that is valid UTF-8.
pub open spec fn valid_prefix_len(bytes: Seq<u8>) -> int {
    choose|length: int| utf8::longest_valid_prefix(bytes, length)
}

/// The text of some bytes, without a character that breaks off at their end;
/// none where they are not UTF-8.
pub open spec fn visible_text(bytes: Seq<u8>) -> Option<Seq<char>> {
    if vstd::utf8::valid_utf8(bytes) {
        Some(vstd::utf8::decode_utf8(bytes))
    } else if utf8::extensible(bytes) {
        Some(vstd::utf8::decode_utf8(bytes.take(valid_prefix_len(bytes))))
    } else {
        None
    }
}

/// The part of a line that a match shows.
pub open spec fn visible_bytes(line: Seq<u8>) -> Seq<u8> {
    if line.len() <= MAX_SEARCH_LINE_BYTES {
        line
    } else {
        line.take(MAX_SEARCH_LINE_BYTES as int)
    }
}

/// The length of a match as a JSON object.
pub open spec fn match_json_len(found: MatchView) -> nat {
    25 + text::decimal_text(found.line as nat).len() + tool_support::json_string_len(found.path)
        + tool_support::json_string_len(found.text)
}

/// What a search has found.
pub struct ResultsView {
    pub matches: Seq<MatchView>,
    pub serialized_bytes: nat,
    pub bytes_searched: u64,
    pub binary_files_skipped: u64,
    pub lines_truncated: u64,
    pub truncated: bool,
    pub limit_reached: bool,
}

/// One more, where that is a number.
pub open spec fn successor(number: u64) -> u64 {
    if number < u64::MAX {
        (number + 1) as u64
    } else {
        number
    }
}

impl ResultsView {
    /// A search before its first file.
    pub open spec fn initial() -> ResultsView {
        ResultsView {
            matches: Seq::empty(),
            serialized_bytes: 0,
            bytes_searched: 0,
            binary_files_skipped: 0,
            lines_truncated: 0,
            truncated: false,
            limit_reached: false,
        }
    }

    /// One more match, or the end of the search where it does not fit.
    pub open spec fn with_match(self, found: MatchView) -> ResultsView {
        if self.matches.len() >= MAX_SEARCH_MATCHES || self.serialized_bytes + match_json_len(found)
            > tool_support::MAX_TOOL_CONTENT_SERIALIZED_BYTES {
            ResultsView { truncated: true, limit_reached: true, ..self }
        } else {
            ResultsView {
                matches: self.matches.push(found),
                serialized_bytes: self.serialized_bytes + match_json_len(found),
                ..self
            }
        }
    }

    /// A line that is shown in part.
    pub open spec fn with_truncated_line(self) -> ResultsView {
        ResultsView {
            lines_truncated: successor(self.lines_truncated),
            truncated: true,
            ..self
        }
    }

    /// The results behind a whole line.
    pub open spec fn with_line(
        self,
        needle: Seq<u8>,
        path: Seq<char>,
        number: u64,
        line: Seq<u8>,
    ) -> ResultsView {
        if self.limit_reached || !literal_pattern::occurs(needle, line) {
            self
        } else {
            match visible_text(visible_bytes(line)) {
                None => self,
                Some(shown) => {
                    let found = MatchView { path, line: number, text: text::without_return(shown) };
                    if line.len() > MAX_SEARCH_LINE_BYTES {
                        self.with_truncated_line().with_match(found)
                    } else {
                        self.with_match(found)
                    }
                },
            }
        }
    }
}

/// How far a file has been searched.
pub struct ScanView {
    /// The bytes of the line that is being read.
    pub line: Seq<u8>,
    pub number: u64,
    pub results: ResultsView,
}

/// The search of a file behind some of its bytes.
pub open spec fn scan(
    needle: Seq<u8>,
    path: Seq<char>,
    bytes: Seq<u8>,
    results: ResultsView,
) -> ScanView
    decreases bytes.len(),
{
    if bytes.len() == 0 {
        ScanView { line: Seq::empty(), number: 1, results }
    } else {
        let before = scan(needle, path, bytes.drop_last(), results);
        if bytes.last() == 10 {
            ScanView {
                line: Seq::empty(),
                number: successor(before.number),
                results: before.results.with_line(needle, path, before.number, before.line),
            }
        } else {
            ScanView { line: before.line.push(bytes.last()), ..before }
        }
    }
}

/// Bytes without a line feed go on with the line that is being read.
pub proof fn lemma_scan_within_a_line(
    needle: Seq<u8>,
    path: Seq<char>,
    bytes: Seq<u8>,
    more: Seq<u8>,
    results: ResultsView,
)
    requires
        !more.contains(10),
    ensures
        scan(needle, path, bytes + more, results) == (ScanView {
            line: scan(needle, path, bytes, results).line + more,
            ..scan(needle, path, bytes, results)
        }),
    decreases more.len(),
{
    let before = scan(needle, path, bytes, results);
    if more.len() == 0 {
        assert(bytes + more =~= bytes);
        assert(before.line + more =~= before.line);
    } else {
        assert(more[more.len() - 1] == more.last());
        assert forall|i: int| 0 <= i < more.drop_last().len() implies more.drop_last()[i] != 10 by {
            assert(more[i] == more.drop_last()[i]);
        }
        lemma_scan_within_a_line(needle, path, bytes, more.drop_last(), results);
        assert((bytes + more).drop_last() =~= bytes + more.drop_last());
        assert((before.line + more.drop_last()).push(more.last()) =~= before.line + more);
    }
}

/// The counter of searched bytes behind `count` more.
pub open spec fn more_bytes(searched: u64, count: nat) -> u64 {
    if searched + count > u64::MAX {
        u64::MAX
    } else {
        (searched + count) as u64
    }
}

/// The results behind a whole file: its matches where it is UTF-8, and nothing
/// but the fact that it is not where it is not.
pub open spec fn search_content(
    needle: Seq<u8>,
    path: Seq<char>,
    content: Seq<u8>,
    results: ResultsView,
) -> ResultsView {
    let searched = more_bytes(results.bytes_searched, content.len());
    if !vstd::utf8::valid_utf8(content) {
        ResultsView {
            binary_files_skipped: successor(results.binary_files_skipped),
            bytes_searched: searched,
            ..results
        }
    } else {
        let end = scan(needle, path, content, results);
        let found = if end.line.len() > 0 {
            end.results.with_line(needle, path, end.number, end.line)
        } else {
            end.results
        };
        ResultsView { bytes_searched: searched, ..found }
    }
}

} // verus!
