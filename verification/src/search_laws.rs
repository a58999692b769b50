//! What a search promises of the lines that it finds.

use crate::literal_pattern;
use crate::search_model;
use crate::search_model::{ResultsView, MAX_SEARCH_MATCHES};
use crate::text;
use crate::tool::MatchView;
use crate::tool_support::MAX_TOOL_CONTENT_SERIALIZED_BYTES;
use vstd::prelude::*;

verus! {

/// The lines of some bytes that have an end.
pub open spec fn ended_lines(bytes: Seq<u8>) -> Seq<Seq<u8>>
    decreases bytes.len(),
{
    if bytes.len() == 0 {
        Seq::empty()
    } else if bytes.last() == 10 {
        ended_lines(bytes.drop_last()).push(open_line(bytes.drop_last()))
    } else {
        ended_lines(bytes.drop_last())
    }
}

/// The line of some bytes that has no end.
pub open spec fn open_line(bytes: Seq<u8>) -> Seq<u8>
    decreases bytes.len(),
{
    if bytes.len() == 0 || bytes.last() == 10 {
        Seq::empty()
    } else {
        open_line(bytes.drop_last()).push(bytes.last())
    }
}

/// The lines of a file.
pub open spec fn file_lines(content: Seq<u8>) -> Seq<Seq<u8>> {
    if open_line(content).len() > 0 {
        ended_lines(content).push(open_line(content))
    } else {
        ended_lines(content)
    }
}

/// Whether a line is to be found: the text that is looked for occurs in it, and
/// it can be shown.
pub open spec fn is_wanted(needle: Seq<u8>, line: Seq<u8>) -> bool {
    literal_pattern::occurs(needle, line) && search_model::visible_text(
        search_model::visible_bytes(line),
    ) is Some
}

/// Whether a match shows the line at `index`.
pub open spec fn shows(
    found: MatchView,
    needle: Seq<u8>,
    path: Seq<char>,
    lines: Seq<Seq<u8>>,
    index: int,
) -> bool {
    &&& 0 <= index < lines.len()
    &&& is_wanted(needle, lines[index])
    &&& found.path == path
    &&& found.line == index + 1
    &&& found.text == text::without_return(
        search_model::visible_text(search_model::visible_bytes(lines[index]))->Some_0,
    )
}

/// Whether a match shows one of the lines.
pub open spec fn shows_one(
    found: MatchView,
    needle: Seq<u8>,
    path: Seq<char>,
    lines: Seq<Seq<u8>>,
) -> bool {
    exists|index: int| shows(found, needle, path, lines, index)
}

/// Whether all matches behind those of `before` show lines.
pub open spec fn all_show(
    before: ResultsView,
    after: ResultsView,
    needle: Seq<u8>,
    path: Seq<char>,
    lines: Seq<Seq<u8>>,
) -> bool {
    forall|at: int|
        before.matches.len() <= at < after.matches.len() ==> shows_one(
            #[trigger] after.matches[at],
            needle,
            path,
            lines,
        )
}

/// Whether every wanted line is shown behind the matches of `before`.
pub open spec fn all_shown(
    before: ResultsView,
    after: ResultsView,
    needle: Seq<u8>,
    path: Seq<char>,
    lines: Seq<Seq<u8>>,
) -> bool {
    forall|index: int|
        0 <= index < lines.len() && is_wanted(needle, #[trigger] lines[index]) ==> exists|at: int|
            before.matches.len() <= at < after.matches.len() && shows(
                #[trigger] after.matches[at],
                needle,
                path,
                lines,
                index,
            )
}

/// The length of matches as JSON objects, all together.
pub open spec fn total_json_len(matches: Seq<MatchView>) -> nat
    decreases matches.len(),
{
    if matches.len() == 0 {
        0
    } else {
        total_json_len(matches.drop_last()) + search_model::match_json_len(matches.last())
    }
}

/// Whether results keep their limits: the matches are not too many, and not too
/// long all together.
pub open spec fn keeps_limits(results: ResultsView) -> bool {
    &&& results.matches.len() <= MAX_SEARCH_MATCHES
    &&& results.serialized_bytes == total_json_len(results.matches)
    &&& results.serialized_bytes <= MAX_TOOL_CONTENT_SERIALIZED_BYTES
}

proof fn lemma_more_lines_show(
    before: ResultsView,
    after: ResultsView,
    needle: Seq<u8>,
    path: Seq<char>,
    lines: Seq<Seq<u8>>,
    line: Seq<u8>,
)
    requires
        all_show(before, after, needle, path, lines),
    ensures
        all_show(before, after, needle, path, lines.push(line)),
{
    let more = lines.push(line);
    assert forall|at: int| before.matches.len() <= at < after.matches.len() implies shows_one(
        #[trigger] after.matches[at],
        needle,
        path,
        more,
    ) by {
        let index = choose|index: int| shows(after.matches[at], needle, path, lines, index);
        assert(shows(after.matches[at], needle, path, more, index));
    }
}

proof fn lemma_line_added(
    before: ResultsView,
    found: ResultsView,
    needle: Seq<u8>,
    path: Seq<char>,
    lines: Seq<Seq<u8>>,
    line: Seq<u8>,
    number: u64,
)
    requires
        number == lines.len() + 1,
        before.matches.is_prefix_of(found.matches),
        all_show(before, found, needle, path, lines),
        !found.limit_reached ==> all_shown(before, found, needle, path, lines),
        keeps_limits(before) ==> keeps_limits(found),
    ensures
        ({
            let after = found.with_line(needle, path, number, line);
            &&& before.matches.is_prefix_of(after.matches)
            &&& all_show(before, after, needle, path, lines.push(line))
            &&& !after.limit_reached ==> all_shown(before, after, needle, path, lines.push(line))
            &&& keeps_limits(before) ==> keeps_limits(after)
        }),
{
    let after = found.with_line(needle, path, number, line);
    let more = lines.push(line);
    lemma_more_lines_show(before, found, needle, path, lines, line);
    if after.matches.len() > found.matches.len() {
        assert(after.matches.drop_last() =~= found.matches);
    }
    assert(found.matches.is_prefix_of(after.matches));
    assert(before.matches.is_prefix_of(after.matches));
    assert forall|at: int| before.matches.len() <= at < after.matches.len() implies shows_one(
        #[trigger] after.matches[at],
        needle,
        path,
        more,
    ) by {
        if at < found.matches.len() {
            assert(after.matches[at] == found.matches[at]);
            let index = choose|index: int| shows(found.matches[at], needle, path, more, index);
            assert(shows(after.matches[at], needle, path, more, index));
        } else {
            assert(shows(after.matches[at], needle, path, more, lines.len() as int));
        }
    }
    if !after.limit_reached {
        assert forall|index: int|
            0 <= index < more.len() && is_wanted(needle, #[trigger] more[index]) implies exists|
            at: int,
        |
            before.matches.len() <= at < after.matches.len() && shows(
                #[trigger] after.matches[at],
                needle,
                path,
                more,
                index,
            ) by {
            if index < lines.len() {
                assert(lines[index] == more[index]);
                let at = choose|at: int|
                    before.matches.len() <= at < found.matches.len() && shows(
                        #[trigger] found.matches[at],
                        needle,
                        path,
                        lines,
                        index,
                    );
                assert(after.matches[at] == found.matches[at]);
                assert(shows(after.matches[at], needle, path, more, index));
            } else {
                let at = after.matches.len() - 1;
                assert(shows(after.matches[at], needle, path, more, index));
            }
        }
    }
}

pub proof fn lemma_scan(
    needle: Seq<u8>,
    path: Seq<char>,
    bytes: Seq<u8>,
    before: ResultsView,
)
    requires
        bytes.len() < u64::MAX,
    ensures
        ({
            let end = search_model::scan(needle, path, bytes, before);
            let lines = ended_lines(bytes);
            &&& end.line == open_line(bytes)
            &&& end.number == lines.len() + 1
            &&& lines.len() <= bytes.len()
            &&& before.matches.is_prefix_of(end.results.matches)
            &&& all_show(before, end.results, needle, path, lines)
            &&& !end.results.limit_reached ==> all_shown(
                before,
                end.results,
                needle,
                path,
                lines,
            )
            &&& keeps_limits(before) ==> keeps_limits(end.results)
        }),
    decreases bytes.len(),
{
    if bytes.len() > 0 {
        lemma_scan(needle, path, bytes.drop_last(), before);
        let earlier = search_model::scan(needle, path, bytes.drop_last(), before);
        if bytes.last() == 10 {
            lemma_line_added(
                before,
                earlier.results,
                needle,
                path,
                ended_lines(bytes.drop_last()),
                earlier.line,
                earlier.number,
            );
        }
    }
}

proof fn lemma_search(
    needle: Seq<u8>,
    path: Seq<char>,
    content: Seq<u8>,
    before: ResultsView,
)
    requires
        content.len() < u64::MAX,
        vstd::utf8::valid_utf8(content),
    ensures
        ({
            let after = search_model::search_content(needle, path, content, before);
            let lines = file_lines(content);
            &&& before.matches.is_prefix_of(after.matches)
            &&& all_show(before, after, needle, path, lines)
            &&& !after.limit_reached ==> all_shown(before, after, needle, path, lines)
            &&& keeps_limits(before) ==> keeps_limits(after)
        }),
{
    lemma_scan(needle, path, content, before);
    let end = search_model::scan(needle, path, content, before);
    let after = search_model::search_content(needle, path, content, before);
    if end.line.len() > 0 {
        lemma_line_added(
            before,
            end.results,
            needle,
            path,
            ended_lines(content),
            end.line,
            end.number,
        );
        let found = end.results.with_line(needle, path, end.number, end.line);
        assert(after.matches == found.matches);
        assert(all_show(before, found, needle, path, file_lines(content)));
        lemma_same_matches(before, found, after, needle, path, file_lines(content));
    } else {
        assert(after.matches == end.results.matches);
        lemma_same_matches(before, end.results, after, needle, path, file_lines(content));
    }
}

proof fn lemma_same_matches(
    before: ResultsView,
    first: ResultsView,
    second: ResultsView,
    needle: Seq<u8>,
    path: Seq<char>,
    lines: Seq<Seq<u8>>,
)
    requires
        first.matches == second.matches,
        all_show(before, first, needle, path, lines),
    ensures
        all_show(before, second, needle, path, lines),
        all_shown(before, first, needle, path, lines) ==> all_shown(
            before,
            second,
            needle,
            path,
            lines,
        ),
{
}

/// Every match that a file adds shows a line of it in which the text that is
/// looked for occurs, under the number of the line. The matches before it stay.
pub proof fn law_matches_show_matching_lines(
    needle: Seq<u8>,
    path: Seq<char>,
    content: Seq<u8>,
    before: ResultsView,
    at: int,
)
    requires
        content.len() < u64::MAX,
        before.matches.len() <= at < search_model::search_content(
            needle,
            path,
            content,
            before,
        ).matches.len(),
    ensures
        before.matches.is_prefix_of(
            search_model::search_content(needle, path, content, before).matches,
        ),
        shows_one(
            search_model::search_content(needle, path, content, before).matches[at],
            needle,
            path,
            file_lines(content),
        ),
{
    if vstd::utf8::valid_utf8(content) {
        lemma_search(needle, path, content, before);
    }
}

/// Where no limit ends the search, every line of a text file in which the text
/// that is looked for occurs has its match.
pub proof fn law_matching_lines_are_found(
    needle: Seq<u8>,
    path: Seq<char>,
    content: Seq<u8>,
    before: ResultsView,
    index: int,
)
    requires
        content.len() < u64::MAX,
        vstd::utf8::valid_utf8(content),
        !search_model::search_content(needle, path, content, before).limit_reached,
        0 <= index < file_lines(content).len(),
        is_wanted(needle, file_lines(content)[index]),
    ensures
        exists|at: int|
            {
                &&& before.matches.len() <= at < search_model::search_content(
                    needle,
                    path,
                    content,
                    before,
                ).matches.len()
                &&& shows(
                    #[trigger] search_model::search_content(
                        needle,
                        path,
                        content,
                        before,
                    ).matches[at],
                    needle,
                    path,
                    file_lines(content),
                    index,
                )
            },
{
    lemma_search(needle, path, content, before);
}

/// No file makes the matches more, or longer, than the output of a search may
/// hold.
pub proof fn law_searches_keep_their_limits(
    needle: Seq<u8>,
    path: Seq<char>,
    content: Seq<u8>,
    before: ResultsView,
)
    requires
        content.len() < u64::MAX,
        keeps_limits(before),
    ensures
        keeps_limits(ResultsView::initial()),
        keeps_limits(search_model::search_content(needle, path, content, before)),
{
    if vstd::utf8::valid_utf8(content) {
        lemma_search(needle, path, content, before);
    }
}

/// A file that is not text adds nothing but the fact that it was skipped.
pub proof fn law_binary_files_are_skipped(
    needle: Seq<u8>,
    path: Seq<char>,
    content: Seq<u8>,
    before: ResultsView,
)
    requires
        !vstd::utf8::valid_utf8(content),
    ensures
        search_model::search_content(needle, path, content, before).matches == before.matches,
        search_model::search_content(needle, path, content, before).truncated == before.truncated,
        search_model::search_content(needle, path, content, before).binary_files_skipped
            == search_model::successor(before.binary_files_skipped),
{
}

} // verus!
