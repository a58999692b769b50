//! What a search looks at and hands out.

use crate::output_size;
use crate::search;
use crate::search_model;
use crate::search_run::{OpenFileView, SearchRunView};
use crate::tool::{ContentView, FieldValueView, OutputView};
use crate::tool_support;
use vstd::prelude::*;

verus! {

/// The bytes of some reads in a row.
pub open spec fn in_a_row(pieces: Seq<Seq<u8>>) -> Seq<u8>
    decreases pieces.len(),
{
    if pieces.len() == 0 {
        Seq::empty()
    } else {
        in_a_row(pieces.drop_last()) + pieces.last()
    }
}

/// A search behind some reads of the open file, each followed by a look that found
/// no request to stop.
pub open spec fn behind_reads(run: SearchRunView, needle: Seq<u8>, pieces: Seq<Seq<u8>>) -> SearchRunView
    decreases pieces.len(),
{
    if pieces.len() == 0 {
        run
    } else {
        behind_reads(run, needle, pieces.drop_last()).read(needle, pieces.last()).polled(false)
    }
}

proof fn lemma_reads(run: SearchRunView, needle: Seq<u8>, pieces: Seq<Seq<u8>>)
    requires
        run.phase is Read,
        run.file is Some,
        forall|i: int| 0 <= i < pieces.len() ==> (#[trigger] pieces[i]).len() > 0,
    ensures
        behind_reads(run, needle, pieces) == (SearchRunView {
            file: Some(
                OpenFileView {
                    content: run.file->Some_0.content + in_a_row(pieces),
                    ..run.file->Some_0
                },
            ),
            ..run
        }),
    decreases pieces.len(),
{
    if pieces.len() == 0 {
        assert(run.file->Some_0.content + in_a_row(pieces) =~= run.file->Some_0.content);
    } else {
        let earlier = pieces.drop_last();
        lemma_reads(run, needle, earlier);
        assert(pieces[pieces.len() - 1].len() > 0);
        assert(run.file->Some_0.content + in_a_row(earlier) + pieces.last()
            =~= run.file->Some_0.content + in_a_row(pieces));
    }
}

/// A file is searched whole, whatever pieces it is read in: its matches are those of
/// all its bytes in a row, and come behind the matches that were found before it.
pub proof fn law_files_are_searched_whole(
    run: SearchRunView,
    needle: Seq<u8>,
    path: Seq<char>,
    pieces: Seq<Seq<u8>>,
)
    requires
        run.phase is Read,
        run.file == Some(OpenFileView { path, content: Seq::empty() }),
        forall|i: int| 0 <= i < pieces.len() ==> (#[trigger] pieces[i]).len() > 0,
    ensures
        ({
            let ended = behind_reads(run, needle, pieces).read(needle, Seq::empty());
            &&& ended.results == search_model::search_content(
                needle,
                path,
                in_a_row(pieces),
                run.results,
            )
            &&& ended.file is None
            &&& ended.phase is Done <==> ended.results.limit_reached || run.single_file
            &&& !(ended.phase is Done) ==> ended.phase is Poll && ended.output == run.output
        }),
{
    lemma_reads(run, needle, pieces);
    assert(Seq::<u8>::empty() + in_a_row(pieces) =~= in_a_row(pieces));
}

/// A search that comes to its end hands out every match that it found, in order, says
/// how many there are, and says so where some were left out.
pub proof fn law_found_lines_are_handed_out(run: SearchRunView)
    ensures
        run.succeeded().phase is Done,
        run.succeeded().output matches Some(OutputView::Success { content, metadata, .. }) && {
            &&& content == seq![
                ContentView::Json(
                    seq![("matches"@, FieldValueView::Matches(run.results.matches))],
                ),
            ]
            &&& metadata.len() == 13
            &&& metadata[6] == (
                "matches"@,
                FieldValueView::Number(run.results.matches.len() as u64),
            )
            &&& metadata[7] == (
                "bytes_searched"@,
                FieldValueView::Number(run.results.bytes_searched),
            )
            &&& metadata[8] == (
                "binary_files_skipped"@,
                FieldValueView::Number(run.results.binary_files_skipped),
            )
            &&& metadata[9] == (
                "directories_visited"@,
                FieldValueView::Number(run.walk.directories_visited),
            )
            &&& metadata[11] == (
                "truncated"@,
                FieldValueView::Flag(run.results.truncated || run.walk.truncated),
            )
        },
{
    let fields = seq![("matches"@, FieldValueView::Matches(run.results.matches))];
    assert(fields.map_values(
        |field: (Seq<char>, FieldValueView)| (field.0, output_size::cut_list(field.1)),
    ) =~= fields);
    let content = seq![ContentView::Json(fields)];
    assert(content.map_values(|piece: ContentView| output_size::cut_content(piece)) =~= content);
}

/// A search that is asked to stop at a look is cancelled.
pub proof fn law_searches_are_cancelled(run: SearchRunView)
    ensures
        run.polled(true).phase is Done,
        run.polled(true).output matches Some(OutputView::Failure { error, .. }) && error.code
            == "tool_cancelled"@ && !error.retryable,
{
}

/// A search is asked for by its text alone, which looks below the workspace, or by
/// its text and a path.
pub proof fn law_searches_ask_for_their_text(query: Seq<char>, path: Seq<char>)
    requires
        0 < query.len() && vstd::utf8::encode_utf8(query).len() <= 8192,
        0 < path.len() && vstd::utf8::encode_utf8(path).len() <= 8192,
    ensures
        search::request(Some(seq![("query"@, Some(query))])) matches Ok(request) && request.query
            == query && request.path == "."@,
        search::request(Some(seq![("query"@, Some(query)), ("path"@, Some(path))])) matches Ok(
            request,
        ) && request.query == query && request.path == path,
        search::request(Some(seq![("path"@, Some(path)), ("query"@, Some(query))])) matches Ok(
            request,
        ) && request.query == query && request.path == path,
        search::request(Some(seq![("path"@, Some(path))])) is Err,
        search::request(Some(seq![("query"@, None)])) is Err,
        search::request(None) is Err,
{
    reveal_strlit("query");
    reveal_strlit("path");
    assert("query"@.len() != "path"@.len());
    let names = search::argument_names();
    assert(names[0] == "query"@ && names[1] == "path"@);
    assert(names.contains("query"@) && names.contains("path"@));
    reveal_with_fuel(tool_support::unknown_member, 3);
    reveal_with_fuel(tool_support::member, 3);
    let alone = seq![("query"@, Some(query))];
    assert(alone[0] == ("query"@, Some(query)));
    let both = seq![("query"@, Some(query)), ("path"@, Some(path))];
    assert(both[0] == ("query"@, Some(query)) && both[1] == ("path"@, Some(path)));
    let swapped = seq![("path"@, Some(path)), ("query"@, Some(query))];
    assert(swapped[0] == ("path"@, Some(path)) && swapped[1] == ("query"@, Some(query)));
    let missing = seq![("path"@, Some(path))];
    assert(missing[0] == ("path"@, Some(path)));
    let empty = seq![("query"@, None::<Seq<char>>)];
    assert(empty[0] == ("query"@, None::<Seq<char>>));
}

/// A search that holds anything but a text and a path is refused.
pub proof fn law_other_search_arguments_are_refused(
    members: Seq<(Seq<char>, Option<Seq<char>>)>,
    at: int,
)
    requires
        0 <= at < members.len(),
        members[at].0 != "query"@ && members[at].0 != "path"@,
    ensures
        search::request(Some(members)) matches Err(OutputView::Failure { error, .. }) && error.code
            == "invalid_arguments"@,
{
    let names = search::argument_names();
    assert(!names.contains(members[at].0)) by {
        if names.contains(members[at].0) {
            let i = choose|i: int| 0 <= i < names.len() && names[i] == members[at].0;
            assert(i == 0 || i == 1);
        }
    }
    lemma_unknown(members, names, 0, at);
}

proof fn lemma_unknown(
    members: Seq<(Seq<char>, Option<Seq<char>>)>,
    names: Seq<Seq<char>>,
    from: int,
    at: int,
)
    requires
        0 <= from <= at < members.len(),
        !names.contains(members[at].0),
    ensures
        tool_support::unknown_member(members, names, from) is Some,
    decreases at - from,
{
    if from < at && names.contains(members[from].0) {
        lemma_unknown(members, names, from + 1, at);
    }
}

} // verus!
