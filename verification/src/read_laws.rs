//! What a read hands out of a file.

use crate::output_size;
use crate::read;
use crate::read::{ReadEventView, ReadView};
use crate::search_model;
use crate::search_text_laws;
use crate::tool::{ContentView, FieldValueView, OutputView};
use crate::tool_support;
use crate::utf8;
use crate::workspace::WorkspaceView;
use vstd::prelude::*;

verus! {

proof fn lemma_json_len_is_bounded(content: Seq<char>, count: int)
    requires
        0 <= count <= content.len(),
    ensures
        tool_support::json_chars_len(content, count) <= 6 * count,
    decreases count,
{
    if count > 0 {
        lemma_json_len_is_bounded(content, count - 1);
        tool_support::lemma_char_len(content[count - 1]);
    }
}

proof fn lemma_encoded_prefix(content: Seq<char>, count: int)
    requires
        0 <= count <= content.len(),
    ensures
        vstd::utf8::encode_utf8(content.take(count)).is_prefix_of(
            vstd::utf8::encode_utf8(content),
        ),
{
    assert(content =~= content.take(count) + content.skip(count));
    search_text_laws::lemma_encode_concat(content.take(count), content.skip(count));
    let first = vstd::utf8::encode_utf8(content.take(count));
    let second = vstd::utf8::encode_utf8(content.skip(count));
    assert((first + second).subrange(0, first.len() as int) =~= first);
}

/// A file of up to 8000 characters is shown whole, character for character, and the
/// output says how long it is and that nothing was left out.
pub proof fn law_short_files_are_shown_whole(
    path: Seq<char>,
    content: Seq<char>,
    file_length: u64,
    workspace: WorkspaceView,
)
    requires
        content.len() <= 8000,
        file_length == vstd::utf8::encode_utf8(content).len(),
        file_length <= 65536,
    ensures
        ({
            let bytes = vstd::utf8::encode_utf8(content);
            read::read_output_view(path, file_length, bytes, workspace) matches
                OutputView::Success { content: shown, metadata, extensions } && {
                &&& shown == seq![ContentView::Text(content)]
                &&& metadata.len() == 5
                &&& metadata[1] == ("bytes"@, FieldValueView::Number(file_length))
                &&& metadata[2] == ("returned_bytes"@, FieldValueView::Number(file_length))
                &&& metadata[3] == ("truncated"@, FieldValueView::Flag(false))
                &&& extensions.len() == 0
            }
        }),
{
    let bytes = vstd::utf8::encode_utf8(content);
    let limit = tool_support::MAX_TOOL_CONTENT_SERIALIZED_BYTES as nat;
    vstd::utf8::encode_utf8_valid_utf8(content);
    vstd::utf8::encode_utf8_decode_utf8(content);
    lemma_json_len_is_bounded(content, content.len() as int);
    tool_support::law_cut_texts_fit_their_limit(content, limit);
    assert(tool_support::json_prefix(content, limit) == content);
    let shown = seq![ContentView::Text(content)];
    assert(shown.map_values(|piece: ContentView| output_size::cut_content(piece)) =~= shown);
}

/// What a read shows of a file is its beginning, and the output says how many bytes
/// of the file that is; where it says that nothing was left out, it is all of it.
pub proof fn law_reads_show_the_beginning(
    path: Seq<char>,
    file_length: u64,
    bytes: Seq<u8>,
    workspace: WorkspaceView,
)
    ensures
        read::read_output_view(path, file_length, bytes, workspace) matches OutputView::Success {
            content,
            metadata,
            ..
        } ==> {
            &&& content.len() == 1
            &&& content[0] matches ContentView::Text(shown)
            &&& vstd::utf8::encode_utf8(shown).is_prefix_of(bytes)
            &&& vstd::utf8::encode_utf8(shown).len() <= 65536
            &&& metadata[1] == ("bytes"@, FieldValueView::Number(file_length))
            &&& metadata[2] == (
                "returned_bytes"@,
                FieldValueView::Number(vstd::utf8::encode_utf8(shown).len() as u64),
            )
            &&& metadata[3] == ("truncated"@, FieldValueView::Flag(true)) || {
                &&& metadata[3] == ("truncated"@, FieldValueView::Flag(false))
                &&& vstd::utf8::encode_utf8(shown) == bytes
                &&& file_length <= 65536
            }
        },
{
    let cut = read::is_truncated(file_length, bytes);
    let given = read::shown_bytes(bytes);
    let limit = tool_support::MAX_TOOL_CONTENT_SERIALIZED_BYTES as nat;
    if let Ok(whole) = read::file_text(given, cut) {
        tool_support::law_cut_texts_fit_their_limit(whole, limit);
        let shown = tool_support::json_prefix(whole, limit);
        let valid = if vstd::utf8::valid_utf8(given) {
            given
        } else {
            given.take(search_model::valid_prefix_len(given))
        };
        lemma_valid_part(given);
        vstd::utf8::decode_utf8_encode_utf8(valid);
        assert(vstd::utf8::encode_utf8(whole) == valid);
        lemma_encoded_prefix(whole, shown.len() as int);
        assert(whole.take(shown.len() as int) =~= shown);
        let encoded = vstd::utf8::encode_utf8(shown);
        assert(encoded.is_prefix_of(valid));
        assert(bytes.subrange(0, encoded.len() as int) =~= valid.subrange(0, encoded.len() as int));
        let pieces = seq![ContentView::Text(shown)];
        assert(pieces.map_values(|piece: ContentView| output_size::cut_content(piece)) =~= pieces);
    }
}

proof fn lemma_longest_prefix(bytes: Seq<u8>, length: int) -> (found: int)
    requires
        0 <= length <= bytes.len(),
        forall|longer: int|
            length < longer <= bytes.len() ==> !vstd::utf8::valid_utf8(
                #[trigger] bytes.take(longer),
            ),
    ensures
        utf8::longest_valid_prefix(bytes, found),
    decreases length,
{
    if vstd::utf8::valid_utf8(bytes.take(length)) {
        length
    } else {
        assert(length > 0) by {
            assert(bytes.take(0) =~= Seq::<u8>::empty());
        }
        lemma_longest_prefix(bytes, length - 1)
    }
}

proof fn lemma_valid_part(bytes: Seq<u8>)
    ensures
        ({
            let length = search_model::valid_prefix_len(bytes);
            0 <= length <= bytes.len() && vstd::utf8::valid_utf8(bytes.take(length))
        }),
{
    let found = lemma_longest_prefix(bytes, bytes.len() as int);
    assert(utf8::longest_valid_prefix(bytes, search_model::valid_prefix_len(bytes)));
}

/// A file that is read whole and is no text is refused as such.
pub proof fn law_other_files_are_refused(
    path: Seq<char>,
    file_length: u64,
    bytes: Seq<u8>,
    workspace: WorkspaceView,
)
    requires
        file_length <= 65536,
        bytes.len() <= 65536,
        !vstd::utf8::valid_utf8(bytes),
    ensures
        read::read_output_view(path, file_length, bytes, workspace) matches OutputView::Failure {
            error,
            ..
        } && error.code == "file_not_utf8"@ && !error.retryable,
{
}

/// A read is asked for by one path, which is what is looked up; a call without one,
/// with an empty one, or with anything else besides is refused.
pub proof fn law_reads_ask_for_their_path(
    members: Seq<(Seq<char>, Option<Seq<char>>)>,
    path: Seq<char>,
)
    ensures
        members == seq![("path"@, Some(path))] && 0 < path.len() && vstd::utf8::encode_utf8(
            path,
        ).len() <= 8192 ==> read::begun(Some(members), false) == (ReadView::Resolving {
            requested: path,
        }),
        read::begun(Some(members), false) matches ReadView::Resolving { requested } ==> {
            &&& requested.len() > 0
            &&& vstd::utf8::encode_utf8(requested).len() <= 8192
            &&& members.contains(("path"@, Some(requested)))
            &&& forall|i: int| 0 <= i < members.len() ==> (#[trigger] members[i]).0 == "path"@
        },
        !(read::begun(Some(members), false) is Resolving) ==> (read::begun(
            Some(members),
            false,
        ) matches ReadView::Finished(OutputView::Failure { error, .. }) && error.code
            == "invalid_arguments"@),
        read::begun(None, false) matches ReadView::Finished(OutputView::Failure { error, .. })
            && error.code == "invalid_arguments"@,
{
    let allowed = seq!["path"@];
    assert(allowed[0] == "path"@);
    lemma_known_members(members, allowed, 0);
    lemma_member(members, "path"@, 0);
    if members == seq![("path"@, Some(path))] {
        assert(members[0] == ("path"@, Some(path)));
        assert(allowed.contains(members[0].0));
        reveal_with_fuel(tool_support::unknown_member, 2);
        reveal_with_fuel(tool_support::member, 2);
    }
}

proof fn lemma_known_members(
    members: Seq<(Seq<char>, Option<Seq<char>>)>,
    allowed: Seq<Seq<char>>,
    at: int,
)
    requires
        0 <= at,
    ensures
        tool_support::unknown_member(members, allowed, at) is None ==> forall|i: int|
            at <= i < members.len() ==> allowed.contains((#[trigger] members[i]).0),
    decreases members.len() - at,
{
    if at < members.len() && allowed.contains(members[at].0) {
        lemma_known_members(members, allowed, at + 1);
    }
}

proof fn lemma_member(members: Seq<(Seq<char>, Option<Seq<char>>)>, name: Seq<char>, at: int)
    requires
        0 <= at,
    ensures
        tool_support::member(members, name, at) matches Some(value) ==> members.contains(
            (name, value),
        ),
    decreases members.len() - at,
{
    if at < members.len() {
        if members[at].0 == name {
            assert(members[at] == (name, members[at].1));
        } else {
            lemma_member(members, name, at + 1);
        }
    }
}

/// A read that goes well hands out what was read from the file that the path led to,
/// and one that is asked to stop at either look is cancelled.
pub proof fn law_reads_hand_out_what_was_read(
    requested: Seq<char>,
    path: Seq<char>,
    file_length: u64,
    bytes: Seq<u8>,
    workspace: WorkspaceView,
)
    ensures
        ({
            let polled = (ReadView::Resolving { requested }).step(
                ReadEventView::Resolved(Ok(path)),
                workspace,
            ).step(ReadEventView::Opened(Ok(file_length)), workspace).step(
                ReadEventView::Bytes(Ok(bytes)),
                workspace,
            );
            &&& polled.step(ReadEventView::Cancellation(false), workspace) == ReadView::Finished(
                read::read_output_view(path, file_length, bytes, workspace),
            )
            &&& polled.step(ReadEventView::Cancellation(true), workspace) matches
                ReadView::Finished(OutputView::Failure { error, .. }) && error.code
                == "tool_cancelled"@
            &&& read::begun(None, true) matches ReadView::Finished(
                OutputView::Failure { error, .. },
            ) && error.code == "tool_cancelled"@
        }),
{
}

} // verus!
