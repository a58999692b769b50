//! What a patch asks of its target, and what reading the target comes to.

use crate::io_failure::ErrorKind;
use crate::patch;
use crate::patch_model;
use crate::patch_model::PatchErrorView;
use crate::tool::OutputView;
use crate::tool_support;
use vstd::prelude::*;

verus! {

/// Line feeds are counted one by one: none in nothing, one in a line feed, none in any
/// other byte, and as many in two texts together as in each of them.
pub proof fn law_line_feeds_are_counted(first: Seq<u8>, second: Seq<u8>, byte: u8)
    ensures
        patch_model::newlines(Seq::empty()) == 0,
        patch_model::newlines(seq![byte]) == (if byte == 0x0a {
            1nat
        } else {
            0nat
        }),
        patch_model::newlines(first + second) == patch_model::newlines(first)
            + patch_model::newlines(second),
    decreases second.len(),
{
    assert(seq![byte].drop_last() =~= Seq::<u8>::empty());
    assert(patch_model::newlines(seq![byte].drop_last()) == 0);
    let whole = first + second;
    if second.len() == 0 {
        assert(whole =~= first);
    } else {
        assert(whole.drop_last() =~= first + second.drop_last());
        assert(whole.last() == second.last());
        law_line_feeds_are_counted(first, second.drop_last(), byte);
    }
}

/// A target has a line for each line feed, and one more for bytes behind the last one.
pub proof fn law_lines_are_counted(content: Seq<u8>, open: Seq<u8>)
    requires
        content.len() == 0 || content.last() == 0x0a,
        forall|i: int| 0 <= i < open.len() ==> #[trigger] open[i] != 0x0a,
    ensures
        patch_model::line_count(content) == patch_model::newlines(content),
        patch_model::line_count(content + open) == patch_model::newlines(content) + (
        if open.len() > 0 {
            1nat
        } else {
            0nat
        }),
    decreases open.len(),
{
    if open.len() == 0 {
        assert(content + open =~= content);
    } else {
        let shorter = open.drop_last();
        law_lines_are_counted(content, shorter);
        let whole = content + open;
        assert(whole.drop_last() =~= content + shorter);
        assert(whole.last() == open[open.len() - 1]);
        lemma_no_feeds(open);
        law_line_feeds_are_counted(content, open, 0);
    }
}

proof fn lemma_no_feeds(open: Seq<u8>)
    requires
        forall|i: int| 0 <= i < open.len() ==> #[trigger] open[i] != 0x0a,
    ensures
        patch_model::newlines(open) == 0,
    decreases open.len(),
{
    if open.len() > 0 {
        assert(open.last() == open[open.len() - 1]);
        lemma_no_feeds(open.drop_last());
    }
}

/// A target takes another chunk exactly as long as all of it together has no more than
/// 33554432 bytes and 1000000 line feeds. What is said names the target and the limit.
pub proof fn law_targets_take_their_chunks(path: Seq<char>, content: Seq<u8>, chunk: Seq<u8>)
    ensures
        ({
            let error = patch_model::chunk_error(path, content, chunk);
            let bytes = content.len() + chunk.len();
            let feeds = patch_model::newlines(content) + patch_model::newlines(chunk);
            &&& error is None <==> bytes <= 33554432 && feeds <= 1000000
            &&& bytes > 33554432 ==> error == Some(
                PatchErrorView::Limit("patch target '"@ + path + "' exceeds 33554432 bytes"@),
            )
            &&& bytes <= 33554432 && feeds > 1000000 ==> error == Some(
                PatchErrorView::Limit("patch target '"@ + path + "' exceeds 1000000 lines"@),
            )
        }),
{
    law_line_feeds_are_counted(content, chunk, 0);
}

/// A target that was written as text is read back as that text, where it has no more
/// than 1000000 lines.
pub proof fn law_targets_are_read_back(path: Seq<char>, content: Seq<char>)
    ensures
        ({
            let bytes = vstd::utf8::encode_utf8(content);
            if patch_model::line_count(bytes) <= 1000000 {
                patch_model::target_text(path, bytes) == Ok::<Seq<char>, PatchErrorView>(content)
            } else {
                patch_model::target_text(path, bytes) == Err::<Seq<char>, PatchErrorView>(
                    PatchErrorView::Limit("patch target '"@ + path + "' exceeds 1000000 lines"@),
                )
            }
        }),
{
    vstd::utf8::encode_utf8_valid_utf8(content);
    vstd::utf8::encode_utf8_decode_utf8(content);
}

/// A target that is no text is not read: what is said names it.
pub proof fn law_other_targets_are_refused(path: Seq<char>, bytes: Seq<u8>)
    requires
        forall|content: Seq<char>| #[trigger] vstd::utf8::encode_utf8(content) != bytes,
        patch_model::line_count(bytes) <= 1000000,
    ensures
        patch_model::target_text(path, bytes) matches Err(error) && (error matches PatchErrorView::Io {
            path: named,
            source,
        } && named == path && source.kind == ErrorKind::InvalidData && source.os_error is None),
{
    if vstd::utf8::valid_utf8(bytes) {
        vstd::utf8::decode_utf8_encode_utf8(bytes);
        assert(vstd::utf8::encode_utf8(vstd::utf8::decode_utf8(bytes)) == bytes);
    }
}

/// A call to apply a patch gives one text, which is what is applied. One that is empty,
/// or takes more than 4194304 bytes, is refused.
pub proof fn law_calls_give_their_patch(given: Seq<char>)
    ensures
        ({
            let result = patch::patch_argument(Some(seq![("patch"@, Some(given))]));
            if given.len() == 0 {
                result matches Err(OutputView::Failure { error, .. }) && error.code
                    == "invalid_arguments"@
            } else if vstd::utf8::encode_utf8(given).len() > 4194304 {
                result matches Err(OutputView::Failure { error, .. }) && error.code
                    == "patch_too_large"@ && !error.retryable
            } else {
                result == Ok::<Seq<char>, OutputView>(given)
            }
        }),
        patch::patch_argument(None) is Err,
        patch::patch_argument(Some(Seq::empty())) is Err,
        patch::patch_argument(Some(seq![("patch"@, None)])) is Err,
{
    let members = seq![("patch"@, Some(given))];
    assert(members[0] == ("patch"@, Some(given)));
    let empty = seq![("patch"@, None::<Seq<char>>)];
    assert(empty[0] == ("patch"@, None::<Seq<char>>));
    let allowed = seq!["patch"@];
    assert(allowed[0] == "patch"@);
    assert(allowed.contains("patch"@));
    reveal_with_fuel(tool_support::member, 2);
    reveal_with_fuel(tool_support::unknown_member, 3);
}

/// A call to apply a patch that comes with anything but its patch is refused.
pub proof fn law_other_patch_arguments_are_refused(
    members: Seq<(Seq<char>, Option<Seq<char>>)>,
    at: int,
)
    requires
        0 <= at < members.len(),
        members[at].0 != "patch"@,
    ensures
        patch::patch_argument(Some(members)) is Err,
{
    lemma_unknown(members, 0, at);
}

proof fn lemma_unknown(members: Seq<(Seq<char>, Option<Seq<char>>)>, from: int, at: int)
    requires
        0 <= from <= at < members.len(),
        members[at].0 != "patch"@,
    ensures
        tool_support::unknown_member(members, seq!["patch"@], from) is Some,
    decreases at - from,
{
    let allowed = seq!["patch"@];
    if from < at {
        lemma_unknown(members, from + 1, at);
    } else {
        if allowed.contains(members[at].0) {
            let i = choose|i: int| 0 <= i < allowed.len() && allowed[i] == members[at].0;
            assert(i == 0);
        }
    }
}

} // verus!
