//! What is told of patches, denials and output that could not be read.

use crate::capture::{Channel, PairView, ReadView};
use crate::io_failure::{ErrorKind, IoFailureView};
use crate::patch_model;
use crate::patch_model::{PatchErrorView, PublicationView, RecoveryView};
use crate::runtime;
use crate::text;
use crate::tool::{FieldValueView, OutputView};
use crate::tool_support;
use vstd::prelude::*;

verus! {

proof fn lemma_json_len_is_bounded(content: Seq<char>, count: int)
    requires
        0 <= count <= content.len(),
    ensures
        tool_support::json_chars_len(content, count) <= 6 * count,
    decreases count,
{
    if count > 0 {
        lemma_json_len_is_bounded(content, count - 1);
        tool_support::lemma_char_len(content[count - 1]);
    }
}

/// A reason of up to 1000 characters that says something is recorded as it was given,
/// a blank one is replaced, and of a long one the beginning is kept, with a mark that
/// says so.
pub proof fn law_denials_are_recorded_with_their_reason(reason: Seq<char>)
    ensures
        !text::is_blank(reason) && reason.len() <= 1000 ==> runtime::denial_reason(reason)
            == reason,
        text::is_blank(reason) ==> runtime::denial_reason(reason)
            == "approval denied without a reason"@,
        !text::is_blank(reason) ==> runtime::denial_reason(reason) == reason || exists|count: int|
            0 <= count < reason.len() && runtime::denial_reason(reason) == #[trigger] reason.take(
                count,
            ) + "… [truncated]"@,
{
    lemma_json_len_is_bounded(reason, reason.len() as int);
    tool_support::law_cut_texts_fit_their_limit(reason, 8192);
    tool_support::law_cut_texts_fit_their_limit(reason, 8177);
    if !text::is_blank(reason) && tool_support::is_cut(reason, 8192) {
        let kept = tool_support::json_prefix(reason, 8177);
        let count = kept.len() as int;
        assert(reason.take(count) =~= kept);
        assert(count < reason.len()) by {
            if count == reason.len() {
                assert(kept =~= reason);
                assert(tool_support::json_string_len(reason) <= 8177);
            }
        }
    }
}

/// A stream ends where its end is read, and goes on behind bytes and behind a read that
/// was interrupted or would wait, which change nothing of what it has; any other
/// failure ends it and is kept, unless one was kept before.
pub proof fn law_streams_end_at_their_end(pair: PairView, bytes: Seq<u8>, source: IoFailureView)
    requires
        pair.next_read() == Some(Channel::Stdout),
    ensures
        ({
            let ended = pair.after_read(ReadView::End);
            let read = pair.after_read(ReadView::Bytes(bytes));
            let failed = pair.after_read(ReadView::Failed(source));
            &&& ended.stdout.done && ended.error == pair.error
            &&& ended.stdout.capture == pair.stdout.capture
            &&& bytes.len() > 0 ==> !read.stdout.done && read.error == pair.error
            &&& source.kind == ErrorKind::Interrupted || source.kind == ErrorKind::WouldBlock ==> {
                &&& !failed.stdout.done
                &&& failed.stdout.capture == pair.stdout.capture
                &&& failed.error == pair.error
            }
            &&& source.kind != ErrorKind::Interrupted && source.kind != ErrorKind::WouldBlock ==> {
                &&& failed.stdout.done
                &&& failed.stdout.capture == pair.stdout.capture
                &&& failed.error == if pair.error is Some {
                    pair.error
                } else {
                    Some(source)
                }
            }
            &&& ended.stderr == pair.stderr && read.stderr == pair.stderr && failed.stderr
                == pair.stderr
        }),
{
}

/// Whether a recovery says where something was kept.
pub open spec fn kept_at(recovery: RecoveryView) -> Option<Seq<char>> {
    match recovery {
        RecoveryView::LocatedVerified(path) => Some(path),
        RecoveryView::LocatedContentUnverified(path) => Some(path),
        RecoveryView::LocatedPolicyUnverified(path) => Some(path),
        RecoveryView::LocatedContentAndPolicyUnverified(path) => Some(path),
        _ => None,
    }
}

/// Whether the content of what was kept was seen to be right.
pub open spec fn is_verified(recovery: RecoveryView) -> bool {
    recovery is LocatedVerified || recovery is LocatedPolicyUnverified
}

/// What was kept is told of once: as a file to recover from where its content was seen
/// to be right, and as a candidate for one where it was not. Where nothing is known to
/// be kept, nothing is told of.
pub proof fn law_kept_files_are_told_of(recovery: RecoveryView)
    ensures
        kept_at(recovery) matches Some(path) ==> {
            let shown = if path.len() == 0 {
                "."@
            } else {
                path
            };
            if is_verified(recovery) {
                &&& patch_model::recovery_files(recovery) == seq![shown]
                &&& patch_model::recovery_candidates(recovery).len() == 0
            } else {
                &&& patch_model::recovery_files(recovery).len() == 0
                &&& patch_model::recovery_candidates(recovery) == seq![shown]
            }
        },
        kept_at(recovery) is None ==> patch_model::recovery_files(recovery).len() == 0
            && patch_model::recovery_candidates(recovery).len() == 0,
{
}

/// The states that a recovery can be in are told apart by what they are called.
pub proof fn law_recovery_states_are_told_apart(first: RecoveryView, second: RecoveryView)
    requires
        patch_model::recovery_state(first) == patch_model::recovery_state(second),
    ensures
        first is LocatedVerified <==> second is LocatedVerified,
        first is LocatedContentUnverified <==> second is LocatedContentUnverified,
        first is LocatedPolicyUnverified <==> second is LocatedPolicyUnverified,
        first is LocatedContentAndPolicyUnverified <==> second is LocatedContentAndPolicyUnverified,
        first is Unlocated <==> second is Unlocated,
        first is NotApplicableNewFile <==> second is NotApplicableNewFile,
{
    reveal_strlit("located_verified");
    reveal_strlit("located_content_unverified");
    reveal_strlit("located_policy_unverified");
    reveal_strlit("located_content_and_policy_unverified");
    reveal_strlit("unlocated");
    reveal_strlit("not_applicable_new_file");
    assert("located_verified"@.len() == 16);
    assert("located_content_unverified"@.len() == 26);
    assert("located_policy_unverified"@.len() == 25);
    assert("located_content_and_policy_unverified"@.len() == 37);
    assert("unlocated"@.len() == 9);
    assert("not_applicable_new_file"@.len() == 23);
}

/// A failure that came before the new content was visible says that nothing was
/// changed, and one that came after says which file was; neither is to be tried again.
/// Both say what was kept.
pub proof fn law_failed_publications_say_what_changed(
    target: Seq<char>,
    recovery: RecoveryView,
    source: IoFailureView,
)
    requires
        target.len() > 0,
    ensures
        (PatchErrorView::Preserved { target, recovery, source }).output() matches
            OutputView::Failure { error, extensions } && {
            &&& !error.retryable
            &&& "patch_not_published"@.is_prefix_of(error.code)
            &&& extensions[0] == ("publication_state"@, FieldValueView::Text("not_published"@))
            &&& extensions[1] == ("changed_files"@, FieldValueView::Texts(Seq::empty()))
            &&& extensions[2] == (
                "recovery_files"@,
                FieldValueView::Texts(patch_model::recovery_files(recovery)),
            )
            &&& extensions[3] == (
                "recovery_candidates"@,
                FieldValueView::Texts(patch_model::recovery_candidates(recovery)),
            )
        },
        (PatchErrorView::Published { target, recovery, source }).output() matches
            OutputView::Failure { error, extensions } && {
            &&& !error.retryable
            &&& "patch_published"@.is_prefix_of(error.code)
            &&& extensions[0] matches (name, FieldValueView::Text(state)) && name
                == "publication_state"@ && "published"@.is_prefix_of(state)
            &&& extensions[1] == ("changed_files"@, FieldValueView::Texts(seq![target]))
            &&& extensions[2] == (
                "recovery_files"@,
                FieldValueView::Texts(patch_model::recovery_files(recovery)),
            )
            &&& extensions[3] == (
                "recovery_candidates"@,
                FieldValueView::Texts(patch_model::recovery_candidates(recovery)),
            )
        },
{
    lemma_preserved_codes(recovery);
    lemma_published_codes(recovery);
    lemma_published_states(recovery);
}

proof fn lemma_preserved_codes(recovery: RecoveryView)
    ensures
        "patch_not_published"@.is_prefix_of(patch_model::preserved_code(recovery)),
{
    reveal_strlit("patch_not_published");
    reveal_strlit("patch_not_published_with_recovery");
    reveal_strlit("patch_not_published_with_recovery_candidate");
    reveal_strlit("patch_not_published_recovery_unlocated");
    reveal_strlit("patch_not_published_without_recovery");
    let code = patch_model::preserved_code(recovery);
    assert(code.subrange(0, "patch_not_published"@.len() as int) =~= "patch_not_published"@);
}

proof fn lemma_published_codes(recovery: RecoveryView)
    ensures
        "patch_published"@.is_prefix_of(patch_model::published_code(recovery)),
{
    reveal_strlit("patch_published");
    reveal_strlit("patch_published_with_recovery");
    reveal_strlit("patch_published_with_recovery_candidate");
    reveal_strlit("patch_published_recovery_unlocated");
    reveal_strlit("patch_published_without_recovery");
    let code = patch_model::published_code(recovery);
    assert(code.subrange(0, "patch_published"@.len() as int) =~= "patch_published"@);
}

proof fn lemma_published_states(recovery: RecoveryView)
    ensures
        "published"@.is_prefix_of(patch_model::published_state(recovery)),
{
    reveal_strlit("published");
    reveal_strlit("published_with_recovery");
    reveal_strlit("published_recovery_candidate");
    reveal_strlit("published_recovery_unlocated");
    reveal_strlit("published_without_recovery");
    let state = patch_model::published_state(recovery);
    assert(state.subrange(0, "published"@.len() as int) =~= "published"@);
}

/// A publication that went well names the one file that it changed and what it kept of
/// the old one; one that failed is reported with what failed, as one that came before
/// or after the new content was visible.
pub proof fn law_publications_are_reported(
    path: Seq<char>,
    kept: Seq<char>,
    source: IoFailureView,
    recovery: RecoveryView,
)
    requires
        path.len() > 0,
        kept.len() > 0,
    ensures
        patch_model::publication_result(path, PublicationView::Done { recovery: None }) matches Ok(
            result,
        ) && result.changed_files == seq![path] && result.recovery_files.len() == 0,
        patch_model::publication_result(
            path,
            PublicationView::Done { recovery: Some(kept) },
        ) matches Ok(result) && result.changed_files == seq![path] && result.recovery_files
            == seq![kept],
        patch_model::publication_result(
            path,
            PublicationView::BeforePublication { source, recovery: Some(recovery) },
        ) matches Err(PatchErrorView::Preserved { target, recovery: told, source: failed })
            && target == path && told == recovery && failed == source,
        patch_model::publication_result(
            path,
            PublicationView::BeforePublication { source, recovery: None },
        ) matches Err(PatchErrorView::Io { path: target, source: failed }) && target == path
            && failed == source,
        patch_model::publication_result(
            path,
            PublicationView::Published { source, target: path, recovery },
        ) matches Err(PatchErrorView::Published { target, recovery: told, source: failed })
            && target == path && told == recovery && failed == source,
{
}

/// The file that a patch changes is the one that its headers name: both the same, or
/// the only one. A patch that renames a file, or names none, changes nothing.
pub proof fn law_patches_name_their_file(
    name: Seq<char>,
    other: Seq<char>,
    hunks: Seq<patch_model::HunkView>,
)
    requires
        crate::path::components(name) != crate::path::components(other),
    ensures
        patch_model::target_path(
            patch_model::FilePatchView { old_path: Some(name), new_path: Some(name), hunks },
        ) == Ok::<Seq<char>, PatchErrorView>(name),
        patch_model::target_path(
            patch_model::FilePatchView { old_path: None, new_path: Some(name), hunks },
        ) == Ok::<Seq<char>, PatchErrorView>(name),
        patch_model::target_path(
            patch_model::FilePatchView { old_path: Some(name), new_path: None, hunks },
        ) == Ok::<Seq<char>, PatchErrorView>(name),
        patch_model::target_path(
            patch_model::FilePatchView { old_path: Some(name), new_path: Some(other), hunks },
        ) matches Err(PatchErrorView::InvalidPatch(_)),
        patch_model::target_path(
            patch_model::FilePatchView { old_path: None, new_path: None, hunks },
        ) matches Err(PatchErrorView::InvalidPatch(_)),
{
}

/// A patch changes a file that exists only where it names it on both sides, makes one
/// only where there is none, and removes none.
pub proof fn law_patches_fit_what_there_is(
    name: Seq<char>,
    content: Seq<char>,
    hunks: Seq<patch_model::HunkView>,
)
    ensures
        ({
            let changes = patch_model::FilePatchView {
                old_path: Some(name),
                new_path: Some(name),
                hunks,
            };
            let makes = patch_model::FilePatchView { old_path: None, new_path: Some(name), hunks };
            let removes = patch_model::FilePatchView { old_path: Some(name), new_path: None, hunks };
            &&& patch_model::prepare_change(changes, Some(content)) == patch_model::apply_hunks(
                content,
                hunks,
            )
            &&& patch_model::prepare_change(changes, None) matches Err(PatchErrorView::Conflict(_))
            &&& patch_model::prepare_change(makes, None) == patch_model::apply_hunks(
                Seq::empty(),
                hunks,
            )
            &&& patch_model::prepare_change(makes, Some(content)) matches Err(
                PatchErrorView::Conflict(_),
            )
            &&& patch_model::prepare_change(removes, Some(content)) matches Err(
                PatchErrorView::InvalidPatch(_),
            )
        }),
{
}

} // verus!
