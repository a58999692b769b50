//! What a workspace answers where a path cannot be reached, and where it puts what it
//! writes.

use crate::io_failure::{ErrorKind, IoFailureView};
use crate::path;
use crate::path::ComponentView;
use crate::path_text_laws;
use crate::text;
use crate::text_laws;
use crate::workspace;
use crate::workspace::{
    CodingWorkspaceError, GitProbeOutput, GitWorktreeContext, PathErrorView, WorkspaceErrorView,
};
use vstd::prelude::*;

verus! {

/// A lookup that was refused because it led out of the workspace is told as that, with
/// the root. Any other failure is told with the path and the failure itself.
pub proof fn law_failed_lookups_are_told(
    root: Seq<char>,
    path: Seq<char>,
    source: IoFailureView,
    before: Seq<char>,
    behind: Seq<char>,
)
    ensures
        source.kind == ErrorKind::PermissionDenied && source.message == before
            + "outside of the filesystem"@ + behind ==> workspace::access_error(root, path, source)
            == (PathErrorView::OutsideWorkspace { path, root }),
        source.kind != ErrorKind::PermissionDenied ==> workspace::access_error(root, path, source)
            == (PathErrorView::Access { path, source }),
        source.message.len() < 25 ==> workspace::access_error(root, path, source)
            == (PathErrorView::Access { path, source }),
        workspace::access_error(root, path, source) matches PathErrorView::OutsideWorkspace {
            path: named,
            root: of,
        } ==> named == path && of == root && exists|at: int|
            0 <= at <= source.message.len() - 25 && source.message.subrange(at, #[trigger] (at + 25))
                == "outside of the filesystem"@,
{
    reveal_strlit("outside of the filesystem");
    let part = "outside of the filesystem"@;
    assert(part.len() == 25);
    let message = before + part + behind;
    assert(message.subrange(before.len() as int, before.len() as int + part.len()) =~= part);
    assert(text::stands_at(message, part, before.len() as int));
    if workspace::is_escape(source) {
        let at = choose|at: int| #[trigger] text::stands_at(source.message, part, at);
        assert(source.message.subrange(at, at + 25) == part);
    }
}

/// A request that leaves the workspace is told with the root, and with the path that it
/// leads to: an absolute one by itself.
pub proof fn law_requests_outside_are_told(root: Seq<char>, name: Seq<char>)
    requires
        path_text_laws::is_name(name),
    ensures
        workspace::outside_error(root, seq!['/'] + name) == (PathErrorView::OutsideWorkspace {
            path: seq!['/'] + name,
            root,
        }),
{
    reveal_strlit("");
    reveal_strlit("/");
    let requested = seq!['/'] + name;
    let empty = Seq::<char>::empty();
    assert(requested =~= empty.push('/') + name);
    assert(requested[0] == '/');
    assert(path::joined(root, requested) == requested);
    path_text_laws::law_steps_go_on_behind_a_slash(empty, name);
    let parts = path::normalized(requested);
    assert(path::components(requested) =~= seq![
        ComponentView::RootDir,
        ComponentView::Normal(name),
    ]);
    reveal_with_fuel(path::normal_components, 3);
    assert(parts =~= seq![ComponentView::RootDir, ComponentView::Normal(name)]);
    assert(path::rendered(parts) =~= requested) by {
        assert(parts[0] == ComponentView::RootDir);
        assert(parts[1] == ComponentView::Normal(name));
        reveal_with_fuel(path::rendered_to, 3);
        assert("/"@ =~= seq!['/']);
        assert(!path::is_absolute(name)) by {
            if path::is_absolute(name) {
                assert(name.contains(name[0]));
            }
        }
    }
}

/// A file stands in its directory: its path is the directory with the name of the file
/// behind it.
pub proof fn law_files_stand_in_their_directory(above: Seq<ComponentView>, name: Seq<char>)
    ensures
        ({
            let parts = above.push(ComponentView::Normal(name));
            path::joined(workspace::parent_path(parts), name) == path::rendered(parts)
        }),
        workspace::parent_path(seq![ComponentView::Normal(name)]) == Seq::<char>::empty(),
{
    let parts = above.push(ComponentView::Normal(name));
    assert(parts.drop_last() =~= above);
    lemma_same_steps(parts, above, above.len() as int);
    let single = seq![ComponentView::Normal(name)];
    assert(single.drop_last() =~= Seq::<ComponentView>::empty());
}

proof fn lemma_same_steps(parts: Seq<ComponentView>, others: Seq<ComponentView>, count: int)
    requires
        0 <= count <= parts.len(),
        count <= others.len(),
        forall|i: int| 0 <= i < count ==> #[trigger] parts[i] == others[i],
    ensures
        path::rendered_to(parts, count) == path::rendered_to(others, count),
    decreases count,
{
    if count > 0 {
        lemma_same_steps(parts, others, count - 1);
        assert(parts[count - 1] == others[count - 1]);
    }
}

/// What is staged has a name of its own: it tells the process and the attempt, so that
/// no two of them share one, and it is the name of a file beside the target.
pub proof fn law_staged_files_have_their_own_name(
    process: u32,
    nonce: u64,
    other_process: u32,
    other_nonce: u64,
)
    ensures
        workspace::staging_name(process, nonce) == workspace::staging_name(
            other_process,
            other_nonce,
        ) ==> process == other_process && nonce == other_nonce,
        !workspace::staging_name(process, nonce).contains('/'),
        ".young-agent-patch-"@.is_prefix_of(workspace::staging_name(process, nonce)),
        ".tmp"@.is_suffix_of(workspace::staging_name(process, nonce)),
{
    reveal_strlit(".young-agent-patch-");
    reveal_strlit("-");
    reveal_strlit(".tmp");
    lemma_staged(process, nonce);
    lemma_staged(other_process, other_nonce);
    let front = ".young-agent-patch-"@;
    if workspace::staging_name(process, nonce) == workspace::staging_name(
        other_process,
        other_nonce,
    ) {
        text_laws::law_decimal_texts_differ(process as nat, other_process as nat);
        text_laws::law_decimal_texts_differ(nonce as nat, other_nonce as nat);
    }
    let name = workspace::staging_name(process, nonce);
    assert(name.subrange(0, front.len() as int) =~= front);
    assert(name.subrange(name.len() - 4, name.len() as int) =~= ".tmp"@);
    text_laws::law_decimal_texts_are_worth_their_number(process as nat);
    text_laws::law_decimal_texts_are_worth_their_number(nonce as nat);
    let one = text::decimal_text(process as nat);
    let two = text::decimal_text(nonce as nat);
    assert forall|i: int| 0 <= i < name.len() implies #[trigger] name[i] != '/' by {
        let behind = front.len() + one.len();
        if i < front.len() {
            assert(name[i] == front[i]);
        } else if i < behind {
            assert(name[i] == one[i - front.len()]);
        } else if i == behind {
            assert(name[i] == '-');
        } else if i < behind + 1 + two.len() {
            assert(name[i] == two[i - behind - 1]);
        } else {
            assert(name[i] == ".tmp"@[i - behind - 1 - two.len()]);
        }
    }
}

proof fn lemma_staged(process: u32, nonce: u64)
    ensures
        ({
            let tail = workspace::staging_name(process, nonce).skip(19);
            &&& text::before(tail, '-') == text::decimal_text(process as nat)
            &&& text::after(tail, '-') == Some(text::decimal_text(nonce as nat) + ".tmp"@)
            &&& (text::decimal_text(nonce as nat) + ".tmp"@).drop_last().drop_last().drop_last()
                .drop_last() == text::decimal_text(nonce as nat)
        }),
{
    reveal_strlit(".young-agent-patch-");
    reveal_strlit("-");
    reveal_strlit(".tmp");
    let one = text::decimal_text(process as nat);
    let two = text::decimal_text(nonce as nat);
    text_laws::law_decimal_texts_are_worth_their_number(process as nat);
    assert(!one.contains('-')) by {
        if one.contains('-') {
            let i = choose|i: int| 0 <= i < one.len() && one[i] == '-';
            assert('0' <= one[i] <= '9');
        }
    }
    text_laws::law_texts_are_cut_where_they_were_joined(one, '-', two + ".tmp"@);
    assert(workspace::staging_name(process, nonce).skip(19) =~= one.push('-') + (two + ".tmp"@));
    assert((two + ".tmp"@).drop_last().drop_last().drop_last().drop_last() =~= two);
}

/// A directory in which the probe of Git fails has no worktree. One in which it succeeds
/// has the worktree that the three lines of the output name; any other output is an
/// error that shows it.
pub proof fn law_worktrees_are_what_git_says(
    output: GitProbeOutput,
    result: Result<Option<GitWorktreeContext>, CodingWorkspaceError>,
    stdout: Seq<char>,
)
    requires
        workspace::is_git_outcome(output, result),
        output.stdout@ == vstd::utf8::encode_utf8(stdout),
    ensures
        !output.success <==> result matches Ok(None),
        result matches Ok(Some(git)) ==> text::lines_of(stdout) == seq![
            git@.worktree_root,
            git@.git_dir,
            git@.common_dir,
        ],
        result matches Err(error) ==> output.success && text::lines_of(stdout).len() != 3
            && error@ == (WorkspaceErrorView::UnexpectedGitOutput { stdout }),
{
    vstd::utf8::encode_utf8_valid_utf8(stdout);
    vstd::utf8::encode_utf8_decode_utf8(stdout);
    if let Ok(Some(git)) = result {
        assert(text::lines_of(stdout) =~= seq![
            git@.worktree_root,
            git@.git_dir,
            git@.common_dir,
        ]);
    }
}

} // verus!
