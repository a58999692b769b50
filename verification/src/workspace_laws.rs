//! What a request for a path in a workspace comes to.

use crate::path;
use crate::path::ComponentView;
use crate::path_text_laws;
use crate::text;
use crate::text_laws;
use crate::workspace;
use crate::workspace::GitWorktreeView;
use vstd::prelude::*;

verus! {

/// Whether a root is the path of a directory with a name, without `.` and `..`
/// steps.
pub open spec fn is_root(root: Seq<char>) -> bool {
    &&& path::is_absolute(root)
    &&& root.last() != '/'
    &&& path::normalized(root) == path::components(root)
    &&& path::components(root).last() is Normal
}

proof fn lemma_joined(root: Seq<char>, requested: Seq<char>, name: Seq<char>)
    requires
        requested.len() > 0,
        !path::is_absolute(requested),
    ensures
        path::joined(root, requested.push('/') + name) == path::joined(root, requested).push('/')
            + name,
        path::joined(root, requested).len() > 0,
{
    assert((requested.push('/') + name)[0] == requested[0]);
    assert(path::joined(root, requested.push('/') + name) =~= path::joined(root, requested).push(
        '/',
    ) + name);
}

/// A request for a name is that name below the root, one for `.` is the root, and
/// one for `..` leaves it.
pub proof fn law_single_names_are_requested(root: Seq<char>, name: Seq<char>)
    requires
        is_root(root),
        !name.contains('/'),
    ensures
        path_text_laws::is_name(name) ==> workspace::request_components(root, name) == Some(
            seq![ComponentView::Normal(name)],
        ),
        path_text_laws::is_name(name) ==> workspace::request_path(root, name) == Some(name),
        name == "."@ || name == ""@ ==> workspace::request_path(root, name) == Some("."@),
        name == ".."@ ==> workspace::request_path(root, name) is None,
{
    reveal_strlit("");
    reveal_strlit(".");
    reveal_strlit("..");
    if path::is_absolute(name) {
        assert(name.contains(name[0]));
    }
    assert(root.len() > 0);
    assert(path::joined(root, name) == root.push('/') + name);
    path_text_laws::law_normalized_paths_go_on(root, name);
    let base = path::components(root);
    let lexical = path::normalized(path::joined(root, name));
    if path_text_laws::is_name(name) {
        assert(lexical =~= base.push(ComponentView::Normal(name)));
        assert(lexical.subrange(0, base.len() as int) =~= base);
        let parts = lexical.skip(base.len() as int);
        assert(parts =~= seq![ComponentView::Normal(name)]);
        reveal_with_fuel(path::rendered_to, 2);
        assert(path::rendered_to(parts, 0) =~= Seq::<char>::empty());
        assert(path::rendered(parts) =~= name);
    } else if name == ".."@ {
        assert(lexical.len() < base.len());
    } else {
        assert(lexical == base);
        assert(lexical.subrange(0, base.len() as int) =~= base);
        assert(lexical.skip(base.len() as int).len() == 0);
    }
}

/// A request that goes on with a name behind a slash is the request before the slash
/// with that name behind it, and one that goes on with `.`, or with a name and `..`
/// behind it, is the request before the slash.
pub proof fn law_requests_go_on(root: Seq<char>, requested: Seq<char>, name: Seq<char>)
    requires
        is_root(root),
        requested.len() > 0,
        !path::is_absolute(requested),
        path_text_laws::is_name(name),
    ensures
        workspace::request_components(root, requested) matches Some(parts)
            ==> workspace::request_components(root, requested.push('/') + name) == Some(
            parts.push(ComponentView::Normal(name)),
        ),
        workspace::request_components(root, requested.push('/') + "."@)
            == workspace::request_components(root, requested),
        workspace::request_components(root, requested.push('/') + ""@)
            == workspace::request_components(root, requested),
        workspace::request_components(root, (requested.push('/') + name).push('/') + ".."@)
            == workspace::request_components(root, requested),
{
    reveal_strlit("");
    reveal_strlit(".");
    reveal_strlit("..");
    let whole = path::joined(root, requested);
    let named = requested.push('/') + name;
    lemma_joined(root, requested, name);
    lemma_joined(root, requested, "."@);
    lemma_joined(root, requested, ""@);
    assert(named[0] == requested[0]);
    lemma_joined(root, named, ".."@);
    assert(!"."@.contains('/') && !""@.contains('/'));
    assert(!".."@.contains('/')) by {
        if ".."@.contains('/') {
            let i = choose|i: int| 0 <= i < ".."@.len() && ".."@[i] == '/';
            assert(i == 0 || i == 1);
        }
    }
    path_text_laws::law_normalized_paths_go_on(whole, name);
    path_text_laws::law_normalized_paths_go_on(whole, "."@);
    path_text_laws::law_normalized_paths_go_on(whole, ""@);
    path_text_laws::law_normalized_paths_go_on(whole.push('/') + name, ".."@);
    let base = path::components(root);
    let lexical = path::normalized(whole);
    let longer = lexical.push(ComponentView::Normal(name));
    assert(longer.drop_last() =~= lexical);
    if base.is_prefix_of(lexical) {
        assert(longer.subrange(0, base.len() as int) =~= lexical.subrange(0, base.len() as int));
        assert(longer.skip(base.len() as int) =~= lexical.skip(base.len() as int).push(
            ComponentView::Normal(name),
        ));
    }
}

/// A request that names the root first is the request for what follows it.
pub proof fn law_the_root_may_be_named(root: Seq<char>, requested: Seq<char>)
    requires
        is_root(root),
        !path::is_absolute(requested),
    ensures
        workspace::request_components(root, path::joined(root, requested))
            == workspace::request_components(root, requested),
        workspace::request_path(root, path::joined(root, requested)) == workspace::request_path(
            root,
            requested,
        ),
{
    let whole = path::joined(root, requested);
    assert(whole[0] == root[0]);
    assert(path::joined(root, whole) == whole);
}

/// A request that starts at the root of the file system, outside the workspace, is
/// refused where it goes on with names alone.
pub proof fn law_other_places_are_refused(root: Seq<char>, requested: Seq<char>)
    requires
        path::is_absolute(requested),
        path::normalized(requested) == path::components(requested),
        !path::components(root).is_prefix_of(path::components(requested)),
    ensures
        workspace::request_path(root, requested) is None,
{
}

/// What Git says of a worktree is read line by line: its root, its directory, and
/// the directory that it shares; with a line more or fewer nothing is read.
pub proof fn law_worktrees_are_read_line_by_line(
    root: Seq<char>,
    directory: Seq<char>,
    shared: Seq<char>,
    more: Seq<char>,
)
    requires
        !root.contains('\n') && !directory.contains('\n') && !shared.contains('\n'),
        !root.contains('\r') && !directory.contains('\r') && !shared.contains('\r'),
    ensures
        workspace::git_worktree_lines(
            root.push('\n') + (directory.push('\n') + (shared.push('\n') + more)),
        ) == if more.len() == 0 {
            Some(GitWorktreeView { worktree_root: root, git_dir: directory, common_dir: shared })
        } else {
            None
        },
        workspace::git_worktree_lines(root.push('\n') + directory.push('\n')) is None,
{
    let none = Seq::<char>::empty();
    let third = shared.push('\n') + more;
    let second = directory.push('\n') + third;
    text_laws::law_lines_are_read_one_by_one(root, second);
    text_laws::law_lines_are_read_one_by_one(directory, third);
    text_laws::law_lines_are_read_one_by_one(shared, more);
    text_laws::law_lines_are_read_one_by_one(root, directory.push('\n'));
    text_laws::law_lines_are_read_one_by_one(directory, none);
    assert(directory.push('\n') + none =~= directory.push('\n'));
    if root.len() > 0 {
        assert(root.contains(root.last()));
    }
    if directory.len() > 0 {
        assert(directory.contains(directory.last()));
    }
    if shared.len() > 0 {
        assert(shared.contains(shared.last()));
    }
    if more.len() == 0 {
        assert(more =~= none);
    } else {
        lemma_some_line(more);
    }
    let lines = text::lines_of(root.push('\n') + second);
    assert(lines[0] == root && lines[1] == directory && lines[2] == shared);
}

proof fn lemma_some_line(content: Seq<char>)
    requires
        content.len() > 0,
    ensures
        text::lines_of(content).len() > 0,
{
    text_laws::law_pieces_hold_no_separator(content, '\n');
    text::lemma_first_position(content, '\n', 0);
    match text::first_position(content, '\n', 0) {
        Some(position) => {
            let line = content.take(position);
            assert(content =~= line.push('\n') + content.skip(position + 1));
            assert(!line.contains('\n'));
            text_laws::law_lines_are_read_one_by_one(line, content.skip(position + 1));
        },
        None => {
            assert(!content.contains('\n'));
            text_laws::law_lines_are_read_one_by_one(content, Seq::empty());
        },
    }
}

} // verus!
