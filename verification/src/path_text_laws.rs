//! What holds of every path that is read step by step.

use crate::path;
use crate::path::ComponentView;
use crate::text;
use crate::text_laws;
use vstd::prelude::*;

verus! {

/// The steps that a name between two slashes stands for, where it does not lead a
/// relative path.
pub open spec fn steps_of(name: Seq<char>) -> Seq<ComponentView> {
    if name == ""@ || name == "."@ {
        Seq::empty()
    } else if name == ".."@ {
        seq![ComponentView::ParentDir]
    } else {
        seq![ComponentView::Normal(name)]
    }
}

proof fn lemma_more_pieces(
    pieces: Seq<Seq<char>>,
    more: Seq<Seq<char>>,
    absolute: bool,
    count: nat,
)
    requires
        pieces.len() > 0,
        count <= more.len(),
    ensures
        path::piece_components(pieces + more, absolute, pieces.len() + count)
            == path::piece_components(pieces, absolute, pieces.len()) + path::piece_components(
            more,
            true,
            count,
        ),
    decreases count,
{
    let all = pieces + more;
    if count == 0 {
        lemma_same_pieces(pieces, all, absolute, pieces.len());
        assert(path::piece_components(more, true, 0) =~= Seq::<ComponentView>::empty());
        assert(path::piece_components(all, absolute, pieces.len()) =~= path::piece_components(
            pieces,
            absolute,
            pieces.len(),
        ) + Seq::<ComponentView>::empty());
    } else {
        lemma_more_pieces(pieces, more, absolute, (count - 1) as nat);
        let total = pieces.len() + count;
        assert(all[total - 1] == more[count - 1]);
        let front = path::piece_components(pieces, absolute, pieces.len());
        let back = path::piece_components(more, true, (count - 1) as nat);
        assert(path::piece_components(all, absolute, (total - 1) as nat) == front + back);
        if let Some(component) = path::piece_component(more[count - 1], false) {
            assert((front + back).push(component) =~= front + back.push(component));
        }
    }
}

proof fn lemma_same_pieces(
    pieces: Seq<Seq<char>>,
    others: Seq<Seq<char>>,
    absolute: bool,
    count: nat,
)
    requires
        count <= pieces.len(),
        count <= others.len(),
        forall|i: int| 0 <= i < count ==> #[trigger] pieces[i] == others[i],
    ensures
        path::piece_components(pieces, absolute, count) == path::piece_components(
            others,
            absolute,
            count,
        ),
    decreases count,
{
    if count > 0 {
        lemma_same_pieces(pieces, others, absolute, (count - 1) as nat);
        assert(pieces[count - 1] == others[count - 1]);
    }
}

/// The steps of a path that goes on behind a slash are the steps before the slash
/// and then those behind it; a slash at the very beginning is the root.
pub proof fn law_steps_go_on_behind_a_slash(head: Seq<char>, name: Seq<char>)
    requires
        !name.contains('/'),
    ensures
        head.len() > 0 ==> path::components(head.push('/') + name) == path::components(head)
            + steps_of(name),
        head.len() == 0 ==> path::components(head.push('/') + name) == seq![ComponentView::RootDir]
            + steps_of(name),
{
    reveal_strlit("");
    let whole = head.push('/') + name;
    text_laws::law_pieces_of_joined_texts(head, '/', name);
    text_laws::law_pieces_of_joined_texts(name, '/', Seq::empty());
    text_laws::law_pieces_hold_no_separator(head, '/');
    let pieces = text::split(head, '/');
    let more = seq![name];
    assert(text::split(whole, '/') == pieces + more);
    let absolute = path::is_absolute(whole);
    lemma_more_pieces(pieces, more, absolute, 1);
    reveal_with_fuel(path::piece_components, 2);
    assert(path::piece_components(more, true, 0) =~= Seq::<ComponentView>::empty());
    assert(more[0] == name);
    if name.len() == 0 {
        assert(name =~= ""@);
    }
    assert(path::piece_components(more, true, 1) =~= steps_of(name));
    if head.len() > 0 {
        assert(whole[0] == head[0]);
        let body = path::piece_components(pieces, absolute, pieces.len());
        let steps = steps_of(name);
        if absolute {
            let root = seq![ComponentView::RootDir];
            assert(root + (body + steps) =~= (root + body) + steps);
        }
    } else {
        assert(whole[0] == '/');
        text_laws::law_pieces_of_joined_texts(head, '/', head);
        assert(!head.contains('/'));
        assert(pieces == seq![head]);
        assert(path::piece_components(pieces, true, 1) =~= Seq::<ComponentView>::empty());
        let root = seq![ComponentView::RootDir];
        assert(root + (Seq::<ComponentView>::empty() + steps_of(name)) =~= root + steps_of(name));
    }
}

/// A path without a slash is one step, or none where it is empty.
pub proof fn law_a_name_is_one_step(name: Seq<char>)
    requires
        !name.contains('/'),
    ensures
        path::components(name) == if name == "."@ {
            seq![ComponentView::CurDir]
        } else {
            steps_of(name)
        },
{
    reveal_strlit("");
    reveal_strlit(".");
    reveal_strlit("..");
    text_laws::law_pieces_of_joined_texts(name, '/', Seq::empty());
    assert(!path::is_absolute(name)) by {
        if path::is_absolute(name) {
            assert(name.contains(name[0]));
        }
    }
    let pieces = seq![name];
    assert(text::split(name, '/') == pieces);
    reveal_with_fuel(path::piece_components, 2);
    assert(pieces[0] == name);
    if name.len() == 0 {
        assert(name =~= ""@);
    }
    assert(path::piece_components(pieces, false, 0) =~= Seq::<ComponentView>::empty());
    assert(path::components(name) =~= if name == "."@ {
        seq![ComponentView::CurDir]
    } else {
        steps_of(name)
    });
}

/// A relative path below a directory has the steps of the directory first: joining
/// never leaves the directory by itself.
pub proof fn law_joined_paths_begin_with_their_base(base: Seq<char>, tail: Seq<char>)
    requires
        base.len() > 0,
        !path::is_absolute(tail),
    ensures
        path::is_within(path::joined(base, tail), base),
        base.is_prefix_of(path::joined(base, tail)),
        tail.is_suffix_of(path::joined(base, tail)),
{
    let whole = path::joined(base, tail);
    let head = if base.last() == '/' {
        base.drop_last()
    } else {
        base
    };
    assert(whole =~= head.push('/') + tail);
    assert(base =~= whole.take(base.len() as int));
    text_laws::law_pieces_of_joined_texts(head, '/', tail);
    text_laws::law_pieces_of_joined_texts(head, '/', Seq::empty());
    text_laws::law_pieces_of_joined_texts(Seq::empty(), '/', Seq::empty());
    text_laws::law_pieces_hold_no_separator(head, '/');
    let pieces = text::split(head, '/');
    let more = text::split(tail, '/');
    let none = Seq::<char>::empty();
    assert(!none.contains('/'));
    let absolute = path::is_absolute(whole);
    assert(whole[0] == base[0]);
    lemma_more_pieces(pieces, more, absolute, more.len());
    if base.last() == '/' {
        assert(base =~= head.push('/') + none);
        assert(text::split(base, '/') == pieces + seq![none]);
        lemma_more_pieces(pieces, seq![none], absolute, 1);
        reveal_with_fuel(path::piece_components, 2);
        assert(seq![none][0] == none);
        assert(path::piece_components(seq![none], true, 1) =~= Seq::<ComponentView>::empty());
        let front = path::piece_components(pieces, absolute, pieces.len());
        assert(front + Seq::<ComponentView>::empty() =~= front);
    }
    let front = path::piece_components(pieces, absolute, pieces.len());
    let back = path::piece_components(more, true, more.len());
    if absolute {
        let root = seq![ComponentView::RootDir];
        assert(path::components(base) =~= root + front);
        assert(path::components(whole) =~= (root + front) + back);
    } else {
        assert(path::components(base) =~= front);
        assert(path::components(whole) =~= front + back);
    }
    assert(path::components(base).is_prefix_of(path::components(whole)));
}

proof fn lemma_parent_piece(pieces: Seq<Seq<char>>, absolute: bool, count: nat)
    requires
        count <= pieces.len(),
    ensures
        path::piece_components(pieces, absolute, count).contains(ComponentView::ParentDir) <==> exists|
            i: int,
        | 0 <= i < count && #[trigger] pieces[i] == ".."@,
    decreases count,
{
    reveal_strlit("..");
    reveal_strlit(".");
    assert(".."@.len() == 2 && "."@.len() == 1);
    if count > 0 {
        lemma_parent_piece(pieces, absolute, (count - 1) as nat);
        let earlier = path::piece_components(pieces, absolute, (count - 1) as nat);
        if let Some(component) = path::piece_component(
            pieces[count - 1],
            !absolute && count == 1,
        ) {
            text::lemma_contains_after_push(earlier, component, ComponentView::ParentDir);
        }
    }
}

/// A path steps to a parent directory exactly where `..` stands between two of its
/// slashes.
pub proof fn law_parent_steps_are_two_dots(path: Seq<char>)
    ensures
        path::has_parent_step(path) <==> text::split(path, '/').contains(".."@),
{
    let pieces = text::split(path, '/');
    let absolute = path::is_absolute(path);
    lemma_parent_piece(pieces, absolute, pieces.len());
    let body = path::piece_components(pieces, absolute, pieces.len());
    if absolute {
        let all = seq![ComponentView::RootDir] + body;
        if body.contains(ComponentView::ParentDir) {
            let i = choose|i: int| 0 <= i < body.len() && body[i] == ComponentView::ParentDir;
            assert(all[i + 1] == ComponentView::ParentDir);
        }
        if all.contains(ComponentView::ParentDir) {
            let i = choose|i: int| 0 <= i < all.len() && all[i] == ComponentView::ParentDir;
            assert(body[i - 1] == ComponentView::ParentDir);
        }
    }
}

/// The name of a file is what stands behind the last slash.
pub proof fn law_file_names_stand_behind_the_last_slash(head: Seq<char>, name: Seq<char>)
    requires
        !name.contains('/'),
        name != ""@ && name != "."@ && name != ".."@,
    ensures
        path::file_name(head.push('/') + name) == Some(name),
        path::file_name(name) == Some(name),
{
    law_steps_go_on_behind_a_slash(head, name);
    law_a_name_is_one_step(name);
    assert(path::components(head.push('/') + name).last() == ComponentView::Normal(name));
    assert(path::components(name).last() == ComponentView::Normal(name));
}

/// Whether a text is the name of a file or a directory.
pub open spec fn is_name(name: Seq<char>) -> bool {
    name != ""@ && name != "."@ && name != ".."@ && !name.contains('/')
}

proof fn lemma_piece_names(pieces: Seq<Seq<char>>, absolute: bool, count: nat)
    requires
        count <= pieces.len(),
        forall|i: int| 0 <= i < pieces.len() ==> !(#[trigger] pieces[i]).contains('/'),
    ensures
        forall|i: int|
            0 <= i < path::piece_components(pieces, absolute, count).len() ==> {
                let part = #[trigger] path::piece_components(pieces, absolute, count)[i];
                &&& !(part is RootDir)
                &&& part matches ComponentView::Normal(name) ==> is_name(name)
            },
    decreases count,
{
    reveal_strlit("");
    if count > 0 {
        lemma_piece_names(pieces, absolute, (count - 1) as nat);
    }
}

/// The steps of a path are names, but for `.` and `..`, and only the first of them
/// can be the root.
pub proof fn law_steps_are_names(path: Seq<char>)
    ensures
        forall|i: int|
            0 <= i < path::components(path).len() ==> {
                let part = #[trigger] path::components(path)[i];
                &&& part is RootDir ==> i == 0
                &&& part matches ComponentView::Normal(name) ==> is_name(name)
            },
{
    let pieces = text::split(path, '/');
    text_laws::law_pieces_hold_no_separator(path, '/');
    let absolute = path::is_absolute(path);
    lemma_piece_names(pieces, absolute, pieces.len());
    let body = path::piece_components(pieces, absolute, pieces.len());
    let all = path::components(path);
    assert forall|i: int| 0 <= i < all.len() implies {
        let part = #[trigger] all[i];
        &&& part is RootDir ==> i == 0
        &&& part matches ComponentView::Normal(name) ==> is_name(name)
    } by {
        if absolute {
            if i > 0 {
                assert(all[i] == body[i - 1]);
            }
        } else {
            assert(all[i] == body[i]);
        }
    }
}

proof fn lemma_normal_prefix(parts: Seq<ComponentView>, others: Seq<ComponentView>, count: int)
    requires
        0 <= count <= parts.len(),
        count <= others.len(),
        forall|i: int| 0 <= i < count ==> #[trigger] parts[i] == others[i],
    ensures
        path::normal_components(parts, count) == path::normal_components(others, count),
    decreases count,
{
    if count > 0 {
        lemma_normal_prefix(parts, others, count - 1);
        assert(parts[count - 1] == others[count - 1]);
    }
}

/// A path without its `.` and `..` steps goes on with each name behind a slash, goes
/// back by one name at each `..`, and stays where it is at each `.`.
pub proof fn law_normalized_paths_go_on(head: Seq<char>, name: Seq<char>)
    requires
        head.len() > 0,
        !name.contains('/'),
    ensures
        is_name(name) ==> path::normalized(head.push('/') + name) == path::normalized(head).push(
            ComponentView::Normal(name),
        ),
        name == ""@ || name == "."@ ==> path::normalized(head.push('/') + name)
            == path::normalized(head),
        name == ".."@ && path::normalized(head).len() > 0 && path::normalized(head).last() is Normal
            ==> path::normalized(head.push('/') + name) == path::normalized(head).drop_last(),
{
    reveal_strlit("");
    reveal_strlit(".");
    reveal_strlit("..");
    assert("."@.len() == 1 && ".."@.len() == 2 && ""@.len() == 0);
    law_steps_go_on_behind_a_slash(head, name);
    let before = path::components(head);
    let after = path::components(head.push('/') + name);
    lemma_normal_prefix(before, after, before.len() as int);
    if name == ""@ || name == "."@ {
        assert(after =~= before);
    } else {
        assert(after.len() == before.len() + 1);
        assert(after.last() == steps_of(name)[0]);
    }
}

} // verus!
