//! What holds of the directories that hold a path.

use crate::path;
use crate::path::ComponentView;
use crate::text;
use vstd::prelude::*;

verus! {

proof fn lemma_split_is_not_empty(path: Seq<char>, from: int)
    requires
        0 <= from <= path.len(),
    ensures
        text::split_from(path, '/', from).len() > 0,
    decreases path.len() - from,
{
    text::lemma_first_position(path, '/', from);
    if let Some(position) = text::first_position(path, '/', from) {
        lemma_split_is_not_empty(path, position + 1);
    }
}

proof fn lemma_first_position_of_push(path: Seq<char>, character: char, from: int)
    requires
        0 <= from <= path.len(),
    ensures
        text::first_position(path, '/', from) is Some ==> text::first_position(
            path.push(character),
            '/',
            from,
        ) == text::first_position(path, '/', from),
        text::first_position(path, '/', from) is None ==> text::first_position(
            path.push(character),
            '/',
            from,
        ) == if character == '/' {
            Some(path.len() as int)
        } else {
            None
        },
    decreases path.len() - from,
{
    let longer = path.push(character);
    if from < path.len() {
        assert(longer[from] == path[from]);
        if path[from] != '/' {
            lemma_first_position_of_push(path, character, from + 1);
        }
    } else {
        assert(longer[from] == character);
        if character != '/' {
            assert(text::first_position(longer, '/', from + 1) is None);
        }
    }
}

/// One more character goes on with the last piece of a path, or begins another.
proof fn lemma_split_of_push(path: Seq<char>, character: char, from: int)
    requires
        0 <= from <= path.len(),
    ensures
        ({
            let pieces = text::split_from(path, '/', from);
            let longer = text::split_from(path.push(character), '/', from);
            longer == if character == '/' {
                pieces.push(Seq::empty())
            } else {
                pieces.drop_last().push(pieces.last().push(character))
            }
        }),
    decreases path.len() - from,
{
    let whole = path.push(character);
    let pieces = text::split_from(path, '/', from);
    let longer = text::split_from(whole, '/', from);
    lemma_first_position_of_push(path, character, from);
    text::lemma_first_position(path, '/', from);
    match text::first_position(path, '/', from) {
        Some(position) => {
            lemma_split_of_push(path, character, position + 1);
            lemma_split_is_not_empty(path, position + 1);
            let first = seq![path.subrange(from, position)];
            let rest = text::split_from(path, '/', position + 1);
            assert(whole.subrange(from, position) =~= path.subrange(from, position));
            assert(pieces == first + rest);
            assert(longer == first + text::split_from(whole, '/', position + 1));
            assert(pieces.last() == rest.last());
            assert(pieces.drop_last() =~= first + rest.drop_last());
            if character == '/' {
                assert(longer =~= pieces.push(Seq::empty()));
            } else {
                assert(longer =~= pieces.drop_last().push(pieces.last().push(character)));
            }
        },
        None => {
            let last = path.skip(from);
            assert(pieces == seq![last]);
            if character == '/' {
                let end = path.len() as int;
                assert(whole.subrange(from, end) =~= last);
                assert(text::first_position(whole, '/', end + 1) is None);
                assert(whole.skip(end + 1) =~= Seq::<char>::empty());
                assert(text::split_from(whole, '/', end + 1) =~= seq![Seq::<char>::empty()]);
                assert(longer =~= pieces.push(Seq::empty()));
            } else {
                assert(whole.skip(from) =~= last.push(character));
                assert(longer =~= pieces.drop_last().push(pieces.last().push(character)));
            }
        },
    }
}

proof fn lemma_components_of_prefix(
    first: Seq<Seq<char>>,
    second: Seq<Seq<char>>,
    absolute: bool,
    count: nat,
)
    requires
        count <= first.len(),
        count <= second.len(),
        forall|i: int| 0 <= i < count ==> first[i] == #[trigger] second[i],
    ensures
        path::piece_components(first, absolute, count) == path::piece_components(
            second,
            absolute,
            count,
        ),
    decreases count,
{
    if count > 0 {
        lemma_components_of_prefix(first, second, absolute, (count - 1) as nat);
        assert(first[count - 1] == second[count - 1]);
    }
}

/// The components of all pieces of a path but the last.
spec fn earlier(path: Seq<char>) -> Seq<ComponentView> {
    let pieces = text::split(path, '/');
    let body = path::piece_components(
        pieces,
        path::is_absolute(path),
        (pieces.len() - 1) as nat,
    );
    if path::is_absolute(path) {
        seq![ComponentView::RootDir] + body
    } else {
        body
    }
}

/// What the last piece of a path contributes.
spec fn latest(path: Seq<char>) -> Option<ComponentView> {
    let pieces = text::split(path, '/');
    path::piece_component(pieces.last(), !path::is_absolute(path) && pieces.len() == 1)
}

proof fn lemma_components_in_two(path: Seq<char>)
    ensures
        path::components(path) == match latest(path) {
            Some(component) => earlier(path).push(component),
            None => earlier(path),
        },
{
    lemma_split_is_not_empty(path, 0);
    let pieces = text::split(path, '/');
    assert(pieces.last() == pieces[pieces.len() - 1]);
    if let Some(component) = latest(path) {
        assert(path::components(path) =~= earlier(path).push(component));
    }
}

/// One more character of a name leaves the earlier pieces as they are.
proof fn lemma_earlier_stays(path: Seq<char>, character: char)
    requires
        character != '/',
    ensures
        earlier(path.push(character)) == earlier(path),
{
    lemma_split_is_not_empty(path, 0);
    lemma_split_of_push(path, character, 0);
    let longer = path.push(character);
    let pieces = text::split(path, '/');
    let more = text::split(longer, '/');
    if path.len() > 0 {
        assert(longer[0] == path[0]);
    } else {
        assert(longer[0] == character);
    }
    lemma_components_of_prefix(
        pieces,
        more,
        path::is_absolute(path),
        (pieces.len() - 1) as nat,
    );
}

/// Some beginning of a path has the components of all its pieces but the last.
proof fn lemma_beginning_before_last_piece(path: Seq<char>) -> (length: int)
    ensures
        0 <= length <= path.len(),
        path::components(path.take(length)) == earlier(path),
    decreases path.len(),
{
    lemma_split_is_not_empty(path, 0);
    lemma_components_in_two(path);
    if text::split(path, '/').last().len() == 0 {
        assert(path.take(path.len() as int) =~= path);
        path.len() as int
    } else {
        assert(path.len() > 0) by {
            if path.len() == 0 {
                assert(text::first_position(path, '/', 0) is None);
                assert(path.skip(0).len() == 0);
            }
        }
        let shorter = path.drop_last();
        assert(shorter.push(path.last()) =~= path);
        lemma_split_of_push(shorter, path.last(), 0);
        assert(path.last() != '/');
        lemma_earlier_stays(shorter, path.last());
        let length = lemma_beginning_before_last_piece(shorter);
        assert(path.take(length) =~= shorter.take(length));
        length
    }
}

/// Some beginning of a path has all its components but the last.
proof fn lemma_beginning_exists(path: Seq<char>) -> (length: int)
    requires
        path::components(path).len() > 0,
        !(path::components(path).last() is RootDir),
    ensures
        0 <= length <= path.len(),
        path::components(path.take(length)) == path::components(path).drop_last(),
    decreases path.len(),
{
    lemma_split_is_not_empty(path, 0);
    lemma_components_in_two(path);
    if latest(path) is Some {
        assert(earlier(path).push(latest(path)->Some_0).drop_last() =~= earlier(path));
        lemma_beginning_before_last_piece(path)
    } else {
        assert(path.len() > 0) by {
            if path.len() == 0 {
                assert(text::first_position(path, '/', 0) is None);
                assert(path.skip(0).len() == 0);
                assert(text::split(path, '/') =~= seq![path.skip(0)]);
            }
        }
        let shorter = path.drop_last();
        assert(shorter.push(path.last()) =~= path);
        lemma_split_is_not_empty(shorter, 0);
        lemma_split_of_push(shorter, path.last(), 0);
        lemma_components_in_two(shorter);
        let pieces = text::split(shorter, '/');
        if path.last() == '/' {
            if shorter.len() == 0 {
                assert(path =~= seq!['/']);
                assert(earlier(path) =~= seq![ComponentView::RootDir]) by {
                    assert(text::first_position(shorter, '/', 0) is None);
                    assert(pieces =~= seq![shorter.skip(0)]);
                    assert(shorter.skip(0).len() == 0);
                    reveal_with_fuel(path::piece_components, 2);
                }
                assert(false);
            }
            assert(path[0] == shorter[0]);
            lemma_components_of_prefix(
                pieces,
                text::split(path, '/'),
                path::is_absolute(path),
                pieces.len(),
            );
            assert(earlier(path) == path::components(shorter));
        } else {
            lemma_earlier_stays(shorter, path.last());
            reveal_strlit(".");
            assert(pieces.last().push(path.last()) =~= "."@);
            assert(pieces.last().len() == 0);
            assert(latest(shorter) is None);
        }
        assert(path::components(shorter) == path::components(path));
        let length = lemma_beginning_exists(shorter);
        assert(path.take(length) =~= shorter.take(length));
        length
    }
}

proof fn lemma_beginning_found(path: Seq<char>, parts: Seq<ComponentView>, at: int, length: int)
    requires
        0 <= at <= length <= path.len(),
        path::components(path.take(length)) == parts,
    ensures
        at <= path::beginning_len(path, parts, at) <= length,
        path::components(path.take(path::beginning_len(path, parts, at))) == parts,
    decreases length - at,
{
    if at < length && path::components(path.take(at)) != parts {
        lemma_beginning_found(path, parts, at + 1, length);
    }
}

/// The directory that holds the last step of a path is a beginning of the path,
/// and has all of its steps but that one.
pub proof fn law_parents_have_all_steps_but_the_last(path: Seq<char>)
    ensures
        path::parent(path) matches Some(found) ==> {
            &&& found.is_prefix_of(path)
            &&& path::components(found) == path::components(path).drop_last()
        },
{
    if path::parent(path) is Some {
        let length = lemma_beginning_exists(path);
        lemma_beginning_found(path, path::components(path).drop_last(), 0, length);
    }
}

} // verus!
