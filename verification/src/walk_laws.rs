//! Which files a walk comes to, and in which order.

use crate::path;
use crate::walk;
use crate::walk::{ActionView, EntryKind, FrameView, WalkView};
use vstd::prelude::*;

verus! {

/// Whether two texts agree in front of `at`, where the first goes on with a lower
/// character.
pub open spec fn is_lower_at(left: Seq<char>, right: Seq<char>, at: int) -> bool {
    &&& 0 <= at < left.len()
    &&& at < right.len()
    &&& left.take(at) == right.take(at)
    &&& left[at] < right[at]
}

proof fn lemma_precedes(left: Seq<char>, right: Seq<char>, at: int)
    requires
        0 <= at <= left.len(),
        at <= right.len(),
        left.take(at) == right.take(at),
    ensures
        walk::precedes(left, right, at) <==> left.is_prefix_of(right) || exists|place: int| #[trigger]
            is_lower_at(left, right, place),
    decreases left.len() - at,
{
    assert forall|i: int| 0 <= i < at implies #[trigger] left[i] == right[i] by {
        assert(left.take(at)[i] == left[i]);
        assert(right.take(at)[i] == right[i]);
    }
    if at >= left.len() {
        assert(left.take(at) =~= left);
        assert(right.subrange(0, left.len() as int) =~= right.take(at));
    } else if at >= right.len() {
        assert(!left.is_prefix_of(right));
        if exists|place: int| #[trigger] is_lower_at(left, right, place) {
            let place = choose|place: int| #[trigger] is_lower_at(left, right, place);
            assert(left[place] == right[place]);
        }
    } else if left[at] != right[at] {
        if left.is_prefix_of(right) {
            assert(right.subrange(0, left.len() as int)[at] == right[at]);
        }
        if left[at] < right[at] {
            assert(is_lower_at(left, right, at));
        }
        if exists|place: int| #[trigger] is_lower_at(left, right, place) {
            let place = choose|place: int| #[trigger] is_lower_at(left, right, place);
            if place < at {
                assert(left[place] == right[place]);
            } else if place > at {
                assert(left.take(place)[at] == right.take(place)[at]);
            }
        }
    } else {
        assert(left.take(at + 1) =~= left.take(at).push(left[at]));
        assert(right.take(at + 1) =~= right.take(at).push(right[at]));
        lemma_precedes(left, right, at + 1);
    }
}

/// Names stand in the order of their characters: a name stands before those that it
/// begins, and before those that have a higher character at the first place where
/// the two differ.
pub proof fn law_names_are_ordered_by_their_characters(left: Seq<char>, right: Seq<char>)
    ensures
        walk::precedes(left, right, 0) <==> left.is_prefix_of(right) || exists|place: int| #[trigger]
            is_lower_at(left, right, place),
{
    assert(left.take(0) =~= right.take(0));
    lemma_precedes(left, right, 0);
}

/// Whether a walk passes over an entry: one that is neither a file nor a directory,
/// and the directories of Git and of what was kept for recovery.
pub open spec fn is_passed_over(entry: (Seq<char>, EntryKind)) -> bool {
    match entry.1 {
        EntryKind::File => false,
        EntryKind::Directory => entry.0 == ".git"@ || entry.0 == ".young-agent-recovery"@,
        _ => true,
    }
}

/// A walk with the entries of its innermost directory done up to `done`.
pub open spec fn done_up_to(walk: WalkView, done: nat) -> WalkView {
    WalkView {
        frames: walk.frames.drop_last().push(FrameView { done, ..walk.frames.last() }),
        ..walk
    }
}

proof fn lemma_passed(walk: WalkView, to: nat)
    requires
        walk.frames.len() > 0,
        walk.frames.last().done <= to <= walk.frames.last().entries.len(),
        forall|i: int|
            walk.frames.last().done <= i < to ==> is_passed_over(
                #[trigger] walk.frames.last().entries[i],
            ),
    ensures
        walk::next(walk) == walk::next(done_up_to(walk, to)),
    decreases to - walk.frames.last().done,
{
    let top = walk.frames.last();
    if top.done < to {
        assert(is_passed_over(top.entries[top.done as int]));
        let after = WalkView { frames: walk::entry_done(walk.frames), ..walk };
        assert(walk::next(walk) == walk::next(after));
        assert(after.frames.last() == (FrameView { done: top.done + 1, ..top }));
        lemma_passed(after, to);
        assert(after.frames.drop_last() =~= walk.frames.drop_last());
        assert(done_up_to(after, to) == done_up_to(walk, to));
    } else {
        assert(done_up_to(walk, to).frames =~= walk.frames);
    }
}

/// A walk comes to the first entry of its innermost directory that it does not pass
/// over: a file is searched, and a directory is listed. Where none is left, it goes
/// on in the directory around it, and where there is none, it is over.
pub proof fn law_walks_come_to_the_next_entry(walk: WalkView, at: nat)
    requires
        walk.frames.len() > 0,
        walk.frames.last().done <= at <= walk.frames.last().entries.len(),
        forall|i: int|
            walk.frames.last().done <= i < at ==> is_passed_over(
                #[trigger] walk.frames.last().entries[i],
            ),
        at < walk.frames.last().entries.len() ==> !is_passed_over(
            walk.frames.last().entries[at as int],
        ),
    ensures
        ({
            let top = walk.frames.last();
            if at == top.entries.len() {
                walk::next(walk) == walk::next(
                    WalkView { frames: walk.frames.drop_last(), ..walk },
                )
            } else {
                let (name, kind) = top.entries[at as int];
                let after = done_up_to(walk, at + 1);
                if kind == EntryKind::File {
                    walk::next(walk) == (after, ActionView::Search(path::joined(top.path, name)))
                } else if walk.frames.len() < 256 {
                    walk::next(walk) == (after, ActionView::List(path::joined(top.path, name)))
                } else {
                    walk::next(walk) == walk::next(WalkView { truncated: true, ..after })
                }
            }
        }),
        forall|other: WalkView|
            other.frames.len() == 0 ==> #[trigger] walk::next(other) == (
                other,
                ActionView::Finished,
            ),
{
    lemma_passed(walk, at);
    let there = done_up_to(walk, at);
    let top = walk.frames.last();
    assert(there.frames.last() == (FrameView { done: at, ..top }));
    assert(there.frames.drop_last() =~= walk.frames.drop_last());
    if at < top.entries.len() {
        assert(walk::entry_done(there.frames) =~= done_up_to(walk, at + 1).frames);
    }
}

} // verus!
