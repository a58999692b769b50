//! Walking the directories below a path in a fixed order, with a bound on how
//! deep it goes.

use crate::path;
use crate::path::join_path;
use crate::text::{chars_of, same_text};
use vstd::prelude::*;

verus! {

/// How many directories may be open inside each other.
pub const MAX_DIRECTORY_DEPTH: usize = 256;

/// What stands behind a name of a directory.
#[derive(Clone, Copy, Debug, PartialEq, Eq, Structural)]
pub enum EntryKind {
    Symlink,
    Directory,
    File,
    Other,
}

/// A name of a directory.
#[derive(Clone, Debug, PartialEq, Eq)]
pub struct DirectoryEntry {
    pub name: String,
    pub kind: EntryKind,
}

impl View for DirectoryEntry {
    type V = (Seq<char>, EntryKind);

    open spec fn view(&self) -> (Seq<char>, EntryKind) {
        (self.name@, self.kind)
    }
}

/// The values of a sequence of entries.
pub open spec fn entry_views(entries: Seq<DirectoryEntry>) -> Seq<(Seq<char>, EntryKind)> {
    entries.map_values(|entry: DirectoryEntry| entry@)
}

/// Whether `left` stands before `right` in the order of characters, or is it,
/// the first `at` characters being equal.
pub open spec fn precedes(left: Seq<char>, right: Seq<char>, at: int) -> bool
    decreases left.len() - at,
{
    if at < 0 || at >= left.len() {
        true
    } else if at >= right.len() {
        false
    } else if left[at] != right[at] {
        left[at] < right[at]
    } else {
        precedes(left, right, at + 1)
    }
}

/// Whether the names of some entries stand in order.
pub open spec fn is_ordered(entries: Seq<(Seq<char>, EntryKind)>) -> bool {
    forall|i: int, j: int|
        0 <= i < j < entries.len() ==> precedes(
            (#[trigger] entries[i]).0,
            (#[trigger] entries[j]).0,
            0,
        )
}

proof fn lemma_precedes_total(left: Seq<char>, right: Seq<char>, at: int)
    requires
        0 <= at,
    ensures
        precedes(left, right, at) || precedes(right, left, at),
    decreases left.len() - at,
{
    if at < left.len() && at < right.len() && left[at] == right[at] {
        lemma_precedes_total(left, right, at + 1);
    }
}

proof fn lemma_precedes_transitive(first: Seq<char>, second: Seq<char>, third: Seq<char>, at: int)
    requires
        0 <= at,
        precedes(first, second, at),
        precedes(second, third, at),
    ensures
        precedes(first, third, at),
    decreases first.len() - at,
{
    if at < first.len() && at < second.len() && at < third.len() && first[at] == second[at]
        && second[at] == third[at] {
        lemma_precedes_transitive(first, second, third, at + 1);
    }
}

fn name_precedes(left: &str, right: &str) -> (result: bool)
    ensures
        result == precedes(left@, right@, 0),
{
    let left_chars = chars_of(left);
    let right_chars = chars_of(right);
    let mut index: usize = 0;
    while index < left_chars.len()
        invariant
            index <= left_chars@.len(),
            left_chars@ == left@,
            right_chars@ == right@,
            precedes(left@, right@, 0) == precedes(left@, right@, index as int),
        decreases left_chars@.len() - index,
    {
        if index >= right_chars.len() {
            return false;
        }
        if left_chars[index] != right_chars[index] {
            return left_chars[index] < right_chars[index];
        }
        index += 1;
    }
    true
}

/// Puts an entry into its place among ordered ones.
fn insert_entry(entries: &mut Vec<DirectoryEntry>, entry: DirectoryEntry)
    requires
        is_ordered(entry_views(old(entries)@)),
    ensures
        is_ordered(entry_views(final(entries)@)),
        entry_views(final(entries)@).to_multiset() == entry_views(
            old(entries)@,
        ).to_multiset().insert(entry@),
{
    let ghost views = entry_views(entries@);
    let ghost added = entry@;
    let mut place: usize = 0;
    while place < entries.len() && name_precedes(
        entries[place].name.as_str(),
        entry.name.as_str(),
    )
        invariant
            place <= entries@.len(),
            entries@ == old(entries)@,
            views == entry_views(entries@),
            added == entry@,
            forall|i: int| 0 <= i < place ==> precedes((#[trigger] views[i]).0, added.0, 0),
        decreases entries@.len() - place,
    {
        assert(views[place as int] == entries@[place as int]@);
        place += 1;
    }
    proof {
        if place < entries@.len() {
            assert(views[place as int] == entries@[place as int]@);
            lemma_precedes_total(views[place as int].0, added.0, 0);
            assert forall|j: int| place <= j < views.len() implies precedes(
                added.0,
                (#[trigger] views[j]).0,
                0,
            ) by {
                if j > place {
                    lemma_precedes_transitive(added.0, views[place as int].0, views[j].0, 0);
                }
            }
        }
    }
    entries.insert(place, entry);
    proof {
        assert(entry_views(entries@) =~= views.insert(place as int, added));
        vstd::seq_lib::to_multiset_insert(views, place as int, added);
        let after = views.insert(place as int, added);
        assert forall|i: int, j: int| 0 <= i < j < after.len() implies precedes(
            (#[trigger] after[i]).0,
            (#[trigger] after[j]).0,
            0,
        ) by {
            let before_i = if i < place {
                i
            } else {
                i - 1
            };
            let before_j = if j < place {
                j
            } else {
                j - 1
            };
            if i != place && j != place {
                assert(after[i] == views[before_i] && after[j] == views[before_j]);
            } else if i == place {
                assert(after[j] == views[before_j]);
            } else {
                assert(after[i] == views[before_i]);
            }
        }
    }
}

/// The entries in the order of their names.
fn sort_entries(entries: Vec<DirectoryEntry>) -> (sorted: Vec<DirectoryEntry>)
    ensures
        is_ordered(entry_views(sorted@)),
        entry_views(sorted@).to_multiset() == entry_views(entries@).to_multiset(),
{
    let ghost views = entry_views(entries@);
    let mut rest = entries;
    let mut sorted: Vec<DirectoryEntry> = Vec::new();
    proof {
        assert(entry_views(sorted@) =~= Seq::empty());
        views.to_multiset_ensures();
        assert(entry_views(sorted@).to_multiset() =~= vstd::multiset::Multiset::empty()) by {
            entry_views(sorted@).to_multiset_ensures();
        }
    }
    while rest.len() > 0
        invariant
            is_ordered(entry_views(sorted@)),
            entry_views(sorted@).to_multiset().add(entry_views(rest@).to_multiset())
                == views.to_multiset(),
        decreases rest@.len(),
    {
        let ghost before = entry_views(rest@);
        let last = match rest.pop() {
            Some(last) => last,
            None => {
                return sorted;
            },
        };
        proof {
            assert(before =~= entry_views(rest@).push(last@));
            vstd::seq_lib::to_multiset_build(entry_views(rest@), last@);
        }
        let ghost earlier = entry_views(sorted@).to_multiset();
        insert_entry(&mut sorted, last);
        assert(earlier.insert(last@).add(entry_views(rest@).to_multiset()) =~= earlier.add(
            entry_views(rest@).to_multiset().insert(last@),
        ));
    }
    proof {
        assert(entry_views(rest@) =~= Seq::empty());
        entry_views(rest@).to_multiset_ensures();
        assert(entry_views(rest@).to_multiset() =~= vstd::multiset::Multiset::empty());
        assert(entry_views(sorted@).to_multiset().add(vstd::multiset::Multiset::empty())
            =~= entry_views(sorted@).to_multiset());
    }
    sorted
}

proof fn lemma_precedes_antisymmetric(left: Seq<char>, right: Seq<char>, at: int)
    requires
        0 <= at <= left.len(),
        at <= right.len(),
        left.take(at) == right.take(at),
        precedes(left, right, at),
        precedes(right, left, at),
    ensures
        left == right,
    decreases left.len() - at,
{
    if at < left.len() && at < right.len() {
        assert(left.take(at + 1) == left.take(at).push(left[at]));
        assert(right.take(at + 1) == right.take(at).push(right[at]));
        lemma_precedes_antisymmetric(left, right, at + 1);
    } else {
        assert(left.take(at) == left);
        assert(right.take(at) == right);
    }
}

/// Whether no two entries have the same name.
pub open spec fn names_differ(entries: Seq<(Seq<char>, EntryKind)>) -> bool {
    forall|i: int, j: int|
        0 <= i < j < entries.len() ==> (#[trigger] entries[i]).0 != (#[trigger] entries[j]).0
}

/// There is one order of the entries of a directory: a walk goes through them
/// the same way, in whatever order they were listed.
pub proof fn law_listing_order_makes_no_difference(
    first: Seq<(Seq<char>, EntryKind)>,
    second: Seq<(Seq<char>, EntryKind)>,
)
    requires
        is_ordered(first),
        is_ordered(second),
        names_differ(first),
        names_differ(second),
        first.to_multiset() == second.to_multiset(),
    ensures
        first == second,
    decreases first.len(),
{
    first.to_multiset_ensures();
    second.to_multiset_ensures();
    if first.len() > 0 {
        let entry = first[0];
        assert(first.contains(entry));
        assert(second.to_multiset().count(entry) > 0);
        assert(second.contains(entry));
        let place = choose|i: int| 0 <= i < second.len() && second[i] == entry;
        let other = second[0];
        assert(second.contains(other));
        assert(first.to_multiset().count(other) > 0);
        assert(first.contains(other));
        let back = choose|i: int| 0 <= i < first.len() && first[i] == other;
        if place > 0 {
            assert(precedes(second[0].0, second[place].0, 0));
            if back > 0 {
                assert(precedes(first[0].0, first[back].0, 0));
                assert(entry.0.take(0) == other.0.take(0));
                lemma_precedes_antisymmetric(entry.0, other.0, 0);
                assert(second[0].0 != second[place].0);
            }
        }
        assert(entry == other);
        let first_rest = first.drop_first();
        let second_rest = second.drop_first();
        assert(first == seq![entry] + first_rest);
        assert(second == seq![entry] + second_rest);
        assert(first.remove(0) == first_rest);
        assert(second.remove(0) == second_rest);
        assert forall|i: int, j: int| 0 <= i < j < first_rest.len() implies precedes(
            (#[trigger] first_rest[i]).0,
            (#[trigger] first_rest[j]).0,
            0,
        ) && first_rest[i].0 != first_rest[j].0 by {
            assert(first_rest[i] == first[i + 1] && first_rest[j] == first[j + 1]);
        }
        assert forall|i: int, j: int| 0 <= i < j < second_rest.len() implies precedes(
            (#[trigger] second_rest[i]).0,
            (#[trigger] second_rest[j]).0,
            0,
        ) && second_rest[i].0 != second_rest[j].0 by {
            assert(second_rest[i] == second[i + 1] && second_rest[j] == second[j + 1]);
        }
        law_listing_order_makes_no_difference(first_rest, second_rest);
    } else {
        assert(second.len() == 0) by {
            if second.len() > 0 {
                assert(second.contains(second[0]));
                assert(first.to_multiset().count(second[0]) > 0);
                assert(first.contains(second[0]));
            }
        }
        assert(first == second);
    }
}

/// An open directory: its path, its entries, and how many of them are done.
pub struct FrameView {
    pub path: Seq<char>,
    pub entries: Seq<(Seq<char>, EntryKind)>,
    pub done: nat,
}

/// Where a walk stands.
pub struct WalkView {
    pub frames: Seq<FrameView>,
    pub directories_visited: u64,
    pub truncated: bool,
}

/// What a walk comes to next.
pub enum ActionView {
    /// The directory is to be listed.
    List(Seq<char>),
    /// The file is to be searched.
    Search(Seq<char>),
    /// The walk is over.
    Finished,
}

/// Directories that a walk does not enter.
pub open spec fn is_reserved(name: Seq<char>) -> bool {
    name == ".git"@ || name == ".young-agent-recovery"@
}

/// How much of the open directories is left to do.
pub open spec fn work_left(frames: Seq<FrameView>) -> nat
    decreases frames.len(),
{
    if frames.len() == 0 {
        0
    } else {
        let top = frames.last();
        work_left(frames.drop_last()) + 1 + if top.done < top.entries.len() {
            (top.entries.len() - top.done) as nat
        } else {
            0
        }
    }
}

/// The open directories with one more entry of the innermost done.
pub open spec fn entry_done(frames: Seq<FrameView>) -> Seq<FrameView> {
    frames.drop_last().push(FrameView { done: frames.last().done + 1, ..frames.last() })
}

/// Both leaving a directory and doing an entry leave less to do.
pub proof fn lemma_work_left_shrinks(frames: Seq<FrameView>)
    requires
        frames.len() > 0,
    ensures
        work_left(frames.drop_last()) < work_left(frames),
        frames.last().done < frames.last().entries.len() ==> work_left(entry_done(frames))
            < work_left(frames),
{
    assert(entry_done(frames).drop_last() =~= frames.drop_last());
}

/// What a walk comes to next, and where it stands then. Links are not followed;
/// a directory that would be too deep is left out, and the walk is truncated.
pub open spec fn next(walk: WalkView) -> (WalkView, ActionView)
    decreases work_left(walk.frames),
{
    if walk.frames.len() == 0 {
        (walk, ActionView::Finished)
    } else {
        proof {
            lemma_work_left_shrinks(walk.frames);
        }
        let top = walk.frames.last();
        if top.done >= top.entries.len() {
            next(WalkView { frames: walk.frames.drop_last(), ..walk })
        } else {
            let (name, kind) = top.entries[top.done as int];
            let after = WalkView { frames: entry_done(walk.frames), ..walk };
            match kind {
                EntryKind::File => (after, ActionView::Search(path::joined(top.path, name))),
                EntryKind::Directory => if is_reserved(name) {
                    next(after)
                } else if walk.frames.len() >= MAX_DIRECTORY_DEPTH {
                    next(WalkView { truncated: true, ..after })
                } else {
                    (after, ActionView::List(path::joined(top.path, name)))
                },
                _ => next(after),
            }
        }
    }
}

struct Frame {
    path: String,
    entries: Vec<DirectoryEntry>,
    done: usize,
}

impl View for Frame {
    type V = FrameView;

    closed spec fn view(&self) -> FrameView {
        FrameView {
            path: self.path@,
            entries: entry_views(self.entries@),
            done: self.done as nat,
        }
    }
}

/// What a walk comes to next.
#[derive(Clone, Debug, PartialEq, Eq)]
pub enum WalkAction {
    List(String),
    Search(String),
    Finished,
}

impl View for WalkAction {
    type V = ActionView;

    open spec fn view(&self) -> ActionView {
        match self {
            WalkAction::List(path) => ActionView::List(path@),
            WalkAction::Search(path) => ActionView::Search(path@),
            WalkAction::Finished => ActionView::Finished,
        }
    }
}

/// A walk below a directory.
pub struct DirectoryWalk {
    frames: Vec<Frame>,
    directories_visited: u64,
    truncated: bool,
}

spec fn frame_views(frames: Seq<Frame>) -> Seq<FrameView> {
    frames.map_values(|frame: Frame| frame@)
}

impl View for DirectoryWalk {
    type V = WalkView;

    closed spec fn view(&self) -> WalkView {
        WalkView {
            frames: frame_views(self.frames@),
            directories_visited: self.directories_visited,
            truncated: self.truncated,
        }
    }
}

impl DirectoryWalk {
    /// A walk that has not entered its first directory.
    pub fn new() -> (walk: DirectoryWalk)
        ensures
            walk@ == (WalkView {
                frames: Seq::empty(),
                directories_visited: 0,
                truncated: false,
            }),
    {
        let walk = DirectoryWalk { frames: Vec::new(), directories_visited: 0, truncated: false };
        assert(frame_views(walk.frames@) =~= Seq::<FrameView>::empty());
        walk
    }

    /// Enters a directory with the entries that it was listed with.
    pub fn enter(&mut self, path: &str, entries: Vec<DirectoryEntry>)
        requires
            old(self)@.directories_visited < u64::MAX,
        ensures
            final(self)@.directories_visited == old(self)@.directories_visited + 1,
            final(self)@.truncated == old(self)@.truncated,
            final(self)@.frames.len() == old(self)@.frames.len() + 1,
            final(self)@.frames.drop_last() == old(self)@.frames,
            final(self)@.frames.last().path == path@,
            final(self)@.frames.last().done == 0,
            is_ordered(final(self)@.frames.last().entries),
            final(self)@.frames.last().entries.to_multiset() == entry_views(
                entries@,
            ).to_multiset(),
    {
        let sorted = sort_entries(entries);
        let frame = Frame { path: path.to_owned(), entries: sorted, done: 0 };
        self.frames.push(frame);
        self.directories_visited = self.directories_visited + 1;
        assert(frame_views(self.frames@) =~= frame_views(old(self).frames@).push(frame@));
        assert(frame_views(self.frames@).drop_last() =~= frame_views(old(self).frames@));
    }

    /// The directories that the walk has entered.
    pub fn directories_visited(&self) -> (count: u64)
        ensures
            count == self@.directories_visited,
    {
        self.directories_visited
    }

    /// Whether some directory was too deep.
    pub fn truncated(&self) -> (result: bool)
        ensures
            result == self@.truncated,
    {
        self.truncated
    }

    /// Moves the walk on to the next directory or file.
    pub fn next(&mut self) -> (action: WalkAction)
        ensures
            next(old(self)@) == (final(self)@, action@),
    {
        loop
            invariant
                next(old(self)@) == next(self@),
            decreases work_left(self@.frames),
        {
            let ghost before = self@;
            assert(frame_views(self.frames@).len() == self.frames@.len());
            let depth: usize = self.frames.len();
            if depth == 0 {
                return WalkAction::Finished;
            }
            proof {
                lemma_work_left_shrinks(before.frames);
                assert(before.frames.last() == self.frames@.last()@);
                assert(entry_views(self.frames@.last().entries@).len()
                    == self.frames@.last().entries@.len());
            }
            if self.frames[depth - 1].done >= self.frames[depth - 1].entries.len() {
                let _ = self.frames.pop();
                assert(frame_views(self.frames@) =~= before.frames.drop_last());
                continue;
            }
            let done: usize = self.frames[depth - 1].done;
            let kind = self.frames[depth - 1].entries[done].kind;
            let entry_path = join_path(
                self.frames[depth - 1].path.as_str(),
                self.frames[depth - 1].entries[done].name.as_str(),
            );
            let reserved = same_text(
                self.frames[depth - 1].entries[done].name.as_str(),
                ".git",
            ) || same_text(
                self.frames[depth - 1].entries[done].name.as_str(),
                ".young-agent-recovery",
            );
            assert(before.frames.last().entries[done as int] == self.frames@.last().entries@[done as int]@);
            match self.frames.pop() {
                Some(frame) => {
                    let mut top = frame;
                    top.done = done + 1;
                    self.frames.push(top);
                },
                None => {
                    return WalkAction::Finished;
                },
            }
            assert(frame_views(self.frames@) =~= entry_done(before.frames));
            match kind {
                EntryKind::File => {
                    return WalkAction::Search(entry_path);
                },
                EntryKind::Directory => {
                    if reserved {
                    } else if depth >= MAX_DIRECTORY_DEPTH {
                        self.truncated = true;
                    } else {
                        return WalkAction::List(entry_path);
                    }
                },
                EntryKind::Symlink => {},
                EntryKind::Other => {},
            }
        }
    }
}

proof fn lemma_next_keeps_depth(walk: WalkView)
    requires
        walk.frames.len() <= MAX_DIRECTORY_DEPTH,
    ensures
        next(walk).0.frames.len() <= MAX_DIRECTORY_DEPTH,
        next(walk).1 is List ==> next(walk).0.frames.len() < MAX_DIRECTORY_DEPTH,
    decreases work_left(walk.frames),
{
    if walk.frames.len() > 0 {
        lemma_work_left_shrinks(walk.frames);
        let top = walk.frames.last();
        if top.done >= top.entries.len() {
            lemma_next_keeps_depth(WalkView { frames: walk.frames.drop_last(), ..walk });
        } else {
            let after = WalkView { frames: entry_done(walk.frames), ..walk };
            lemma_next_keeps_depth(after);
            lemma_next_keeps_depth(WalkView { truncated: true, ..after });
        }
    }
}

/// A walk asks for a directory only where one more may be open, so that it never
/// has more than [`MAX_DIRECTORY_DEPTH`] open at once.
pub proof fn law_walks_are_shallow(walk: WalkView)
    requires
        walk.frames.len() <= MAX_DIRECTORY_DEPTH,
    ensures
        next(walk).0.frames.len() <= MAX_DIRECTORY_DEPTH,
        next(walk).1 is List ==> next(walk).0.frames.len() < MAX_DIRECTORY_DEPTH,
{
    lemma_next_keeps_depth(walk);
}

} // verus!
