//! A request to stop that another thread may make at any time, and what was
//! heard of it so far.

use std::sync::atomic::{AtomicBool, Ordering};
use vstd::prelude::*;

verus! {

/// Where the answer of a look comes from.
enum Source<'a> {
    /// It is known beforehand.
    Settled(bool),
    /// Another thread may set the flag at any time.
    Flag(&'a AtomicBool),
}

/// Where a long computation looks for a request to stop.
pub struct Cancellation<'a> {
    source: Source<'a>,
    looks: Ghost<Seq<bool>>,
}

impl<'a> Cancellation<'a> {
    /// What every look will say, where that is known.
    pub closed spec fn answer(self) -> Option<bool> {
        match self.source {
            Source::Settled(requested) => Some(requested),
            Source::Flag(_) => None,
        }
    }

    /// What the looks so far have said, in their order.
    pub closed spec fn looks(self) -> Seq<bool> {
        self.looks@
    }

    /// Every look says `requested`.
    pub fn settled(requested: bool) -> (cancellation: Cancellation<'a>)
        ensures
            cancellation.answer() == Some(requested),
            cancellation.looks() == Seq::<bool>::empty(),
    {
        Cancellation { source: Source::Settled(requested), looks: Ghost(Seq::empty()) }
    }

    /// No request will come.
    pub fn never() -> (cancellation: Cancellation<'a>)
        ensures
            cancellation.answer() == Some(false),
            cancellation.looks() == Seq::<bool>::empty(),
    {
        Cancellation::settled(false)
    }

    /// A request is made by setting `flag`. What a look will say is not known
    /// beforehand.
    pub fn watching(flag: &'a AtomicBool) -> (cancellation: Cancellation<'a>)
        ensures
            cancellation.answer() is None,
            cancellation.looks() == Seq::<bool>::empty(),
    {
        Cancellation { source: Source::Flag(flag), looks: Ghost(Seq::empty()) }
    }

    /// Looks whether a request has come by now.
    pub fn requested(&mut self) -> (requested: bool)
        ensures
            final(self).looks() == old(self).looks().push(requested),
            final(self).answer() == old(self).answer(),
            old(self).answer() matches Some(known) ==> requested == known,
    {
        let requested = match &self.source {
            Source::Settled(requested) => *requested,
            Source::Flag(flag) => flag.load(Ordering::Relaxed),
        };
        self.looks = Ghost(self.looks@.push(requested));
        requested
    }
}

/// Whether a computation has gone on: no look that it made has said that it is
/// to stop.
pub open spec fn went_on(before: Cancellation, after: Cancellation) -> bool {
    &&& after.answer() == before.answer()
    &&& before.looks().len() <= after.looks().len()
    &&& forall|i: int|
        0 <= i < before.looks().len() ==> #[trigger] after.looks()[i] == before.looks()[i]
    &&& forall|i: int|
        before.looks().len() <= i < after.looks().len() ==> !#[trigger] after.looks()[i]
    &&& before.answer() == Some(true) ==> after.looks().len() == before.looks().len()
}

/// Whether a computation was stopped: the last look that it made has said so, and
/// none before.
pub open spec fn was_stopped(before: Cancellation, after: Cancellation) -> bool {
    &&& after.answer() == before.answer()
    &&& before.looks().len() < after.looks().len()
    &&& after.looks().last()
    &&& forall|i: int|
        0 <= i < before.looks().len() ==> #[trigger] after.looks()[i] == before.looks()[i]
    &&& forall|i: int|
        before.looks().len() <= i < after.looks().len() - 1 ==> !#[trigger] after.looks()[i]
    &&& before.answer() != Some(false)
}

/// Whether a computation has looked at all.
pub open spec fn has_looked(before: Cancellation, after: Cancellation) -> bool {
    before.looks().len() < after.looks().len()
}

/// A computation has not both gone on and been stopped. Where it is known
/// beforehand what a look says, one that looks is stopped if that is yes, and goes
/// on if that is no.
pub proof fn law_looks_decide(before: Cancellation, after: Cancellation)
    requires
        went_on(before, after) || was_stopped(before, after),
    ensures
        went_on(before, after) != was_stopped(before, after),
        before.answer() == Some(true) && has_looked(before, after) ==> was_stopped(before, after),
        before.answer() == Some(false) ==> went_on(before, after),
        !has_looked(before, after) ==> went_on(before, after),
{
}

} // verus!
