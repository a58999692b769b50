//! The line that a search is reading, which may come in any number of pieces.

use crate::literal_pattern;
use crate::literal_pattern::LiteralPattern;
use crate::search_model;
use crate::search_model::MAX_SEARCH_LINE_BYTES;
use vstd::prelude::*;
use vstd::slice::slice_subrange;

verus! {

/// The line that is being read: what it shows of itself, and whether the text
/// that is looked for has occurred in it.
pub struct LineState {
    needle: Ghost<Seq<u8>>,
    line: Ghost<Seq<u8>>,
    visible: Vec<u8>,
    bytes_seen: usize,
    matcher_state: usize,
    matched: bool,
    truncated: bool,
}

impl LineState {
    /// The text that is looked for.
    pub closed spec fn needle(self) -> Seq<u8> {
        self.needle@
    }

    /// The bytes of the line so far.
    pub closed spec fn line(self) -> Seq<u8> {
        self.line@
    }

    pub closed spec fn well_formed(self) -> bool {
        &&& self.visible@ == search_model::visible_bytes(self.line@)
        &&& self.bytes_seen == if self.line@.len() <= usize::MAX {
            self.line@.len() as int
        } else {
            usize::MAX as int
        }
        &&& self.truncated == (self.line@.len() > MAX_SEARCH_LINE_BYTES)
        &&& self.matched == literal_pattern::occurs(self.needle@, self.line@)
        &&& !self.matched ==> literal_pattern::is_longest_border(
            self.needle@,
            self.line@,
            self.matcher_state as int,
        )
    }

    /// A line before its first byte.
    pub fn new(pattern: &LiteralPattern) -> (state: LineState)
        requires
            pattern.well_formed(),
        ensures
            state.well_formed(),
            state.needle() == pattern.needle(),
            state.line() == Seq::<u8>::empty(),
    {
        proof {
            pattern.lemma_needle_not_empty();
            literal_pattern::lemma_nothing_seen(pattern.needle());
        }
        LineState {
            needle: Ghost(pattern.needle()),
            line: Ghost(Seq::empty()),
            visible: Vec::new(),
            bytes_seen: 0,
            matcher_state: 0,
            matched: false,
            truncated: false,
        }
    }

    /// Takes the next bytes of the line.
    pub fn feed(&mut self, bytes: &[u8], pattern: &LiteralPattern)
        requires
            pattern.well_formed(),
            old(self).well_formed(),
            old(self).needle() == pattern.needle(),
        ensures
            final(self).well_formed(),
            final(self).needle() == old(self).needle(),
            final(self).line() == old(self).line() + bytes@,
    {
        let ghost before = self.line@;
        let ghost after = before + bytes@;
        let length: usize = bytes.len();
        self.bytes_seen = if length > usize::MAX - self.bytes_seen {
            usize::MAX
        } else {
            self.bytes_seen + length
        };
        let remaining: usize = MAX_SEARCH_LINE_BYTES - self.visible.len();
        if length <= remaining {
            self.visible.extend_from_slice(bytes);
        } else {
            let retained = slice_subrange(bytes, 0, remaining);
            self.visible.extend_from_slice(retained);
            self.truncated = true;
        }
        assert(self.visible@ =~= search_model::visible_bytes(after));
        let mut index: usize = 0;
        assert(before + bytes@.take(0) =~= before);
        while index < length
            invariant
                index <= length,
                length == bytes@.len(),
                pattern.well_formed(),
                pattern.needle() == self.needle@,
                self.needle@ == old(self).needle@,
                self.visible@ == search_model::visible_bytes(after),
                self.bytes_seen == if after.len() <= usize::MAX {
                    after.len() as int
                } else {
                    usize::MAX as int
                },
                self.truncated == (after.len() > MAX_SEARCH_LINE_BYTES),
                self.matched == literal_pattern::occurs(
                    self.needle@,
                    before + bytes@.take(index as int),
                ),
                !self.matched ==> literal_pattern::is_longest_border(
                    self.needle@,
                    before + bytes@.take(index as int),
                    self.matcher_state as int,
                ),
            decreases length - index,
        {
            let byte = bytes[index];
            let ghost seen = before + bytes@.take(index as int);
            assert(seen.push(byte) =~= before + bytes@.take(index + 1));
            if self.matched {
                proof {
                    literal_pattern::lemma_occurrence_stays(pattern.needle(), seen, byte);
                }
            } else {
                let next: usize = pattern.advance(self.matcher_state, byte, Ghost(seen));
                self.matcher_state = next;
                self.matched = next == pattern.len();
            }
            index += 1;
        }
        assert(bytes@.take(length as int) =~= bytes@);
        self.line = Ghost(after);
    }

    /// Whether the text that is looked for occurs in the line, in whatever
    /// pieces it came and however far behind its shown beginning.
    pub fn matched(&self) -> (result: bool)
        requires
            self.well_formed(),
        ensures
            result == literal_pattern::occurs(self.needle(), self.line()),
    {
        self.matched
    }

    /// How long the line is, as far as numbers reach.
    pub fn bytes_seen(&self) -> (count: usize)
        requires
            self.well_formed(),
        ensures
            self.line().len() <= usize::MAX ==> count == self.line().len(),
            self.line().len() > usize::MAX ==> count == usize::MAX,
    {
        self.bytes_seen
    }

    /// The beginning of the line that a match shows.
    pub fn visible(&self) -> (bytes: &[u8])
        requires
            self.well_formed(),
        ensures
            bytes@ == search_model::visible_bytes(self.line()),
    {
        self.visible.as_slice()
    }

    /// Whether a match shows less than the line.
    pub fn truncated(&self) -> (result: bool)
        requires
            self.well_formed(),
        ensures
            result == (self.line().len() > MAX_SEARCH_LINE_BYTES),
    {
        self.truncated
    }
}

} // verus!
