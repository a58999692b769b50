//! Finding a literal text in a stream of bytes, one byte at a time and without
//! looking back.

use vstd::prelude::*;

verus! {

/// Whether the first `length` bytes of `needle` are the last of `seen`.
#[verifier::opaque]
pub open spec fn is_border(needle: Seq<u8>, seen: Seq<u8>, length: int) -> bool {
    &&& 0 <= length <= needle.len()
    &&& length <= seen.len()
    &&& forall|i: int|
        0 <= i < length ==> #[trigger] needle[i] == seen[seen.len() - length + i]
}

/// Whether `length` is the longest border shorter than the whole needle.
pub open spec fn is_longest_border(needle: Seq<u8>, seen: Seq<u8>, length: int) -> bool {
    &&& is_border(needle, seen, length)
    &&& length < needle.len()
    &&& forall|longer: int|
        length < longer < needle.len() ==> !is_border(needle, seen, longer)
}

/// Whether `needle` stands in `seen` at `at`.
pub open spec fn stands_at(needle: Seq<u8>, seen: Seq<u8>, at: int) -> bool {
    &&& 0 <= at
    &&& at + needle.len() <= seen.len()
    &&& seen.subrange(at, at + needle.len()) == needle
}

/// Whether `needle` stands anywhere in `seen`.
pub open spec fn occurs(needle: Seq<u8>, seen: Seq<u8>) -> bool {
    exists|at: int| #[trigger] stands_at(needle, seen, at)
}

/// Whether `border` is the longest border of a prefix of the needle that is
/// shorter than the prefix.
spec fn is_entry(needle: Seq<u8>, prefix: int, border: int) -> bool {
    let inner = needle.subrange(1, prefix);
    &&& border < prefix
    &&& is_border(needle, inner, border)
    &&& forall|longer: int| border < longer < prefix ==> !is_border(needle, inner, longer)
}

/// Whether `fallback` gives the right border for each of the first `known`
/// prefixes of the needle.
spec fn is_table(needle: Seq<u8>, fallback: Seq<usize>, known: int) -> bool {
    &&& 0 <= known <= fallback.len()
    &&& fallback.len() == needle.len()
    &&& forall|i: int|
        0 <= i < known ==> is_entry(needle, i + 1, #[trigger] fallback[i] as int)
}

/// A border of what was seen is one behind one more byte exactly where that
/// byte goes on with it.
proof fn lemma_border_of_push(needle: Seq<u8>, seen: Seq<u8>, byte: u8, length: int)
    requires
        0 <= length < needle.len(),
    ensures
        is_border(needle, seen.push(byte), length + 1) == (is_border(needle, seen, length)
            && needle[length] == byte),
{
    reveal(is_border);
    let more = seen.push(byte);
    if is_border(needle, more, length + 1) {
        assert(needle[length] == more[more.len() - (length + 1) + length]);
        assert forall|i: int| 0 <= i < length implies #[trigger] needle[i] == seen[seen.len()
            - length + i] by {
            assert(needle[i] == more[more.len() - (length + 1) + i]);
        }
    }
    if is_border(needle, seen, length) && needle[length] == byte {
        assert forall|i: int| 0 <= i < length + 1 implies #[trigger] needle[i] == more[more.len()
            - (length + 1) + i] by {
            if i < length {
                assert(needle[i] == seen[seen.len() - length + i]);
            }
        }
    }
}

/// A shorter border of what was seen is a border of the longer one.
proof fn lemma_border_of_border(needle: Seq<u8>, seen: Seq<u8>, longer: int, shorter: int)
    requires
        is_border(needle, seen, longer),
        0 <= shorter < longer,
    ensures
        is_border(needle, seen, shorter) == is_border(
            needle,
            needle.subrange(1, longer),
            shorter,
        ),
{
    reveal(is_border);
    let inner = needle.subrange(1, longer);
    assert forall|i: int| 0 <= i < shorter implies inner[inner.len() - shorter + i]
        == #[trigger] seen[seen.len() - shorter + i] by {
        let j = longer - shorter + i;
        assert(needle[j] == seen[seen.len() - longer + j]);
        assert(inner[inner.len() - shorter + i] == needle[j]);
    }
    if is_border(needle, seen, shorter) {
        assert forall|i: int| 0 <= i < shorter implies #[trigger] needle[i] == inner[inner.len()
            - shorter + i] by {
            assert(needle[i] == seen[seen.len() - shorter + i]);
        }
    }
    if is_border(needle, inner, shorter) {
        assert forall|i: int| 0 <= i < shorter implies #[trigger] needle[i] == seen[seen.len()
            - shorter + i] by {
            assert(needle[i] == inner[inner.len() - shorter + i]);
        }
    }
}

/// The needle occurs behind one more byte where it did before, or where all of
/// it is a border now.
proof fn lemma_occurs_of_push(needle: Seq<u8>, seen: Seq<u8>, byte: u8)
    ensures
        occurs(needle, seen.push(byte)) == (occurs(needle, seen) || is_border(
            needle,
            seen.push(byte),
            needle.len() as int,
        )),
{
    reveal(is_border);
    let more = seen.push(byte);
    if occurs(needle, seen) {
        let at = choose|at: int| #[trigger] stands_at(needle, seen, at);
        assert(more.subrange(at, at + needle.len()) == seen.subrange(at, at + needle.len()));
        assert(stands_at(needle, more, at));
    }
    if is_border(needle, more, needle.len() as int) {
        let at = more.len() - needle.len();
        assert(more.subrange(at, at + needle.len()) =~= needle);
        assert(stands_at(needle, more, at));
    }
    if occurs(needle, more) {
        let at = choose|at: int| #[trigger] stands_at(needle, more, at);
        if at + needle.len() <= seen.len() {
            assert(more.subrange(at, at + needle.len()) == seen.subrange(at, at + needle.len()));
            assert(stands_at(needle, seen, at));
        } else {
            assert forall|i: int| 0 <= i < needle.len() implies #[trigger] needle[i]
                == more[more.len() - needle.len() + i] by {
                assert(needle[i] == more.subrange(at, at + needle.len())[i]);
            }
        }
    }
}

/// Follows the table from the border `start` until `byte` goes on with one.
fn follow(needle: &Vec<u8>, fallback: &Vec<usize>, start: usize, byte: u8, Ghost(seen): Ghost<
    Seq<u8>,
>, Ghost(known): Ghost<int>) -> (matched: usize)
    requires
        is_table(needle@, fallback@, known),
        start <= known,
        is_longest_border(needle@, seen, start as int),
    ensures
        matched <= start + 1,
        is_border(needle@, seen.push(byte), matched as int),
        forall|longer: int|
            matched < longer <= needle@.len() ==> !is_border(needle@, seen.push(byte), longer),
{
    let length: usize = needle.len();
    let mut matched: usize = start;
    while matched > 0 && byte != needle[matched]
        invariant
            is_table(needle@, fallback@, known),
            matched <= start <= known,
            start < needle@.len() == length,
            is_border(needle@, seen, matched as int),
            forall|longer: int|
                matched < longer < needle@.len() && is_border(needle@, seen, longer)
                    ==> needle@[longer] != byte,
        decreases matched,
    {
        let shorter: usize = fallback[matched - 1];
        proof {
            let inner = needle@.subrange(1, matched as int);
            assert(is_entry(needle@, matched as int, shorter as int));
            lemma_border_of_border(needle@, seen, matched as int, shorter as int);
            assert forall|longer: int|
                shorter < longer < needle@.len() && is_border(
                    needle@,
                    seen,
                    longer,
                ) implies needle@[longer] != byte by {
                if longer < matched {
                    lemma_border_of_border(needle@, seen, matched as int, longer);
                    assert(!is_border(needle@, inner, longer));
                }
            }
        }
        matched = shorter;
    }
    let ghost before = matched as int;
    proof {
        lemma_border_of_push(needle@, seen, byte, before);
    }
    if byte == needle[matched] {
        matched += 1;
    }
    proof {
        if matched == 0 {
            reveal(is_border);
        }
        assert forall|longer: int| matched < longer <= needle@.len() implies !is_border(
            needle@,
            seen.push(byte),
            longer,
        ) by {
            lemma_border_of_push(needle@, seen, byte, longer - 1);
        }
    }
    matched
}

/// A literal text to look for.
pub struct LiteralPattern {
    needle: Vec<u8>,
    fallback: Vec<usize>,
}

impl LiteralPattern {
    /// The text that is looked for.
    pub closed spec fn needle(self) -> Seq<u8> {
        self.needle@
    }

    /// The text is not empty, and the table is right.
    pub closed spec fn well_formed(self) -> bool {
        self.needle@.len() > 0 && is_table(
            self.needle@,
            self.fallback@,
            self.needle@.len() as int,
        )
    }

    /// There is something to look for.
    pub proof fn lemma_needle_not_empty(self)
        requires
            self.well_formed(),
        ensures
            self.needle().len() > 0,
    {
    }

    /// Prepares the search for `needle`.
    pub fn new(needle: &[u8]) -> (pattern: LiteralPattern)
        requires
            needle@.len() > 0,
        ensures
            pattern.well_formed(),
            pattern.needle() == needle@,
    {
        let mut bytes: Vec<u8> = Vec::new();
        bytes.extend_from_slice(needle);
        assert(bytes@ =~= needle@);
        let mut fallback: Vec<usize> = Vec::new();
        let mut filled: usize = 0;
        while filled < bytes.len()
            invariant
                filled <= bytes@.len(),
                fallback@.len() == filled,
            decreases bytes@.len() - filled,
        {
            fallback.push(0);
            filled += 1;
        }
        proof {
            reveal(is_border);
            assert(bytes@.subrange(1, 1) =~= Seq::<u8>::empty());
        }
        let mut matched: usize = 0;
        let mut index: usize = 1;
        fallback.set(0, 0);
        assert(is_table(bytes@, fallback@, 1));
        while index < bytes.len()
            invariant
                1 <= index <= bytes@.len(),
                bytes@ == needle@,
                is_table(bytes@, fallback@, index as int),
                matched < index,
                is_border(bytes@, bytes@.subrange(1, index as int), matched as int),
                forall|longer: int|
                    matched < longer < index ==> !is_border(
                        bytes@,
                        bytes@.subrange(1, index as int),
                        longer,
                    ),
            decreases bytes@.len() - index,
        {
            let ghost seen = bytes@.subrange(1, index as int);
            assert(is_longest_border(bytes@, seen, matched as int)) by {
                reveal(is_border);
            }
            let byte = bytes[index];
            let next: usize = follow(&bytes, &fallback, matched, byte, Ghost(seen), Ghost(index as int));
            assert(seen.push(byte) =~= bytes@.subrange(1, index + 1));
            let ghost earlier = fallback@;
            fallback.set(index, next);
            assert(is_entry(bytes@, index + 1, next as int));
            assert forall|i: int| 0 <= i < index + 1 implies is_entry(
                bytes@,
                i + 1,
                #[trigger] fallback@[i] as int,
            ) by {
                if i < index {
                    assert(fallback@[i] == earlier[i]);
                }
            }
            matched = next;
            index += 1;
        }
        LiteralPattern { needle: bytes, fallback }
    }

    /// The longest border behind one more byte, given the one before it; the
    /// whole needle where that is one.
    pub(crate) fn advance(&self, matched: usize, byte: u8, Ghost(seen): Ghost<Seq<u8>>) -> (next: usize)
        requires
            self.well_formed(),
            is_longest_border(self.needle(), seen, matched as int),
        ensures
            is_border(self.needle(), seen.push(byte), next as int),
            next == self.needle().len() || is_longest_border(
                self.needle(),
                seen.push(byte),
                next as int,
            ),
            occurs(self.needle(), seen.push(byte)) == (occurs(self.needle(), seen) || next
                == self.needle().len()),
    {
        let next: usize = follow(
            &self.needle,
            &self.fallback,
            matched,
            byte,
            Ghost(seen),
            Ghost(self.needle@.len() as int),
        );
        proof {
            lemma_occurs_of_push(self.needle@, seen, byte);
        }
        next
    }

    /// The length of the text that is looked for.
    pub fn len(&self) -> (length: usize)
        ensures
            length == self.needle().len(),
    {
        self.needle.len()
    }
}

/// What occurs still does behind one more byte.
pub proof fn lemma_occurrence_stays(needle: Seq<u8>, seen: Seq<u8>, byte: u8)
    requires
        occurs(needle, seen),
    ensures
        occurs(needle, seen.push(byte)),
{
    lemma_occurs_of_push(needle, seen, byte);
}

/// Nothing seen yet has no border but the empty one.
pub proof fn lemma_nothing_seen(needle: Seq<u8>)
    requires
        needle.len() > 0,
    ensures
        is_longest_border(needle, Seq::empty(), 0),
        !occurs(needle, Seq::empty()),
{
    reveal(is_border);
}

} // verus!
