//! Bytes read as UTF-8.

use vstd::prelude::*;

verus! {

/// How far some bytes are UTF-8.
pub enum Utf8Check {
    /// All of them.
    Valid(String),
    /// Up to this length; the rest begins a character and breaks off.
    Incomplete { valid_up_to: usize, message: String },
    /// Up to this length; the rest can begin no character.
    Invalid { valid_up_to: usize, message: String },
}

/// What the error for bytes that are not UTF-8 says.
pub uninterp spec fn utf8_error_text(bytes: Seq<u8>) -> Seq<char>;

/// Whether more bytes could make these valid.
pub open spec fn extensible(bytes: Seq<u8>) -> bool {
    exists|more: Seq<u8>| vstd::utf8::valid_utf8(#[trigger] (bytes + more))
}

/// Whether `length` is the longest prefix that is valid UTF-8.
pub open spec fn longest_valid_prefix(bytes: Seq<u8>, length: int) -> bool {
    &&& 0 <= length <= bytes.len()
    &&& vstd::utf8::valid_utf8(bytes.take(length))
    &&& forall|longer: int| length < longer <= bytes.len() ==> !vstd::utf8::valid_utf8(#[trigger] bytes.take(longer))
}

/// What [`check_utf8`] finds.
pub open spec fn is_check(bytes: Seq<u8>, check: Utf8Check) -> bool {
    match check {
        Utf8Check::Valid(text) => vstd::utf8::valid_utf8(bytes) && text@ == vstd::utf8::decode_utf8(bytes),
        Utf8Check::Incomplete { valid_up_to, .. } => !vstd::utf8::valid_utf8(bytes)
            && extensible(bytes) && longest_valid_prefix(bytes, valid_up_to as int),
        Utf8Check::Invalid { valid_up_to, .. } => !vstd::utf8::valid_utf8(bytes)
            && !extensible(bytes) && longest_valid_prefix(bytes, valid_up_to as int),
    }
}

/// Decodes with `std::str::from_utf8`. It accepts exactly the valid encodings;
/// of any others its error gives, as `valid_up_to`, the longest valid prefix,
/// and has no `error_len` exactly where the input breaks off inside a character
/// that more bytes could complete. What the error says in words has a name of
/// its own.
#[verifier::external_body]
pub(crate) fn check_utf8(bytes: &[u8]) -> (check: Utf8Check)
    ensures
        is_check(bytes@, check),
        check matches Utf8Check::Incomplete { message, .. } ==> message@ == utf8_error_text(bytes@),
        check matches Utf8Check::Invalid { message, .. } ==> message@ == utf8_error_text(bytes@),
{
    match std::str::from_utf8(bytes) {
        Ok(text) => Utf8Check::Valid(text.to_string()),
        Err(error) => {
            let (valid_up_to, message) = (error.valid_up_to(), error.to_string());
            match error.error_len() {
                None => Utf8Check::Incomplete { valid_up_to, message },
                Some(_) => Utf8Check::Invalid { valid_up_to, message },
            }
        },
    }
}

/// The longest valid prefix is one.
pub proof fn lemma_longest_valid_prefix_unique(bytes: Seq<u8>, first: int, second: int)
    requires
        longest_valid_prefix(bytes, first),
        longest_valid_prefix(bytes, second),
    ensures
        first == second,
{
    assert(vstd::utf8::valid_utf8(bytes.take(first)));
    assert(vstd::utf8::valid_utf8(bytes.take(second)));
}

/// Behind valid bytes, more bytes are valid exactly where they are on their own.
pub proof fn lemma_valid_behind_valid(head: Seq<u8>, tail: Seq<u8>)
    requires
        vstd::utf8::valid_utf8(head),
    ensures
        vstd::utf8::valid_utf8(head + tail) == vstd::utf8::valid_utf8(tail),
    decreases head.len(),
{
    if head.len() == 0 {
        assert(head + tail == tail);
    } else {
        let rest = vstd::utf8::pop_first_scalar(head);
        lemma_valid_behind_valid(rest, tail);
        let whole = head + tail;
        assert(vstd::utf8::length_of_first_scalar(head) <= head.len());
        assert(forall|i: int| 0 <= i < head.len() ==> whole[i] == head[i]);
        assert(vstd::utf8::valid_first_scalar(whole));
        assert(vstd::utf8::pop_first_scalar(whole) == rest + tail);
    }
}

/// Behind valid bytes, more bytes can be completed exactly where they can on
/// their own.
pub proof fn lemma_extensible_behind_valid(head: Seq<u8>, tail: Seq<u8>)
    requires
        vstd::utf8::valid_utf8(head),
    ensures
        extensible(head + tail) == extensible(tail),
{
    if extensible(head + tail) {
        let more = choose|more: Seq<u8>| vstd::utf8::valid_utf8(#[trigger] (head + tail + more));
        assert(head + tail + more == head + (tail + more));
        lemma_valid_behind_valid(head, tail + more);
        assert(vstd::utf8::valid_utf8(tail + more));
    }
    if extensible(tail) {
        let more = choose|more: Seq<u8>| vstd::utf8::valid_utf8(#[trigger] (tail + more));
        lemma_valid_behind_valid(head, tail + more);
        assert(head + tail + more == head + (tail + more));
        assert(vstd::utf8::valid_utf8(head + tail + more));
    }
}

/// A stream of bytes that is checked as it comes.
pub struct Utf8Stream {
    seen: Ghost<Seq<u8>>,
    pending: Vec<u8>,
    invalid: bool,
}

impl Utf8Stream {
    /// All the bytes that have come.
    pub closed spec fn seen(self) -> Seq<u8> {
        self.seen@
    }

    /// What the stream knows is right.
    pub closed spec fn well_formed(self) -> bool {
        if self.invalid {
            !extensible(self.seen@)
        } else {
            let split = self.seen@.len() - self.pending@.len();
            &&& 0 <= split
            &&& self.seen@ == self.seen@.take(split) + self.pending@
            &&& vstd::utf8::valid_utf8(self.seen@.take(split))
            &&& extensible(self.pending@)
            &&& self.pending@.len() > 0 ==> !vstd::utf8::valid_utf8(self.pending@)
        }
    }

    /// A stream before its first byte.
    pub fn new() -> (stream: Utf8Stream)
        ensures
            stream.well_formed(),
            stream.seen() == Seq::<u8>::empty(),
    {
        let stream = Utf8Stream {
            seen: Ghost(Seq::empty()),
            pending: Vec::new(),
            invalid: false,
        };
        proof {
            let nothing = Seq::<u8>::empty();
            assert(stream.seen@.take(0) == nothing);
            assert(nothing + nothing == nothing);
            assert(stream.pending@ == nothing);
            assert(vstd::utf8::valid_utf8(stream.pending@ + nothing));
        }
        stream
    }

    /// Takes more bytes.
    pub fn feed(&mut self, chunk: &[u8])
        requires
            old(self).well_formed(),
        ensures
            final(self).well_formed(),
            final(self).seen() == old(self).seen() + chunk@,
    {
        let ghost before = self.seen@;
        let ghost after = before + chunk@;
        if self.invalid {
            proof {
                if extensible(after) {
                    let more = choose|more: Seq<u8>|
                        vstd::utf8::valid_utf8(#[trigger] (after + more));
                    assert(before + (chunk@ + more) == after + more);
                    assert(vstd::utf8::valid_utf8(before + (chunk@ + more)));
                }
            }
            self.seen = Ghost(after);
            return;
        }
        let ghost head = before.take(before.len() - self.pending@.len());
        let ghost pending = self.pending@;
        let mut bytes: Vec<u8> = Vec::new();
        bytes.append(&mut self.pending);
        bytes.extend_from_slice(chunk);
        assert(bytes@ =~= pending + chunk@);
        assert(after == head + bytes@);
        match check_utf8(bytes.as_slice()) {
            Utf8Check::Valid(_) => {
                self.pending = Vec::new();
                self.seen = Ghost(after);
                proof {
                    lemma_valid_behind_valid(head, bytes@);
                    let nothing = Seq::<u8>::empty();
                    assert(self.pending@ == nothing);
                    assert(after.take(after.len() as int) == after);
                    assert(after + nothing == after);
                    assert(nothing + nothing == nothing);
                    assert(vstd::utf8::valid_utf8(self.pending@ + nothing));
                }
            },
            Utf8Check::Incomplete { valid_up_to, message: _ } => {
                let rest = bytes.split_off(valid_up_to);
                self.pending = rest;
                self.seen = Ghost(after);
                proof {
                    let whole = pending + chunk@;
                    let valid = whole.take(valid_up_to as int);
                    assert(whole == valid + self.pending@);
                    lemma_valid_behind_valid(valid, self.pending@);
                    lemma_extensible_behind_valid(valid, self.pending@);
                    lemma_valid_behind_valid(head, valid);
                    assert(after == head + valid + self.pending@);
                    assert(after.take(after.len() - self.pending@.len()) == head + valid);
                }
            },
            Utf8Check::Invalid { valid_up_to: _, message: _ } => {
                self.invalid = true;
                self.seen = Ghost(after);
                proof {
                    lemma_extensible_behind_valid(head, pending + chunk@);
                }
            },
        }
    }

    /// Whether all the bytes that have come are valid.
    pub fn is_valid(&self) -> (valid: bool)
        requires
            self.well_formed(),
        ensures
            valid == vstd::utf8::valid_utf8(self.seen()),
    {
        proof {
            let seen = self.seen@;
            if self.invalid {
                assert(seen + Seq::<u8>::empty() == seen);
            } else {
                let head = seen.take(seen.len() - self.pending@.len());
                lemma_valid_behind_valid(head, self.pending@);
            }
        }
        !self.invalid && self.pending.len() == 0
    }
}

} // verus!
