//! The eight-byte names of lumps, textures and patches.

use vstd::prelude::*;
use crate::error::WadError;

verus! {

/// Whether every byte of a name is an ASCII code.
pub open spec fn is_ascii_name(bytes: Seq<u8>) -> bool {
    forall|i: int| 0 <= i < bytes.len() ==> bytes[i] <= 127
}

/// How many bytes of a name come before its first zero byte: all of them if
/// none is zero.
pub open spec fn spec_text_len(bytes: Seq<u8>) -> nat
    decreases bytes.len(),
{
    if bytes.len() == 0 || bytes[0] == 0 {
        0
    } else {
        1 + spec_text_len(bytes.skip(1))
    }
}

/// The text of a name: its bytes up to the first zero, each as a character.
pub open spec fn spec_text(bytes: Seq<u8>) -> Seq<char> {
    Seq::new(spec_text_len(bytes), |i: int| bytes[i] as char)
}

/// The text of a name ends at index `n` if no byte before `n` is zero and
/// the name ends, or holds a zero, at `n`.
pub proof fn lemma_text_len(bytes: Seq<u8>, n: int)
    requires
        0 <= n <= bytes.len(),
        forall|i: int| 0 <= i < n ==> bytes[i] != 0,
        n < bytes.len() ==> bytes[n] == 0,
    ensures
        spec_text_len(bytes) == n,
    decreases n,
{
    if n > 0 {
        let rest = bytes.skip(1);
        assert forall|i: int| 0 <= i < n - 1 implies rest[i] != 0 by {
            assert(rest[i] == bytes[i + 1]);
        }
        lemma_text_len(rest, n - 1);
    }
}

/// The text of a name is never longer than the name, holds no zero, and
/// stops at a zero unless it fills the name.
pub proof fn lemma_text_len_bounds(bytes: Seq<u8>)
    ensures
        spec_text_len(bytes) <= bytes.len(),
        forall|i: int| 0 <= i < spec_text_len(bytes) ==> bytes[i] != 0,
        spec_text_len(bytes) < bytes.len() ==> bytes[spec_text_len(bytes) as int] == 0,
    decreases bytes.len(),
{
    if bytes.len() != 0 && bytes[0] != 0 {
        let rest = bytes.skip(1);
        lemma_text_len_bounds(rest);
        assert forall|i: int| 0 <= i < spec_text_len(bytes) implies bytes[i] != 0 by {
            if i > 0 {
                assert(rest[i - 1] == bytes[i]);
            }
        }
        if spec_text_len(bytes) < bytes.len() {
            assert(rest[spec_text_len(rest) as int] == bytes[spec_text_len(bytes) as int]);
        }
    }
}

/// Appends one character to a string, by `String::push`, which puts the
/// character after all those that the string already holds.
#[verifier::external_body]
fn string_push(s: &mut String, c: char)
    ensures
        final(s)@ == old(s)@.push(c),
{
    s.push(c);
}

/// An eight-byte ASCII name, padded on the right with zero bytes.
///
/// A value always holds ASCII bytes only: this is checked once, when the
/// value is made, and never again.
#[derive(Debug, Clone, Copy, PartialEq, Eq)]
pub struct WadString {
    bytes: [u8; 8],
}

impl View for WadString {
    type V = Seq<u8>;

    /// The eight bytes of the name.
    closed spec fn view(&self) -> Seq<u8> {
        self.bytes@
    }
}

impl WadString {
    pub const SIZE_BYTES: usize = 8;

    #[verifier::type_invariant]
    spec fn ascii_only(self) -> bool {
        is_ascii_name(self.bytes@)
    }

    /// Makes a name of eight bytes, or fails with `InvalidCharacter` if one
    /// of them is above 127.
    pub fn new(bytes: [u8; 8]) -> (res: Result<WadString, WadError>)
        ensures
            is_ascii_name(bytes@) ==> res is Ok && res->Ok_0@ == bytes@,
            !is_ascii_name(bytes@) ==> res == Err::<WadString, WadError>(
                WadError::InvalidCharacter,
            ),
    {
        let mut i: usize = 0;
        while i < 8
            invariant
                i <= 8,
                forall|j: int| 0 <= j < i ==> bytes@[j] <= 127,
            decreases 8 - i,
        {
            if bytes[i] > 127 {
                return Err(WadError::InvalidCharacter);
            }
            i += 1;
        }
        Ok(WadString { bytes })
    }

    /// The eight bytes of the name, padding included.
    pub fn as_bytes(&self) -> (bytes: &[u8; 8])
        ensures
            bytes@ == self@,
            is_ascii_name(self@),
            self@.len() == 8,
    {
        proof {
            use_type_invariant(self);
        }
        &self.bytes
    }

    /// The name as text: its characters up to the first zero byte, or all
    /// eight if no byte is zero.
    pub fn to_string(&self) -> (text: String)
        ensures
            text@ == spec_text(self@),
    {
        let mut text = String::new();
        let mut i: usize = 0;
        while i < 8 && self.bytes[i] != 0
            invariant
                i <= 8,
                forall|j: int| 0 <= j < i ==> self.bytes@[j] != 0,
                text@ == Seq::new(i as nat, |j: int| self.bytes@[j] as char),
            decreases 8 - i,
        {
            string_push(&mut text, self.bytes[i] as char);
            i += 1;
            assert(text@ =~= Seq::new(i as nat, |j: int| self.bytes@[j] as char));
        }
        proof {
            lemma_text_len(self.bytes@, i as int);
        }
        text
    }
}

} // verus!
