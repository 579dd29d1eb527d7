//! A forward-only, bounds-checked reader over borrowed bytes.
//!
//! Lump bytes are untrusted, so every read is checked: a read that asks for
//! more than is left fails and leaves the cursor empty, and nothing here can
//! panic on short input.

use vstd::prelude::*;
use vstd::slice::slice_subrange;
use crate::error::WadError;
use crate::le_bytes::{i16_from_le, i32_from_le, spec_i16_le, spec_i32_le};

verus! {

/// A cursor over the bytes of a lump that have not been read yet.
pub struct LumpParser<'a> {
    remaining: &'a [u8],
}

impl<'a> View for LumpParser<'a> {
    type V = Seq<u8>;

    /// The bytes that are still to be read, in order.
    closed spec fn view(&self) -> Seq<u8> {
        self.remaining@
    }
}

impl<'a> LumpParser<'a> {
    /// A cursor at the start of `data`.
    pub fn new(data: &'a [u8]) -> (parser: Self)
        ensures
            parser@ == data@,
    {
        Self { remaining: data }
    }

    /// Takes the next `n` bytes as a slice of the underlying buffer.
    ///
    /// Fails with `TruncatedInput` if fewer than `n` bytes are left, and then
    /// leaves the cursor empty.
    pub fn read_slice(&mut self, n: usize) -> (res: Result<&'a [u8], WadError>)
        ensures
            n <= old(self)@.len() ==> res is Ok && res->Ok_0@ == old(self)@.take(n as int)
                && final(self)@ == old(self)@.skip(n as int),
            n > old(self)@.len() ==> res == Err::<&[u8], WadError>(WadError::TruncatedInput)
                && final(self)@ == Seq::<u8>::empty(),
    {
        let data = self.remaining;
        let len = data.len();
        if n <= len {
            let chunk = slice_subrange(data, 0, n);
            self.remaining = slice_subrange(data, n, len);
            Ok(chunk)
        } else {
            self.remaining = slice_subrange(data, len, len);
            Err(WadError::TruncatedInput)
        }
    }

    /// Takes the next `N` bytes as an array.
    ///
    /// Fails with `TruncatedInput` if fewer than `N` bytes are left, and then
    /// leaves the cursor empty.
    pub fn read_chunk<const N: usize>(&mut self) -> (res: Result<[u8; N], WadError>)
        ensures
            N <= old(self)@.len() ==> res is Ok && res->Ok_0@ == old(self)@.take(N as int)
                && final(self)@ == old(self)@.skip(N as int),
            N > old(self)@.len() ==> res == Err::<[u8; N], WadError>(WadError::TruncatedInput)
                && final(self)@ == Seq::<u8>::empty(),
    {
        let slice = self.read_slice(N)?;
        let mut chunk = [0u8; N];
        let mut i: usize = 0;
        while i < N
            invariant
                i <= N,
                slice@.len() == N,
                forall|j: int| 0 <= j < i ==> chunk@[j] == slice@[j],
            decreases N - i,
        {
            chunk[i] = slice[i];
            i += 1;
        }
        assert(chunk@ =~= slice@);
        Ok(chunk)
    }

    /// Takes the next two bytes as a little-endian signed integer.
    pub fn read_i16(&mut self) -> (res: Result<i16, WadError>)
        ensures
            2 <= old(self)@.len() ==> res is Ok && res->Ok_0 == spec_i16_le(old(self)@.take(2))
                && final(self)@ == old(self)@.skip(2),
            2 > old(self)@.len() ==> res == Err::<i16, WadError>(WadError::TruncatedInput)
                && final(self)@ == Seq::<u8>::empty(),
    {
        let bytes = self.read_chunk::<2>()?;
        Ok(i16_from_le(&bytes))
    }

    /// Takes the next four bytes as a little-endian signed integer.
    pub fn read_i32(&mut self) -> (res: Result<i32, WadError>)
        ensures
            4 <= old(self)@.len() ==> res is Ok && res->Ok_0 == spec_i32_le(old(self)@.take(4))
                && final(self)@ == old(self)@.skip(4),
            4 > old(self)@.len() ==> res == Err::<i32, WadError>(WadError::TruncatedInput)
                && final(self)@ == Seq::<u8>::empty(),
    {
        let bytes = self.read_chunk::<4>()?;
        Ok(i32_from_le(&bytes))
    }

    /// Whether any byte is still unread.
    pub fn has_data_left(&self) -> (left: bool)
        ensures
            left == (self@.len() > 0),
    {
        self.remaining.len() > 0
    }

    /// Ends the read: succeeds if every byte was consumed, and fails with
    /// `TrailingData` otherwise.
    pub fn finish(self) -> (res: Result<(), WadError>)
        ensures
            res == if self@.len() == 0 {
                Ok::<(), WadError>(())
            } else {
                Err::<(), WadError>(WadError::TrailingData)
            },
    {
        if self.has_data_left() {
            Err(WadError::TrailingData)
        } else {
            Ok(())
        }
    }
}

} // verus!
