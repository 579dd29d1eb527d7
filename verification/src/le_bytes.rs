//! Little-endian signed integers, as every structure of the format stores them.

use vstd::prelude::*;

verus! {

/// The unsigned value of two bytes, least significant first.
pub open spec fn spec_u16_le(b: Seq<u8>) -> int
    recommends
        b.len() == 2,
{
    b[0] as int + 256 * (b[1] as int)
}

/// The unsigned value of four bytes, least significant first.
pub open spec fn spec_u32_le(b: Seq<u8>) -> int
    recommends
        b.len() == 4,
{
    b[0] as int + 256 * (b[1] as int) + 65536 * (b[2] as int) + 16777216 * (b[3] as int)
}

/// The two's-complement value of two little-endian bytes.
pub open spec fn spec_i16_le(b: Seq<u8>) -> int
    recommends
        b.len() == 2,
{
    if spec_u16_le(b) < 0x8000 {
        spec_u16_le(b)
    } else {
        spec_u16_le(b) - 0x1_0000
    }
}

/// The two's-complement value of four little-endian bytes.
pub open spec fn spec_i32_le(b: Seq<u8>) -> int
    recommends
        b.len() == 4,
{
    if spec_u32_le(b) < 0x8000_0000 {
        spec_u32_le(b)
    } else {
        spec_u32_le(b) - 0x1_0000_0000
    }
}

/// The two bytes that store `v`, least significant first.
pub open spec fn spec_i16_to_le(v: int) -> Seq<u8>
    recommends
        -0x8000 <= v < 0x8000,
{
    let u = if v < 0 {
        v + 0x1_0000
    } else {
        v
    };
    seq![(u % 256) as u8, (u / 256) as u8]
}

/// The four bytes that store `v`, least significant first.
pub open spec fn spec_i32_to_le(v: int) -> Seq<u8>
    recommends
        -0x8000_0000 <= v < 0x8000_0000,
{
    let u = if v < 0 {
        v + 0x1_0000_0000
    } else {
        v
    };
    seq![
        (u % 256) as u8,
        ((u / 256) % 256) as u8,
        ((u / 65536) % 256) as u8,
        (u / 16777216) as u8,
    ]
}

/// Reads a signed 16-bit integer from two little-endian bytes.
pub fn i16_from_le(b: &[u8; 2]) -> (v: i16)
    ensures
        v == spec_i16_le(b@),
{
    let u: u32 = b[0] as u32 + 256 * (b[1] as u32);
    if u < 0x8000 {
        u as i16
    } else {
        (u as i32 - 0x1_0000) as i16
    }
}

/// Reads a signed 32-bit integer from four little-endian bytes.
pub fn i32_from_le(b: &[u8; 4]) -> (v: i32)
    ensures
        v == spec_i32_le(b@),
{
    let u: u64 = b[0] as u64 + 256 * (b[1] as u64) + 65536 * (b[2] as u64) + 16777216 * (
    b[3] as u64);
    if u < 0x8000_0000 {
        u as i32
    } else {
        (u as i64 - 0x1_0000_0000) as i32
    }
}

/// Reading a 16-bit integer and storing it again gives the same two bytes.
pub proof fn lemma_i16_load_store(b: Seq<u8>)
    requires
        b.len() == 2,
    ensures
        -0x8000 <= spec_i16_le(b) < 0x8000,
        spec_i16_to_le(spec_i16_le(b)) == b,
{
    assert(spec_i16_to_le(spec_i16_le(b)) =~= b);
}

/// Reading a 32-bit integer and storing it again gives the same four bytes.
pub proof fn lemma_i32_load_store(b: Seq<u8>)
    requires
        b.len() == 4,
    ensures
        -0x8000_0000 <= spec_i32_le(b) < 0x8000_0000,
        spec_i32_to_le(spec_i32_le(b)) == b,
{
    assert(spec_i32_to_le(spec_i32_le(b)) =~= b);
}

} // verus!
