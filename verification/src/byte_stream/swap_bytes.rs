//! Reversal of the byte order of 16-, 32- and 64-bit values.

use vstd::prelude::*;
use crate::byte_stream::Endianness;
use crate::wire::{
    lemma_u16_from_bytes_round_trip, lemma_u32_from_bytes_round_trip,
    lemma_u64_from_bytes_round_trip, u16_be_bytes, u16_from_be_bytes, u16_from_le_bytes,
    u16_le_bytes, u32_be_bytes, u32_from_be_bytes, u32_from_le_bytes, u32_le_bytes, u64_be_bytes,
    u64_from_be_bytes, u64_from_le_bytes, u64_le_bytes,
};

verus! {

/// The value whose bytes, least significant first, are the bytes of `x`, most
/// significant first.
pub open spec fn spec_swap_2_bytes(x: u16) -> u16 {
    u16_from_le_bytes(u16_be_bytes(x))
}

/// The value whose bytes, least significant first, are the bytes of `x`, most
/// significant first.
pub open spec fn spec_swap_4_bytes(x: u32) -> u32 {
    u32_from_le_bytes(u32_be_bytes(x))
}

/// The value whose bytes, least significant first, are the bytes of `x`, most
/// significant first.
pub open spec fn spec_swap_8_bytes(x: u64) -> u64 {
    u64_from_le_bytes(u64_be_bytes(x))
}

/// Reverses the two bytes of `data`.
pub fn swap_2_bytes(data: u16) -> (r: u16)
    ensures
        r == spec_swap_2_bytes(data),
{
    let r: u16 = data >> 8 | data << 8;
    assert(r == (data / 0x100 + (data % 0x100) * 0x100) as u16) by (bit_vector)
        requires
            r == data >> 8 | data << 8,
    ;
    r
}

/// Reverses the four bytes of `data`.
pub fn swap_4_bytes(data: u32) -> (r: u32)
    ensures
        r == spec_swap_4_bytes(data),
{
    let r: u32 = data >> 24 & 0x0000_00FF
        | data >> 8 & 0x0000_FF00
        | data << 8 & 0x00FF_0000
        | data << 24 & 0xFF00_0000;
    assert(r == (data / 0x100_0000
        + (data / 0x1_0000 % 0x100) * 0x100
        + (data / 0x100 % 0x100) * 0x1_0000
        + (data % 0x100) * 0x100_0000) as u32) by (bit_vector)
        requires
            r == data >> 24 & 0x0000_00FF
                | data >> 8 & 0x0000_FF00
                | data << 8 & 0x00FF_0000
                | data << 24 & 0xFF00_0000,
    ;
    r
}

/// Reverses the eight bytes of `data`.
pub fn swap_8_bytes(data: u64) -> (r: u64)
    ensures
        r == spec_swap_8_bytes(data),
{
    let r: u64 = data >> 56 & 0x0000_0000_0000_00FF
        | data >> 40 & 0x0000_0000_0000_FF00
        | data >> 24 & 0x0000_0000_00FF_0000
        | data >> 8 & 0x0000_0000_FF00_0000
        | data << 8 & 0x0000_00FF_0000_0000
        | data << 24 & 0x0000_FF00_0000_0000
        | data << 40 & 0x00FF_0000_0000_0000
        | data << 56 & 0xFF00_0000_0000_0000;
    assert(r == (data / 0x100_0000_0000_0000
        + (data / 0x1_0000_0000_0000 % 0x100) * 0x100
        + (data / 0x100_0000_0000 % 0x100) * 0x1_0000
        + (data / 0x1_0000_0000 % 0x100) * 0x100_0000
        + (data / 0x100_0000 % 0x100) * 0x1_0000_0000
        + (data / 0x1_0000 % 0x100) * 0x100_0000_0000
        + (data / 0x100 % 0x100) * 0x1_0000_0000_0000
        + (data % 0x100) * 0x100_0000_0000_0000) as u64) by (bit_vector)
        requires
            r == data >> 56 & 0x0000_0000_0000_00FF
                | data >> 40 & 0x0000_0000_0000_FF00
                | data >> 24 & 0x0000_0000_00FF_0000
                | data >> 8 & 0x0000_0000_FF00_0000
                | data << 8 & 0x0000_00FF_0000_0000
                | data << 24 & 0x0000_FF00_0000_0000
                | data << 40 & 0x00FF_0000_0000_0000
                | data << 56 & 0xFF00_0000_0000_0000,
    ;
    r
}

/// Reversing the bytes turns the big-endian layout of a value into the
/// little-endian layout of the result, and the other way round.
pub proof fn lemma_swap_exchanges_layouts(a: u16, b: u32, c: u64)
    ensures
        u16_le_bytes(spec_swap_2_bytes(a)) == u16_be_bytes(a),
        u16_be_bytes(spec_swap_2_bytes(a)) == u16_le_bytes(a),
        u32_le_bytes(spec_swap_4_bytes(b)) == u32_be_bytes(b),
        u32_be_bytes(spec_swap_4_bytes(b)) == u32_le_bytes(b),
        u64_le_bytes(spec_swap_8_bytes(c)) == u64_be_bytes(c),
        u64_be_bytes(spec_swap_8_bytes(c)) == u64_le_bytes(c),
{
    lemma_u16_from_bytes_round_trip(u16_be_bytes(a), Endianness::LittleEndian);
    lemma_u32_from_bytes_round_trip(u32_be_bytes(b), Endianness::LittleEndian);
    lemma_u64_from_bytes_round_trip(u64_be_bytes(c), Endianness::LittleEndian);
    assert(u16_be_bytes(spec_swap_2_bytes(a)) =~= u16_le_bytes(a));
    assert(u32_be_bytes(spec_swap_4_bytes(b)) =~= u32_le_bytes(b));
    assert(u64_be_bytes(spec_swap_8_bytes(c)) =~= u64_le_bytes(c));
}

/// Reversing the value that bytes stand for when read least significant
/// first gives the value that they stand for when read most significant
/// first, and the other way round. This holds at each width, whichever
/// `s` has.
pub proof fn lemma_swap_of_raw(s: Seq<u8>)
    ensures
        s.len() == 2 ==> spec_swap_2_bytes(u16_from_le_bytes(s)) == u16_from_be_bytes(s)
            && spec_swap_2_bytes(u16_from_be_bytes(s)) == u16_from_le_bytes(s),
        s.len() == 4 ==> spec_swap_4_bytes(u32_from_le_bytes(s)) == u32_from_be_bytes(s)
            && spec_swap_4_bytes(u32_from_be_bytes(s)) == u32_from_le_bytes(s),
        s.len() == 8 ==> spec_swap_8_bytes(u64_from_le_bytes(s)) == u64_from_be_bytes(s)
            && spec_swap_8_bytes(u64_from_be_bytes(s)) == u64_from_le_bytes(s),
{
    if s.len() == 2 {
        lemma_u16_from_bytes_round_trip(s, Endianness::LittleEndian);
        lemma_u16_from_bytes_round_trip(s, Endianness::BigEndian);
    }
    if s.len() == 4 {
        lemma_u32_from_bytes_round_trip(s, Endianness::LittleEndian);
        lemma_u32_from_bytes_round_trip(s, Endianness::BigEndian);
    }
    if s.len() == 8 {
        lemma_u64_from_bytes_round_trip(s, Endianness::LittleEndian);
        lemma_u64_from_bytes_round_trip(s, Endianness::BigEndian);
    }
}

} // verus!
