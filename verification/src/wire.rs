//! The wire format of the primitive values, as functions between values and
//! byte sequences. The streams' contracts are stated over these.

use vstd::prelude::*;
use vstd::utf8::encode_utf8;
use crate::byte_stream::{reference_order, Endianness};

verus! {

/// The byte that stands for a boolean in a byte stream.
pub open spec fn bool_byte(v: bool) -> u8 {
    if v {
        1
    } else {
        0
    }
}

/// The unsigned byte with the bit pattern of `v` in two's complement.
pub open spec fn i8_bits(v: i8) -> u8 {
    if v >= 0 {
        v as u8
    } else {
        (v + 0x100) as u8
    }
}

/// The signed value with the bit pattern of `u` in two's complement.
pub open spec fn i8_of_bits(u: u8) -> i8 {
    if u < 0x80 {
        u as i8
    } else {
        (u - 0x100) as i8
    }
}

/// The unsigned 16-bit value with the bit pattern of `v` in two's complement.
pub open spec fn i16_bits(v: i16) -> u16 {
    if v >= 0 {
        v as u16
    } else {
        (v + 0x1_0000) as u16
    }
}

/// The signed value with the bit pattern of `u` in two's complement.
pub open spec fn i16_of_bits(u: u16) -> i16 {
    if u < 0x8000 {
        u as i16
    } else {
        (u - 0x1_0000) as i16
    }
}

/// The unsigned 32-bit value with the bit pattern of `v` in two's complement.
pub open spec fn i32_bits(v: i32) -> u32 {
    if v >= 0 {
        v as u32
    } else {
        (v + 0x1_0000_0000) as u32
    }
}

/// The signed value with the bit pattern of `u` in two's complement.
pub open spec fn i32_of_bits(u: u32) -> i32 {
    if u < 0x8000_0000 {
        u as i32
    } else {
        (u - 0x1_0000_0000) as i32
    }
}

/// The unsigned 64-bit value with the bit pattern of `v` in two's complement.
pub open spec fn i64_bits(v: i64) -> u64 {
    if v >= 0 {
        v as u64
    } else {
        (v + 0x1_0000_0000_0000_0000) as u64
    }
}

/// The signed value with the bit pattern of `u` in two's complement.
pub open spec fn i64_of_bits(u: u64) -> i64 {
    if u < 0x8000_0000_0000_0000 {
        u as i64
    } else {
        (u - 0x1_0000_0000_0000_0000) as i64
    }
}

/// The two bytes of `x`, least significant first.
pub open spec fn u16_le_bytes(x: u16) -> Seq<u8> {
    seq![(x % 0x100) as u8, (x / 0x100) as u8]
}

/// The two bytes of `x`, most significant first.
pub open spec fn u16_be_bytes(x: u16) -> Seq<u8> {
    seq![(x / 0x100) as u8, (x % 0x100) as u8]
}

/// The value whose bytes, least significant first, are `s[0]` and `s[1]`.
pub open spec fn u16_from_le_bytes(s: Seq<u8>) -> u16
    recommends
        s.len() == 2,
{
    (s[0] + s[1] * 0x100) as u16
}

/// The value whose bytes, most significant first, are `s[0]` and `s[1]`.
pub open spec fn u16_from_be_bytes(s: Seq<u8>) -> u16
    recommends
        s.len() == 2,
{
    (s[0] * 0x100 + s[1]) as u16
}

/// The four bytes of `x`, least significant first.
pub open spec fn u32_le_bytes(x: u32) -> Seq<u8> {
    seq![
        (x % 0x100) as u8,
        (x / 0x100 % 0x100) as u8,
        (x / 0x1_0000 % 0x100) as u8,
        (x / 0x100_0000) as u8,
    ]
}

/// The four bytes of `x`, most significant first.
pub open spec fn u32_be_bytes(x: u32) -> Seq<u8> {
    seq![
        (x / 0x100_0000) as u8,
        (x / 0x1_0000 % 0x100) as u8,
        (x / 0x100 % 0x100) as u8,
        (x % 0x100) as u8,
    ]
}

/// The value whose bytes, least significant first, are `s[0]` to `s[3]`.
pub open spec fn u32_from_le_bytes(s: Seq<u8>) -> u32
    recommends
        s.len() == 4,
{
    (s[0] + s[1] * 0x100 + s[2] * 0x1_0000 + s[3] * 0x100_0000) as u32
}

/// The value whose bytes, most significant first, are `s[0]` to `s[3]`.
pub open spec fn u32_from_be_bytes(s: Seq<u8>) -> u32
    recommends
        s.len() == 4,
{
    (s[0] * 0x100_0000 + s[1] * 0x1_0000 + s[2] * 0x100 + s[3]) as u32
}

/// The eight bytes of `x`, least significant first.
pub open spec fn u64_le_bytes(x: u64) -> Seq<u8> {
    seq![
        (x % 0x100) as u8,
        (x / 0x100 % 0x100) as u8,
        (x / 0x1_0000 % 0x100) as u8,
        (x / 0x100_0000 % 0x100) as u8,
        (x / 0x1_0000_0000 % 0x100) as u8,
        (x / 0x100_0000_0000 % 0x100) as u8,
        (x / 0x1_0000_0000_0000 % 0x100) as u8,
        (x / 0x100_0000_0000_0000) as u8,
    ]
}

/// The eight bytes of `x`, most significant first.
pub open spec fn u64_be_bytes(x: u64) -> Seq<u8> {
    seq![
        (x / 0x100_0000_0000_0000) as u8,
        (x / 0x1_0000_0000_0000 % 0x100) as u8,
        (x / 0x100_0000_0000 % 0x100) as u8,
        (x / 0x1_0000_0000 % 0x100) as u8,
        (x / 0x100_0000 % 0x100) as u8,
        (x / 0x1_0000 % 0x100) as u8,
        (x / 0x100 % 0x100) as u8,
        (x % 0x100) as u8,
    ]
}

/// The value whose bytes, least significant first, are `s[0]` to `s[7]`.
pub open spec fn u64_from_le_bytes(s: Seq<u8>) -> u64
    recommends
        s.len() == 8,
{
    (s[0] + s[1] * 0x100 + s[2] * 0x1_0000 + s[3] * 0x100_0000 + s[4] * 0x1_0000_0000 + s[5]
        * 0x100_0000_0000 + s[6] * 0x1_0000_0000_0000 + s[7] * 0x100_0000_0000_0000) as u64
}

/// The value whose bytes, most significant first, are `s[0]` to `s[7]`.
pub open spec fn u64_from_be_bytes(s: Seq<u8>) -> u64
    recommends
        s.len() == 8,
{
    (s[0] * 0x100_0000_0000_0000 + s[1] * 0x1_0000_0000_0000 + s[2] * 0x100_0000_0000 + s[3]
        * 0x1_0000_0000 + s[4] * 0x100_0000 + s[5] * 0x1_0000 + s[6] * 0x100 + s[7]) as u64
}

/// The two bytes of `x` in the given order.
pub open spec fn u16_bytes(x: u16, order: Endianness) -> Seq<u8> {
    match order {
        Endianness::BigEndian => u16_be_bytes(x),
        Endianness::LittleEndian => u16_le_bytes(x),
    }
}

/// The value that two bytes in the given order stand for.
pub open spec fn u16_from_bytes(s: Seq<u8>, order: Endianness) -> u16
    recommends
        s.len() == 2,
{
    match order {
        Endianness::BigEndian => u16_from_be_bytes(s),
        Endianness::LittleEndian => u16_from_le_bytes(s),
    }
}

/// The four bytes of `x` in the given order.
pub open spec fn u32_bytes(x: u32, order: Endianness) -> Seq<u8> {
    match order {
        Endianness::BigEndian => u32_be_bytes(x),
        Endianness::LittleEndian => u32_le_bytes(x),
    }
}

/// The value that four bytes in the given order stand for.
pub open spec fn u32_from_bytes(s: Seq<u8>, order: Endianness) -> u32
    recommends
        s.len() == 4,
{
    match order {
        Endianness::BigEndian => u32_from_be_bytes(s),
        Endianness::LittleEndian => u32_from_le_bytes(s),
    }
}

/// The eight bytes of `x` in the given order.
pub open spec fn u64_bytes(x: u64, order: Endianness) -> Seq<u8> {
    match order {
        Endianness::BigEndian => u64_be_bytes(x),
        Endianness::LittleEndian => u64_le_bytes(x),
    }
}

/// The value that eight bytes in the given order stand for.
pub open spec fn u64_from_bytes(s: Seq<u8>, order: Endianness) -> u64
    recommends
        s.len() == 8,
{
    match order {
        Endianness::BigEndian => u64_from_be_bytes(s),
        Endianness::LittleEndian => u64_from_le_bytes(s),
    }
}

/// A text field: the number of bytes of the text's UTF-8 encoding, as a
/// 32-bit value in the given order, then those bytes.
pub open spec fn text_bytes(text: Seq<char>, order: Endianness) -> Seq<u8> {
    u32_bytes(encode_utf8(text).len() as u32, order) + encode_utf8(text)
}

/// A 16-bit value is the sum of its bytes, each weighted by its place.
proof fn lemma_u16_split(x: u16)
    by (bit_vector)
    ensures
        x == (x % 0x100) + (x / 0x100) * 0x100,
        x / 0x100 < 0x100,
{
}

/// Each byte can be read off the weighted sum of two bytes.
proof fn lemma_u16_join(b0: u8, b1: u8)
    by (bit_vector)
    ensures
        b0 + b1 * 0x100 <= 0xffff,
        ((b0 + b1 * 0x100) as u16) % 0x100 == b0,
        ((b0 + b1 * 0x100) as u16) / 0x100 == b1,
{
}

/// A 32-bit value is the sum of its bytes, each weighted by its place.
proof fn lemma_u32_split(x: u32)
    by (bit_vector)
    ensures
        x == (x % 0x100) + (x / 0x100 % 0x100) * 0x100 + (x / 0x1_0000 % 0x100) * 0x1_0000 + (x
            / 0x100_0000) * 0x100_0000,
        x / 0x100_0000 < 0x100,
{
}

/// Each byte can be read off the weighted sum of four bytes.
proof fn lemma_u32_join(b0: u8, b1: u8, b2: u8, b3: u8)
    by (bit_vector)
    ensures
        b0 + b1 * 0x100 + b2 * 0x1_0000 + b3 * 0x100_0000 <= 0xffff_ffff,
        ((b0 + b1 * 0x100 + b2 * 0x1_0000 + b3 * 0x100_0000) as u32) % 0x100 == b0,
        ((b0 + b1 * 0x100 + b2 * 0x1_0000 + b3 * 0x100_0000) as u32) / 0x100 % 0x100 == b1,
        ((b0 + b1 * 0x100 + b2 * 0x1_0000 + b3 * 0x100_0000) as u32) / 0x1_0000 % 0x100 == b2,
        ((b0 + b1 * 0x100 + b2 * 0x1_0000 + b3 * 0x100_0000) as u32) / 0x100_0000 == b3,
{
}

/// A 64-bit value is the sum of its bytes, each weighted by its place.
proof fn lemma_u64_split(x: u64)
    by (bit_vector)
    ensures
        x == (x % 0x100) + (x / 0x100 % 0x100) * 0x100 + (x / 0x1_0000 % 0x100) * 0x1_0000 + (x
            / 0x100_0000 % 0x100) * 0x100_0000 + (x / 0x1_0000_0000 % 0x100) * 0x1_0000_0000 + (x
            / 0x100_0000_0000 % 0x100) * 0x100_0000_0000 + (x / 0x1_0000_0000_0000 % 0x100)
            * 0x1_0000_0000_0000 + (x / 0x100_0000_0000_0000) * 0x100_0000_0000_0000,
        x / 0x100_0000_0000_0000 < 0x100,
{
}

/// The weighted sum of eight bytes, as a 64-bit value.
spec fn u64_join(b0: u8, b1: u8, b2: u8, b3: u8, b4: u8, b5: u8, b6: u8, b7: u8) -> u64 {
    (b0 + b1 * 0x100 + b2 * 0x1_0000 + b3 * 0x100_0000 + b4 * 0x1_0000_0000 + b5
        * 0x100_0000_0000 + b6 * 0x1_0000_0000_0000 + b7 * 0x100_0000_0000_0000) as u64
}

/// Each byte can be read off the weighted sum of eight bytes.
proof fn lemma_u64_join(b0: u8, b1: u8, b2: u8, b3: u8, b4: u8, b5: u8, b6: u8, b7: u8)
    by (bit_vector)
    ensures
        b0 + b1 * 0x100 + b2 * 0x1_0000 + b3 * 0x100_0000 + b4 * 0x1_0000_0000 + b5
            * 0x100_0000_0000 + b6 * 0x1_0000_0000_0000 + b7 * 0x100_0000_0000_0000
            <= 0xffff_ffff_ffff_ffff,
        u64_join(b0, b1, b2, b3, b4, b5, b6, b7) % 0x100 == b0,
        u64_join(b0, b1, b2, b3, b4, b5, b6, b7) / 0x100 % 0x100 == b1,
        u64_join(b0, b1, b2, b3, b4, b5, b6, b7) / 0x1_0000 % 0x100 == b2,
        u64_join(b0, b1, b2, b3, b4, b5, b6, b7) / 0x100_0000 % 0x100 == b3,
        u64_join(b0, b1, b2, b3, b4, b5, b6, b7) / 0x1_0000_0000 % 0x100 == b4,
        u64_join(b0, b1, b2, b3, b4, b5, b6, b7) / 0x100_0000_0000 % 0x100 == b5,
        u64_join(b0, b1, b2, b3, b4, b5, b6, b7) / 0x1_0000_0000_0000 % 0x100 == b6,
        u64_join(b0, b1, b2, b3, b4, b5, b6, b7) / 0x100_0000_0000_0000 == b7,
{
}

/// Decoding the bytes of a 16-bit value in the order they were laid out in
/// gives the value back.
pub proof fn lemma_u16_bytes_round_trip(x: u16, order: Endianness)
    ensures
        u16_bytes(x, order).len() == 2,
        u16_from_bytes(u16_bytes(x, order), order) == x,
{
    lemma_u16_split(x);
}

/// Laying out the value of two bytes in the order they were read in gives
/// the bytes back.
pub proof fn lemma_u16_from_bytes_round_trip(s: Seq<u8>, order: Endianness)
    requires
        s.len() == 2,
    ensures
        u16_bytes(u16_from_bytes(s, order), order) == s,
{
    match order {
        Endianness::BigEndian => lemma_u16_join(s[1], s[0]),
        Endianness::LittleEndian => lemma_u16_join(s[0], s[1]),
    }
    assert(u16_bytes(u16_from_bytes(s, order), order) =~= s);
}

/// Decoding the bytes of a 32-bit value in the order they were laid out in
/// gives the value back.
pub proof fn lemma_u32_bytes_round_trip(x: u32, order: Endianness)
    ensures
        u32_bytes(x, order).len() == 4,
        u32_from_bytes(u32_bytes(x, order), order) == x,
{
    lemma_u32_split(x);
}

/// Laying out the value of four bytes in the order they were read in gives
/// the bytes back.
pub proof fn lemma_u32_from_bytes_round_trip(s: Seq<u8>, order: Endianness)
    requires
        s.len() == 4,
    ensures
        u32_bytes(u32_from_bytes(s, order), order) == s,
{
    match order {
        Endianness::BigEndian => lemma_u32_join(s[3], s[2], s[1], s[0]),
        Endianness::LittleEndian => lemma_u32_join(s[0], s[1], s[2], s[3]),
    }
    assert(u32_bytes(u32_from_bytes(s, order), order) =~= s);
}

/// Decoding the bytes of a 64-bit value in the order they were laid out in
/// gives the value back.
pub proof fn lemma_u64_bytes_round_trip(x: u64, order: Endianness)
    ensures
        u64_bytes(x, order).len() == 8,
        u64_from_bytes(u64_bytes(x, order), order) == x,
{
    lemma_u64_split(x);
}

/// Laying out the value of eight bytes in the order they were read in gives
/// the bytes back.
pub proof fn lemma_u64_from_bytes_round_trip(s: Seq<u8>, order: Endianness)
    requires
        s.len() == 8,
    ensures
        u64_bytes(u64_from_bytes(s, order), order) == s,
{
    match order {
        Endianness::BigEndian => lemma_u64_join(s[7], s[6], s[5], s[4], s[3], s[2], s[1], s[0]),
        Endianness::LittleEndian => lemma_u64_join(
            s[0],
            s[1],
            s[2],
            s[3],
            s[4],
            s[5],
            s[6],
            s[7],
        ),
    }
    assert(u64_bytes(u64_from_bytes(s, order), order) =~= s);
}

/// A signed value is the signed reading of its own bit pattern, at each width.
pub proof fn lemma_signed_bits_round_trip(a: i8, b: i16, c: i32, d: i64)
    ensures
        i8_of_bits(i8_bits(a)) == a,
        i16_of_bits(i16_bits(b)) == b,
        i32_of_bits(i32_bits(c)) == c,
        i64_of_bits(i64_bits(d)) == d,
{
}

/// The bytes of `x` as a raw copy holds them: in the reference order.
pub fn u16_raw_bytes(x: u16) -> (b: [u8; 2])
    ensures
        b@ == u16_bytes(x, reference_order()),
{
    assert((x & 0xff) == x % 0x100 && (x >> 8) == x / 0x100 && (x >> 8) < 0x100) by (bit_vector);
    let b: [u8; 2] = [(x & 0xff) as u8, (x >> 8) as u8];
    assert(b@ =~= u16_le_bytes(x));
    b
}

/// The value of which two bytes are a raw copy: they are read in the
/// reference order.
pub fn u16_from_raw_bytes(b: &[u8]) -> (x: u16)
    requires
        b@.len() == 2,
    ensures
        x == u16_from_bytes(b@, reference_order()),
{
    let b0: u8 = b[0];
    let b1: u8 = b[1];
    assert(((b0 as u16) | (b1 as u16) << 8) == (b0 + b1 * 0x100) as u16) by (bit_vector);
    (b0 as u16) | (b1 as u16) << 8
}

/// The bytes of `x` as a raw copy holds them: in the reference order.
pub fn u32_raw_bytes(x: u32) -> (b: [u8; 4])
    ensures
        b@ == u32_bytes(x, reference_order()),
{
    assert((x & 0xff) == x % 0x100 && (x >> 8 & 0xff) == x / 0x100 % 0x100 && (x >> 16 & 0xff) == x
        / 0x1_0000 % 0x100 && (x >> 24) == x / 0x100_0000 && (x >> 24) < 0x100) by (bit_vector);
    let b: [u8; 4] = [
        (x & 0xff) as u8,
        (x >> 8 & 0xff) as u8,
        (x >> 16 & 0xff) as u8,
        (x >> 24) as u8,
    ];
    assert(b@ =~= u32_le_bytes(x));
    b
}

/// The value of which four bytes are a raw copy: they are read in the
/// reference order.
pub fn u32_from_raw_bytes(b: &[u8]) -> (x: u32)
    requires
        b@.len() == 4,
    ensures
        x == u32_from_bytes(b@, reference_order()),
{
    let b0: u8 = b[0];
    let b1: u8 = b[1];
    let b2: u8 = b[2];
    let b3: u8 = b[3];
    assert(((b0 as u32) | (b1 as u32) << 8 | (b2 as u32) << 16 | (b3 as u32) << 24) == (b0 + b1
        * 0x100 + b2 * 0x1_0000 + b3 * 0x100_0000) as u32) by (bit_vector);
    (b0 as u32) | (b1 as u32) << 8 | (b2 as u32) << 16 | (b3 as u32) << 24
}

/// The bytes of `x` as a raw copy holds them: in the reference order.
pub fn u64_raw_bytes(x: u64) -> (b: [u8; 8])
    ensures
        b@ == u64_bytes(x, reference_order()),
{
    assert((x & 0xff) == x % 0x100 && (x >> 8 & 0xff) == x / 0x100 % 0x100 && (x >> 16 & 0xff) == x
        / 0x1_0000 % 0x100 && (x >> 24 & 0xff) == x / 0x100_0000 % 0x100 && (x >> 32 & 0xff) == x
        / 0x1_0000_0000 % 0x100 && (x >> 40 & 0xff) == x / 0x100_0000_0000 % 0x100 && (x >> 48
        & 0xff) == x / 0x1_0000_0000_0000 % 0x100 && (x >> 56) == x / 0x100_0000_0000_0000 && (x
        >> 56) < 0x100) by (bit_vector);
    let b: [u8; 8] = [
        (x & 0xff) as u8,
        (x >> 8 & 0xff) as u8,
        (x >> 16 & 0xff) as u8,
        (x >> 24 & 0xff) as u8,
        (x >> 32 & 0xff) as u8,
        (x >> 40 & 0xff) as u8,
        (x >> 48 & 0xff) as u8,
        (x >> 56) as u8,
    ];
    assert(b@ =~= u64_le_bytes(x));
    b
}

/// The value of which eight bytes are a raw copy: they are read in the
/// reference order.
pub fn u64_from_raw_bytes(b: &[u8]) -> (x: u64)
    requires
        b@.len() == 8,
    ensures
        x == u64_from_bytes(b@, reference_order()),
{
    let b0: u8 = b[0];
    let b1: u8 = b[1];
    let b2: u8 = b[2];
    let b3: u8 = b[3];
    let b4: u8 = b[4];
    let b5: u8 = b[5];
    let b6: u8 = b[6];
    let b7: u8 = b[7];
    assert(((b0 as u64) | (b1 as u64) << 8 | (b2 as u64) << 16 | (b3 as u64) << 24 | (b4 as u64)
        << 32 | (b5 as u64) << 40 | (b6 as u64) << 48 | (b7 as u64) << 56) == (b0 + b1 * 0x100 + b2
        * 0x1_0000 + b3 * 0x100_0000 + b4 * 0x1_0000_0000 + b5 * 0x100_0000_0000 + b6
        * 0x1_0000_0000_0000 + b7 * 0x100_0000_0000_0000) as u64) by (bit_vector);
    (b0 as u64) | (b1 as u64) << 8 | (b2 as u64) << 16 | (b3 as u64) << 24 | (b4 as u64) << 32 | (
    b5 as u64) << 40 | (b6 as u64) << 48 | (b7 as u64) << 56
}

/// The bit pattern of a signed byte.
pub fn i8_to_bits(v: i8) -> (u: u8)
    ensures
        u == i8_bits(v),
{
    assert(v as u8 == if v >= 0 { v as u8 } else { (v + 0x100) as u8 }) by (bit_vector);
    v as u8
}

/// The signed byte with a given bit pattern.
pub fn i8_from_bits(u: u8) -> (v: i8)
    ensures
        v == i8_of_bits(u),
{
    assert(u as i8 == if u < 0x80 { u as i8 } else { (u - 0x100) as i8 }) by (bit_vector);
    u as i8
}

/// The bit pattern of a signed 16-bit value.
pub fn i16_to_bits(v: i16) -> (u: u16)
    ensures
        u == i16_bits(v),
{
    assert(v as u16 == if v >= 0 { v as u16 } else { (v + 0x1_0000) as u16 }) by (bit_vector);
    v as u16
}

/// The signed 16-bit value with a given bit pattern.
pub fn i16_from_bits(u: u16) -> (v: i16)
    ensures
        v == i16_of_bits(u),
{
    assert(u as i16 == if u < 0x8000 { u as i16 } else { (u - 0x1_0000) as i16 }) by (bit_vector);
    u as i16
}

/// The bit pattern of a signed 32-bit value.
pub fn i32_to_bits(v: i32) -> (u: u32)
    ensures
        u == i32_bits(v),
{
    assert(v as u32 == if v >= 0 { v as u32 } else { (v + 0x1_0000_0000) as u32 })
        by (bit_vector);
    v as u32
}

/// The signed 32-bit value with a given bit pattern.
pub fn i32_from_bits(u: u32) -> (v: i32)
    ensures
        v == i32_of_bits(u),
{
    assert(u as i32 == if u < 0x8000_0000 { u as i32 } else { (u - 0x1_0000_0000) as i32 })
        by (bit_vector);
    u as i32
}

/// The bit pattern of a signed 64-bit value.
pub fn i64_to_bits(v: i64) -> (u: u64)
    ensures
        u == i64_bits(v),
{
    assert(v as u64 == if v >= 0 { v as u64 } else { (v + 0x1_0000_0000_0000_0000) as u64 })
        by (bit_vector);
    v as u64
}

/// The signed 64-bit value with a given bit pattern.
pub fn i64_from_bits(u: u64) -> (v: i64)
    ensures
        v == i64_of_bits(u),
{
    assert(u as i64 == if u < 0x8000_0000_0000_0000 {
        u as i64
    } else {
        (u - 0x1_0000_0000_0000_0000) as i64
    }) by (bit_vector);
    u as i64
}

} // verus!
