//! The bit reader: takes fields of any width, bit by bit, off a borrowed
//! byte sequence.

use vstd::prelude::*;
use vstd::utf8::{decode_utf8, encode_utf8_decode_utf8, valid_utf8};
use crate::bits::{bits_of_bytes, byte_of_bits, bytes_for, bytes_of_bits, lemma_unpacked_bits};
use crate::byte_stream::swap_bytes::{
    lemma_swap_of_raw, swap_2_bytes, swap_4_bytes, swap_8_bytes,
};
use crate::byte_stream::{get_platform_endianness, Endianness};
use crate::error::StreamError;
use crate::wire::{
    i16_from_bits, i16_of_bits, i32_from_bits, i32_of_bits, i64_from_bits, i64_of_bits,
    i8_from_bits, i8_of_bits, u16_from_bytes, u16_from_raw_bytes, u32_from_bytes,
    u32_from_raw_bytes, u64_from_bytes, u64_from_raw_bytes,
};

verus! {

/// A reader of fields of any bit width over a source that it never changes.
/// `bit_head` counts the bits taken so far. Multi-byte values are put
/// together in the order that `endianness` names.
pub struct InputBitStream<'a> {
    /// The source.
    pub buf: &'a [u8],
    /// The cursor: the number of bits taken so far.
    pub bit_head: usize,
    /// The order in which the bytes of a multi-byte value are put together.
    pub endianness: Endianness,
}

impl<'a> Default for InputBitStream<'a> {
    /// A reader over an empty source.
    fn default() -> (s: Self)
        ensures
            s.buf@.len() == 0,
            s.bit_head == 0,
            s.endianness == Endianness::BigEndian,
    {
        InputBitStream { buf: &[], bit_head: 0, endianness: Endianness::BigEndian }
    }
}

impl<'a> InputBitStream<'a> {
    /// The bit stream that the source holds.
    pub open spec fn bits(&self) -> Seq<bool> {
        bits_of_bytes(self.buf@)
    }

    /// A field of `n` bits ends within the source, at a position that the
    /// cursor can hold.
    pub open spec fn has_bits(&self, n: nat) -> bool {
        self.bit_head + n <= 8 * self.buf@.len() && self.bit_head + n <= usize::MAX
    }

    /// The next `n` bits.
    pub open spec fn next_bits(&self, n: nat) -> Seq<bool>
        recommends
            self.has_bits(n),
    {
        self.bits().subrange(self.bit_head as int, (self.bit_head + n) as int)
    }

    /// `self` is `prev` after `n` bits were taken.
    pub open spec fn advanced(&self, prev: Self, n: nat) -> bool {
        &&& self.buf == prev.buf
        &&& self.endianness == prev.endianness
        &&& self.bit_head == prev.bit_head + n
    }

    /// The outcome `r` of reading a field of `n` bits that stands for
    /// `value`, and the reader `self` that it leaves of `prev`: the value and
    /// a cursor `n` bits on where the source has them, else a refusal and
    /// the reader as it was.
    pub open spec fn took<T>(
        &self,
        prev: Self,
        n: nat,
        value: T,
        r: Result<T, StreamError>,
    ) -> bool {
        if prev.has_bits(n) {
            r == Ok::<T, StreamError>(value) && self.advanced(prev, n)
        } else {
            r == Err::<T, StreamError>(StreamError::OutOfBounds) && *self == prev
        }
    }

    /// The byte length that the next text field declares.
    pub open spec fn next_text_len(&self) -> nat
        recommends
            self.has_bits(32),
    {
        u32_from_bytes(bytes_of_bits(self.next_bits(32)), self.endianness) as nat
    }

    /// The bytes of the next text field, after its length prefix.
    pub open spec fn next_text_bytes(&self) -> Seq<u8>
        recommends
            self.has_bits(32 + 8 * self.next_text_len()),
    {
        bytes_of_bits(
            self.bits().subrange(
                self.bit_head + 32,
                self.bit_head + 32 + 8 * self.next_text_len(),
            ),
        )
    }

    /// The outcome `r` of reading a text field, and the reader `self` that
    /// it leaves of `prev`. Where the length prefix or the bytes that it
    /// announces reach past the end of the source, the read is refused as
    /// out of bounds; where those bytes are not valid UTF-8, as malformed;
    /// either way the reader is as it was. Else the outcome is the text that
    /// the bytes encode, and the cursor is past them.
    pub open spec fn took_text(&self, prev: Self, r: Result<String, StreamError>) -> bool {
        if !prev.has_bits(32) || !prev.has_bits(32 + 8 * prev.next_text_len()) {
            r is Err && r->Err_0 == StreamError::OutOfBounds && *self == prev
        } else if !valid_utf8(prev.next_text_bytes()) {
            r is Err && r->Err_0 == StreamError::MalformedText && *self == prev
        } else {
            r is Ok && r->Ok_0@ == decode_utf8(prev.next_text_bytes()) && self.advanced(
                prev,
                32 + 8 * prev.next_text_len(),
            )
        }
    }

    /// Index of the byte that the cursor is in.
    fn byte_offset(&self) -> (r: usize)
        ensures
            r == self.bit_head / 8,
    {
        self.bit_head / 8
    }

    /// Index, within its byte, of the bit that the cursor is at.
    fn bit_offset(&self) -> (r: usize)
        ensures
            r == self.bit_head % 8,
    {
        self.bit_head % 8
    }

    /// A reader at the start of `buf`, which puts multi-byte values together
    /// most significant byte first.
    pub fn new(buf: &'a [u8]) -> (s: InputBitStream<'a>)
        ensures
            s.buf == buf,
            s.bit_head == 0,
            s.endianness == Endianness::BigEndian,
    {
        InputBitStream { buf, bit_head: 0, endianness: Endianness::BigEndian }
    }

    /// Takes a field of `bit_count` bits, at most eight, as a byte of which
    /// they are the low bits. The bits left in the byte that the cursor is
    /// in come first; where they are too few, the low bits of the next byte
    /// go above them.
    fn read_byte(&mut self, bit_count: usize) -> (r: Result<u8, StreamError>)
        requires
            1 <= bit_count <= 8,
        ensures
            final(self).took(
                *old(self),
                bit_count as nat,
                byte_of_bits(old(self).next_bits(bit_count as nat)),
                r,
            ),
    {
        let byte_offset: usize = self.byte_offset();
        let bit_offset: usize = self.bit_offset();
        let bits_free_this_byte: usize = 8 - bit_offset;
        let spans: bool = bits_free_this_byte < bit_count;
        let len: usize = self.buf.len();
        if byte_offset >= len || (spans && byte_offset + 1 >= len) || bit_count > usize::MAX
            - self.bit_head {
            return Err(StreamError::OutOfBounds);
        }
        let off: u8 = bit_offset as u8;
        let n: u8 = bit_count as u8;
        let mut out_data: u8 = self.buf[byte_offset] >> off;
        if spans {
            out_data |= self.buf[byte_offset + 1] << (8 - off);
        }
        out_data &= 0xFFu8 >> (8 - n);
        proof {
            lemma_unpacked_bits(self.buf@, self.bit_head as nat, bit_count as nat, out_data);
        }
        self.bit_head += bit_count;
        Ok(out_data)
    }

    /// Takes `byte_count` bytes of eight bits each, or nothing where the
    /// source has not that many bits left.
    fn read_bytes(&mut self, byte_count: usize) -> (r: Result<Vec<u8>, StreamError>)
        ensures
            old(self).has_bits(8 * byte_count as nat) ==> r is Ok && r->Ok_0@ == bytes_of_bits(
                old(self).next_bits(8 * byte_count as nat),
            ) && final(self).advanced(*old(self), 8 * byte_count as nat),
            !old(self).has_bits(8 * byte_count as nat) ==> r is Err && r->Err_0
                == StreamError::OutOfBounds && *final(self) == *old(self),
    {
        if byte_count > (usize::MAX - self.bit_head) / 8 {
            return Err(StreamError::OutOfBounds);
        }
        let end: usize = self.bit_head + 8 * byte_count;
        if bytes_for(end) > self.buf.len() {
            return Err(StreamError::OutOfBounds);
        }
        let ghost taken = old(self).next_bits(8 * byte_count as nat);
        let mut bytes: Vec<u8> = Vec::new();
        let mut i: usize = 0;
        while i < byte_count
            invariant
                0 <= i <= byte_count,
                end == old(self).bit_head + 8 * byte_count,
                end <= 8 * self.buf@.len(),
                taken == old(self).next_bits(8 * byte_count as nat),
                self.advanced(*old(self), 8 * i as nat),
                bytes@.len() == i,
                forall|k: int| 0 <= k < i ==> bytes@[k] == bytes_of_bits(taken)[k],
            decreases byte_count - i,
        {
            assert(self.next_bits(8) =~= taken.subrange(8 * i, 8 * i + 8));
            match self.read_byte(8) {
                Ok(byte) => {
                    bytes.push(byte);
                },
                Err(e) => {
                    return Err(e);
                },
            }
            i += 1;
        }
        assert(bytes@ =~= bytes_of_bits(taken));
        Ok(bytes)
    }

    /// Takes one bit as a boolean.
    pub fn read_bool(&mut self) -> (r: Result<bool, StreamError>)
        ensures
            final(self).took(*old(self), 1, old(self).bits()[old(self).bit_head as int], r),
    {
        match self.read_byte(1) {
            Ok(byte) => Ok(byte == 1),
            Err(e) => Err(e),
        }
    }

    /// Takes eight bits as a byte of which the first is the least
    /// significant.
    pub fn read_u8(&mut self) -> (r: Result<u8, StreamError>)
        ensures
            final(self).took(*old(self), 8, byte_of_bits(old(self).next_bits(8)), r),
    {
        self.read_byte(8)
    }

    /// Takes eight bits as a signed byte.
    pub fn read_i8(&mut self) -> (r: Result<i8, StreamError>)
        ensures
            final(self).took(*old(self), 8, i8_of_bits(byte_of_bits(old(self).next_bits(8))), r),
    {
        match self.read_byte(8) {
            Ok(byte) => Ok(i8_from_bits(byte)),
            Err(e) => Err(e),
        }
    }

    /// Takes two bytes and puts them together in the reader's order.
    pub fn read_u16(&mut self) -> (r: Result<u16, StreamError>)
        ensures
            final(self).took(
                *old(self),
                16,
                u16_from_bytes(bytes_of_bits(old(self).next_bits(16)), old(self).endianness),
                r,
            ),
    {
        match self.read_bytes(2) {
            Ok(bytes) => {
                let data: u16 = u16_from_raw_bytes(bytes.as_slice());
                proof {
                    lemma_swap_of_raw(bytes@);
                }
                if self.endianness != get_platform_endianness() {
                    Ok(swap_2_bytes(data))
                } else {
                    Ok(data)
                }
            },
            Err(e) => Err(e),
        }
    }

    /// Takes two bytes as a signed value, in the reader's order.
    pub fn read_i16(&mut self) -> (r: Result<i16, StreamError>)
        ensures
            final(self).took(
                *old(self),
                16,
                i16_of_bits(
                    u16_from_bytes(bytes_of_bits(old(self).next_bits(16)), old(self).endianness),
                ),
                r,
            ),
    {
        match self.read_u16() {
            Ok(bits) => Ok(i16_from_bits(bits)),
            Err(e) => Err(e),
        }
    }

    /// Takes four bytes and puts them together in the reader's order.
    pub fn read_u32(&mut self) -> (r: Result<u32, StreamError>)
        ensures
            final(self).took(
                *old(self),
                32,
                u32_from_bytes(bytes_of_bits(old(self).next_bits(32)), old(self).endianness),
                r,
            ),
    {
        match self.read_bytes(4) {
            Ok(bytes) => {
                let data: u32 = u32_from_raw_bytes(bytes.as_slice());
                proof {
                    lemma_swap_of_raw(bytes@);
                }
                if self.endianness != get_platform_endianness() {
                    Ok(swap_4_bytes(data))
                } else {
                    Ok(data)
                }
            },
            Err(e) => Err(e),
        }
    }

    /// Takes four bytes as a signed value, in the reader's order.
    pub fn read_i32(&mut self) -> (r: Result<i32, StreamError>)
        ensures
            final(self).took(
                *old(self),
                32,
                i32_of_bits(
                    u32_from_bytes(bytes_of_bits(old(self).next_bits(32)), old(self).endianness),
                ),
                r,
            ),
    {
        match self.read_u32() {
            Ok(bits) => Ok(i32_from_bits(bits)),
            Err(e) => Err(e),
        }
    }

    /// Takes eight bytes and puts them together in the reader's order.
    pub fn read_u64(&mut self) -> (r: Result<u64, StreamError>)
        ensures
            final(self).took(
                *old(self),
                64,
                u64_from_bytes(bytes_of_bits(old(self).next_bits(64)), old(self).endianness),
                r,
            ),
    {
        match self.read_bytes(8) {
            Ok(bytes) => {
                let data: u64 = u64_from_raw_bytes(bytes.as_slice());
                proof {
                    lemma_swap_of_raw(bytes@);
                }
                if self.endianness != get_platform_endianness() {
                    Ok(swap_8_bytes(data))
                } else {
                    Ok(data)
                }
            },
            Err(e) => Err(e),
        }
    }

    /// Takes eight bytes as a signed value, in the reader's order.
    pub fn read_i64(&mut self) -> (r: Result<i64, StreamError>)
        ensures
            final(self).took(
                *old(self),
                64,
                i64_of_bits(
                    u64_from_bytes(bytes_of_bits(old(self).next_bits(64)), old(self).endianness),
                ),
                r,
            ),
    {
        match self.read_u64() {
            Ok(bits) => Ok(i64_from_bits(bits)),
            Err(e) => Err(e),
        }
    }
    /// Takes a text field: a byte length as `read_u32` reads it, then that
    /// many bytes of UTF-8. The read is refused, and the reader left as it
    /// was, where the prefix or the bytes it announces reach past the end of
    /// the source, and where the bytes are not valid UTF-8.
    pub fn read_string(&mut self) -> (r: Result<String, StreamError>)
        ensures
            final(self).took_text(*old(self), r),
    {
        let start: usize = self.bit_head;
        let len: usize = match self.read_u32() {
            Ok(len) => len as usize,
            Err(e) => {
                return Err(e);
            },
        };
        let bytes: Vec<u8> = match self.read_bytes(len) {
            Ok(bytes) => bytes,
            Err(e) => {
                self.bit_head = start;
                return Err(e);
            },
        };
        assert(bytes@ == old(self).next_text_bytes());
        match String::from_utf8(bytes) {
            Ok(text) => {
                proof {
                    encode_utf8_decode_utf8(text@);
                }
                Ok(text)
            },
            Err(_) => {
                self.bit_head = start;
                Err(StreamError::MalformedText)
            },
        }
    }
}

} // verus!
