//! The byte reader: takes byte-aligned fields, in its declared byte order,
//! off a borrowed byte sequence.

use vstd::prelude::*;
use vstd::utf8::{decode_utf8, encode_utf8_decode_utf8, valid_utf8};
use crate::byte_stream::swap_bytes::{
    lemma_swap_of_raw, swap_2_bytes, swap_4_bytes, swap_8_bytes,
};
use crate::byte_stream::{get_platform_endianness, Endianness};
use crate::error::StreamError;
use crate::wire::{
    i16_from_bits, i16_of_bits, i32_from_bits, i32_of_bits, i64_from_bits, i64_of_bits,
    i8_from_bits, i8_of_bits, u16_from_bytes, u16_from_raw_bytes, u32_from_bytes,
    u32_from_raw_bytes, u64_from_bytes, u64_from_raw_bytes,
};

verus! {

/// A reader of byte-aligned fields over a source that it never changes.
pub struct InputByteStream<'a> {
    buf: &'a [u8],
    head: usize,
    endianness: Endianness,
}

impl<'a> InputByteStream<'a> {
    /// The cursor never passes the end of the source.
    #[verifier::type_invariant]
    spec fn inv(self) -> bool {
        self.head <= self.buf@.len()
    }

    /// The bytes that the reader was made over.
    pub closed spec fn source(&self) -> Seq<u8> {
        self.buf@
    }

    /// The number of bytes taken so far.
    pub closed spec fn position(&self) -> nat {
        self.head as nat
    }

    /// The declared byte order.
    pub closed spec fn order(&self) -> Endianness {
        self.endianness
    }

    /// At least `n` bytes are left.
    pub open spec fn has_bytes(&self, n: nat) -> bool {
        self.position() + n <= self.source().len()
    }

    /// The next `n` bytes.
    pub open spec fn next_bytes(&self, n: nat) -> Seq<u8>
        recommends
            self.has_bytes(n),
    {
        self.source().subrange(self.position() as int, (self.position() + n) as int)
    }

    /// `self` is `prev` after `n` bytes were taken.
    pub open spec fn advanced(&self, prev: Self, n: nat) -> bool {
        &&& self.source() == prev.source()
        &&& self.order() == prev.order()
        &&& self.position() == prev.position() + n
    }

    /// The outcome `r` of reading a field of `n` bytes that stands for
    /// `value`, and the reader `self` that it leaves of `prev`: the value and
    /// a cursor `n` bytes on where `n` bytes were left, else a refusal and
    /// the reader as it was.
    pub open spec fn took<T>(
        &self,
        prev: Self,
        n: nat,
        value: T,
        r: Result<T, StreamError>,
    ) -> bool {
        if prev.has_bytes(n) {
            r == Ok::<T, StreamError>(value) && self.advanced(prev, n)
        } else {
            r == Err::<T, StreamError>(StreamError::OutOfBounds) && self.advanced(prev, 0)
        }
    }

    /// The byte length that the next text field declares.
    pub open spec fn next_text_len(&self) -> nat
        recommends
            self.has_bytes(4),
    {
        u32_from_bytes(self.next_bytes(4), self.order()) as nat
    }

    /// The bytes of the next text field, after its length prefix.
    pub open spec fn next_text_bytes(&self) -> Seq<u8>
        recommends
            self.has_bytes(4 + self.next_text_len()),
    {
        self.next_bytes(4 + self.next_text_len()).skip(4)
    }

    /// The outcome `r` of reading a text field, and the reader `self` that
    /// it leaves of `prev`. Where the length prefix or the bytes that it
    /// announces reach past the end of the source, the read is refused as
    /// out of bounds; where those bytes are not valid UTF-8, as malformed;
    /// either way the reader is as it was. Else the outcome is the text that
    /// the bytes encode, and the cursor is past them.
    pub open spec fn took_text(&self, prev: Self, r: Result<String, StreamError>) -> bool {
        if !prev.has_bytes(4) || !prev.has_bytes(4 + prev.next_text_len()) {
            r is Err && r->Err_0 == StreamError::OutOfBounds && self.advanced(prev, 0)
        } else if !valid_utf8(prev.next_text_bytes()) {
            r is Err && r->Err_0 == StreamError::MalformedText && self.advanced(prev, 0)
        } else {
            r is Ok && r->Ok_0@ == decode_utf8(prev.next_text_bytes()) && self.advanced(
                prev,
                4 + prev.next_text_len(),
            )
        }
    }

    /// A reader at the start of `buf`, with the given declared order.
    pub fn new(buf: &'a [u8], endianness: Endianness) -> (s: InputByteStream<'a>)
        ensures
            s.source() == buf@,
            s.position() == 0,
            s.order() == endianness,
    {
        InputByteStream { buf, head: 0, endianness }
    }

    /// Takes the next `n` bytes as they are, or nothing where fewer are left.
    fn read(&mut self, n: usize) -> (r: Result<&'a [u8], StreamError>)
        ensures
            old(self).has_bytes(n as nat) ==> r is Ok && r->Ok_0@ == old(self).next_bytes(n as nat)
                && final(self).advanced(*old(self), n as nat),
            !old(self).has_bytes(n as nat) ==> r == Err::<&[u8], StreamError>(
                StreamError::OutOfBounds,
            ) && final(self).advanced(*old(self), 0),
    {
        proof {
            use_type_invariant(&*self);
        }
        if n > self.buf.len() - self.head {
            return Err(StreamError::OutOfBounds);
        }
        let bytes: &'a [u8] = vstd::slice::slice_subrange(self.buf, self.head, self.head + n);
        self.head += n;
        Ok(bytes)
    }
    /// Takes one byte.
    pub fn read_u8(&mut self) -> (r: Result<u8, StreamError>)
        ensures
            final(self).took(*old(self), 1, old(self).next_bytes(1)[0], r),
    {
        match self.read(1) {
            Ok(bytes) => Ok(bytes[0]),
            Err(e) => Err(e),
        }
    }

    /// Takes one byte as a signed value.
    pub fn read_i8(&mut self) -> (r: Result<i8, StreamError>)
        ensures
            final(self).took(*old(self), 1, i8_of_bits(old(self).next_bytes(1)[0]), r),
    {
        match self.read_u8() {
            Ok(byte) => Ok(i8_from_bits(byte)),
            Err(e) => Err(e),
        }
    }

    /// Takes one byte as a boolean: false for 0, true for any other byte.
    pub fn read_bool(&mut self) -> (r: Result<bool, StreamError>)
        ensures
            final(self).took(*old(self), 1, old(self).next_bytes(1)[0] != 0, r),
    {
        match self.read_u8() {
            Ok(byte) => Ok(byte != 0),
            Err(e) => Err(e),
        }
    }

    /// Takes two bytes as a value in the declared order: the raw copy is
    /// kept where that is the reference order, and reversed where it is not.
    pub fn read_u16(&mut self) -> (r: Result<u16, StreamError>)
        ensures
            final(self).took(
                *old(self),
                2,
                u16_from_bytes(old(self).next_bytes(2), old(self).order()),
                r,
            ),
    {
        match self.read(2) {
            Ok(bytes) => {
                let data: u16 = u16_from_raw_bytes(bytes);
                proof {
                    lemma_swap_of_raw(bytes@);
                }
                if self.endianness != get_platform_endianness() {
                    Ok(swap_2_bytes(data))
                } else {
                    Ok(data)
                }
            },
            Err(e) => Err(e),
        }
    }
    /// Takes two bytes as a signed value in the declared order.
    pub fn read_i16(&mut self) -> (r: Result<i16, StreamError>)
        ensures
            final(self).took(
                *old(self),
                2,
                i16_of_bits(u16_from_bytes(old(self).next_bytes(2), old(self).order())),
                r,
            ),
    {
        match self.read_u16() {
            Ok(bits) => Ok(i16_from_bits(bits)),
            Err(e) => Err(e),
        }
    }

    /// Takes four bytes as a value in the declared order.
    pub fn read_u32(&mut self) -> (r: Result<u32, StreamError>)
        ensures
            final(self).took(
                *old(self),
                4,
                u32_from_bytes(old(self).next_bytes(4), old(self).order()),
                r,
            ),
    {
        match self.read(4) {
            Ok(bytes) => {
                let data: u32 = u32_from_raw_bytes(bytes);
                proof {
                    lemma_swap_of_raw(bytes@);
                }
                if self.endianness != get_platform_endianness() {
                    Ok(swap_4_bytes(data))
                } else {
                    Ok(data)
                }
            },
            Err(e) => Err(e),
        }
    }

    /// Takes four bytes as a signed value in the declared order.
    pub fn read_i32(&mut self) -> (r: Result<i32, StreamError>)
        ensures
            final(self).took(
                *old(self),
                4,
                i32_of_bits(u32_from_bytes(old(self).next_bytes(4), old(self).order())),
                r,
            ),
    {
        match self.read_u32() {
            Ok(bits) => Ok(i32_from_bits(bits)),
            Err(e) => Err(e),
        }
    }

    /// Takes eight bytes as a value in the declared order.
    pub fn read_u64(&mut self) -> (r: Result<u64, StreamError>)
        ensures
            final(self).took(
                *old(self),
                8,
                u64_from_bytes(old(self).next_bytes(8), old(self).order()),
                r,
            ),
    {
        match self.read(8) {
            Ok(bytes) => {
                let data: u64 = u64_from_raw_bytes(bytes);
                proof {
                    lemma_swap_of_raw(bytes@);
                }
                if self.endianness != get_platform_endianness() {
                    Ok(swap_8_bytes(data))
                } else {
                    Ok(data)
                }
            },
            Err(e) => Err(e),
        }
    }

    /// Takes eight bytes as a signed value in the declared order.
    pub fn read_i64(&mut self) -> (r: Result<i64, StreamError>)
        ensures
            final(self).took(
                *old(self),
                8,
                i64_of_bits(u64_from_bytes(old(self).next_bytes(8), old(self).order())),
                r,
            ),
    {
        match self.read_u64() {
            Ok(bits) => Ok(i64_from_bits(bits)),
            Err(e) => Err(e),
        }
    }
    /// Takes a text field: a byte length as a 32-bit value in the declared
    /// order, then that many bytes of UTF-8. The read is refused, and the
    /// reader left as it was, where the prefix or the bytes it announces
    /// reach past the end of the source, and where the bytes are not valid
    /// UTF-8.
    pub fn read_string(&mut self) -> (r: Result<String, StreamError>)
        ensures
            final(self).took_text(*old(self), r),
    {
        let start: usize = self.head;
        let len: usize = match self.read_u32() {
            Ok(len) => len as usize,
            Err(e) => {
                return Err(e);
            },
        };
        let bytes: &[u8] = match self.read(len) {
            Ok(bytes) => bytes,
            Err(e) => {
                self.head = start;
                return Err(e);
            },
        };
        assert(bytes@ =~= old(self).next_text_bytes());
        match String::from_utf8(vstd::slice::slice_to_vec(bytes)) {
            Ok(text) => {
                proof {
                    encode_utf8_decode_utf8(text@);
                }
                Ok(text)
            },
            Err(_) => {
                self.head = start;
                Err(StreamError::MalformedText)
            },
        }
    }
}

} // verus!
