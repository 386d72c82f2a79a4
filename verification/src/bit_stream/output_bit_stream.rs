//! The bit writer: packs fields of any width, bit by bit, into a growable
//! buffer.

use vstd::prelude::*;
use vstd::utf8::encode_utf8;
use crate::bits::{
    bit_at, bits_of_byte, bits_of_bytes, byte_len, bytes_for, lemma_bit_of_bool,
    lemma_bits_of_bytes_concat, lemma_bits_of_next_byte, lemma_packed_bits,
};
use crate::buffer::{ensure_len, grown_len, zeroed, DEFAULT_CAPACITY};
use crate::byte_stream::swap_bytes::{
    lemma_swap_exchanges_layouts, swap_2_bytes, swap_4_bytes, swap_8_bytes,
};
use crate::byte_stream::{get_platform_endianness, reference_order, Endianness};
use crate::wire::{
    i16_bits, i16_to_bits, i32_bits, i32_to_bits, i64_bits, i64_to_bits, i8_bits, i8_to_bits,
    text_bytes, u16_be_bytes, u16_bytes, u16_raw_bytes, u32_be_bytes, u32_bytes, u32_raw_bytes,
    u64_be_bytes, u64_bytes, u64_raw_bytes,
};

verus! {

/// A writer of fields of any bit width. The bits written so far are the first
/// `bit_head` bits of the bit stream that `buf` holds.
pub struct OutputBitStream {
    /// The buffer: the written bits, then spare room.
    pub buf: Vec<u8>,
    /// The cursor: the number of bits written so far.
    pub bit_head: usize,
}

impl View for OutputBitStream {
    type V = Seq<bool>;

    /// The bits written so far.
    open spec fn view(&self) -> Seq<bool> {
        bits_of_bytes(self.buf@).take(self.bit_head as int)
    }
}

impl Default for OutputBitStream {
    /// An empty writer over a zeroed buffer of the default length.
    fn default() -> (s: Self)
        ensures
            s.wf(),
            s.bit_head == 0,
            s@ == Seq::<bool>::empty(),
            s.buf@.len() == DEFAULT_CAPACITY,
            forall|i: int| 0 <= i < s.buf@.len() ==> s.buf@[i] == 0,
    {
        let s = OutputBitStream { buf: zeroed(DEFAULT_CAPACITY), bit_head: 0 };
        assert(s@ =~= Seq::<bool>::empty());
        s
    }
}

impl OutputBitStream {
    /// The bytes that the cursor reaches into lie within the buffer.
    pub open spec fn wf(&self) -> bool {
        byte_len(self.bit_head as nat) <= self.buf@.len()
    }

    /// The bytes that hold the bits written so far: all bytes that the
    /// cursor reaches into, the last of them maybe only in part.
    pub open spec fn written(&self) -> Seq<u8> {
        self.buf@.take(byte_len(self.bit_head as nat) as int)
    }

    /// `self` is `prev` after `bits` were appended to it: the written bits
    /// are those of `prev` followed by `bits`, the bits of the last written
    /// byte that lie past the cursor are zero, the buffer grew by the growth
    /// rule if the bits did not fit, and the bytes past the last written one
    /// are as they were, with zeros where the buffer is new.
    pub open spec fn appended(&self, prev: Self, bits: Seq<bool>) -> bool {
        &&& self.wf()
        &&& self.bit_head == prev.bit_head + bits.len()
        &&& self@ == prev@ + bits
        &&& self.buf@.len() == grown_len(prev.buf@.len(), byte_len(self.bit_head as nat))
        &&& forall|i: int|
            self.bit_head <= i < 8 * byte_len(self.bit_head as nat) ==> !bit_at(self.buf@, i)
        &&& forall|k: int|
            byte_len(self.bit_head as nat) <= k < self.buf@.len() ==> self.buf@[k] == if k
                < prev.buf@.len() {
                prev.buf@[k]
            } else {
                0
            }
    }

    /// Index of the byte that the cursor is in.
    fn byte_offset(&self) -> (r: usize)
        ensures
            r == self.bit_head / 8,
    {
        self.bit_head / 8
    }

    /// Index, within its byte, of the bit that the cursor is at.
    fn bit_offset(&self) -> (r: usize)
        ensures
            r == self.bit_head % 8,
    {
        self.bit_head % 8
    }

    /// Appends the low `bit_count` bits of `data`, least significant first.
    /// They go above the bits already written of the byte that the cursor is
    /// in; those that do not fit there go to the bottom of the next byte.
    fn write_byte(&mut self, data: u8, bit_count: usize)
        requires
            old(self).wf(),
            1 <= bit_count <= 8,
            old(self).bit_head + bit_count <= usize::MAX,
        ensures
            final(self).appended(*old(self), bits_of_byte(data).take(bit_count as int)),
    {
        let end: usize = self.bit_head + bit_count;
        ensure_len(&mut self.buf, bytes_for(end));
        let byte_offset: usize = self.byte_offset();
        let bit_offset: usize = self.bit_offset();
        let off: u8 = bit_offset as u8;
        let n: u8 = bit_count as u8;
        let cur: u8 = self.buf[byte_offset];
        let bits: u8 = data & (0xFFu8 >> (8 - n));
        self.buf[byte_offset] = (cur & !(0xFFu8 << off)) | (bits << off);
        let bits_free_this_byte: usize = 8 - bit_offset;
        if bits_free_this_byte < bit_count {
            self.buf[byte_offset + 1] = bits >> (8 - off);
        }
        self.bit_head = end;
        proof {
            let before = old(self).buf@ + Seq::new(
                (self.buf@.len() - old(self).buf@.len()) as nat,
                |i: int| 0u8,
            );
            assert(bits_of_bytes(before).take(old(self).bit_head as int) =~= old(self)@);
            lemma_packed_bits(before, self.buf@, old(self).bit_head as nat, data, bit_count as nat);
        }
    }

    /// Appends the first `bit_count` bits of the bit stream that `data`
    /// holds: whole bytes while more than eight bits are left, then the low
    /// bits of the next byte. Room for all of them is made at once.
    fn write_bytes(&mut self, data: &[u8], bit_count: usize)
        requires
            old(self).wf(),
            1 <= bit_count <= 8 * data@.len(),
            old(self).bit_head + bit_count <= usize::MAX,
        ensures
            final(self).appended(*old(self), bits_of_bytes(data@).take(bit_count as int)),
    {
        let end: usize = self.bit_head + bit_count;
        ensure_len(&mut self.buf, bytes_for(end));
        let mut left: usize = bit_count;
        let mut offset: usize = 0;
        proof {
            assert(bits_of_bytes(self.buf@).take(self.bit_head as int) =~= old(self)@);
            assert(self@ =~= old(self)@ + bits_of_bytes(data@).take(0));
        }
        while left > 8
            invariant
                old(self).wf(),
                end == old(self).bit_head + bit_count,
                bit_count <= 8 * data@.len(),
                left + 8 * offset == bit_count,
                1 <= left,
                self.bit_head == old(self).bit_head + 8 * offset,
                self.buf@.len() == grown_len(old(self).buf@.len(), byte_len(end as nat)),
                byte_len(end as nat) <= self.buf@.len(),
                self@ == old(self)@ + bits_of_bytes(data@).take(8 * offset),
                forall|k: int|
                    byte_len(self.bit_head as nat) <= k < self.buf@.len() ==> self.buf@[k] == if k
                        < old(self).buf@.len() {
                        old(self).buf@[k]
                    } else {
                        0
                    },
            decreases left,
        {
            let ghost before = self@;
            self.write_byte(data[offset], 8);
            proof {
                lemma_bits_of_next_byte(data@, offset as nat, 8);
                assert(self@ == before + bits_of_byte(data@[offset as int]).take(8));
            }
            offset += 1;
            left -= 8;
        }
        let ghost before = self@;
        self.write_byte(data[offset], left);
        proof {
            lemma_bits_of_next_byte(data@, offset as nat, left as nat);
            assert(self@ == before + bits_of_byte(data@[offset as int]).take(left as int));
            assert(self@ =~= old(self)@ + bits_of_bytes(data@).take(bit_count as int));
        }
    }
    /// Appends one bit: 1 for true, 0 for false.
    pub fn write_bool(&mut self, value: bool)
        requires
            old(self).wf(),
            old(self).bit_head + 1 <= usize::MAX,
        ensures
            final(self).appended(*old(self), seq![value]),
    {
        proof {
            lemma_bit_of_bool(value);
        }
        self.write_byte(if value { 1 } else { 0 }, 1);
    }

    /// Appends the eight bits of `value`, least significant first.
    pub fn write_u8(&mut self, value: u8)
        requires
            old(self).wf(),
            old(self).bit_head + 8 <= usize::MAX,
        ensures
            final(self).appended(*old(self), bits_of_byte(value)),
    {
        let raw: [u8; 1] = [value];
        assert(bits_of_bytes(raw@).take(8) =~= bits_of_byte(value));
        self.write_bytes(raw.as_slice(), 8);
    }

    /// Appends the eight bits of the bit pattern of `value`.
    pub fn write_i8(&mut self, value: i8)
        requires
            old(self).wf(),
            old(self).bit_head + 8 <= usize::MAX,
        ensures
            final(self).appended(*old(self), bits_of_byte(i8_bits(value))),
    {
        self.write_u8(i8_to_bits(value))
    }

    /// Appends the two bytes of `value`, most significant byte first, each
    /// byte least significant bit first.
    pub fn write_u16(&mut self, value: u16)
        requires
            old(self).wf(),
            old(self).bit_head + 16 <= usize::MAX,
        ensures
            final(self).appended(*old(self), bits_of_bytes(u16_be_bytes(value))),
    {
        let raw: [u8; 2] = u16_raw_bytes(u16_to_be(value));
        assert(bits_of_bytes(raw@).take(16) =~= bits_of_bytes(raw@));
        self.write_bytes(raw.as_slice(), 16);
    }

    /// Appends the bit pattern of `value` as `write_u16` does.
    pub fn write_i16(&mut self, value: i16)
        requires
            old(self).wf(),
            old(self).bit_head + 16 <= usize::MAX,
        ensures
            final(self).appended(*old(self), bits_of_bytes(u16_be_bytes(i16_bits(value)))),
    {
        self.write_u16(i16_to_bits(value))
    }

    /// Appends the four bytes of `value`, most significant byte first, each
    /// byte least significant bit first.
    pub fn write_u32(&mut self, value: u32)
        requires
            old(self).wf(),
            old(self).bit_head + 32 <= usize::MAX,
        ensures
            final(self).appended(*old(self), bits_of_bytes(u32_be_bytes(value))),
    {
        let raw: [u8; 4] = u32_raw_bytes(u32_to_be(value));
        assert(bits_of_bytes(raw@).take(32) =~= bits_of_bytes(raw@));
        self.write_bytes(raw.as_slice(), 32);
    }

    /// Appends the bit pattern of `value` as `write_u32` does.
    pub fn write_i32(&mut self, value: i32)
        requires
            old(self).wf(),
            old(self).bit_head + 32 <= usize::MAX,
        ensures
            final(self).appended(*old(self), bits_of_bytes(u32_be_bytes(i32_bits(value)))),
    {
        self.write_u32(i32_to_bits(value))
    }

    /// Appends the eight bytes of `value`, most significant byte first, each
    /// byte least significant bit first.
    pub fn write_u64(&mut self, value: u64)
        requires
            old(self).wf(),
            old(self).bit_head + 64 <= usize::MAX,
        ensures
            final(self).appended(*old(self), bits_of_bytes(u64_be_bytes(value))),
    {
        let raw: [u8; 8] = u64_raw_bytes(u64_to_be(value));
        assert(bits_of_bytes(raw@).take(64) =~= bits_of_bytes(raw@));
        self.write_bytes(raw.as_slice(), 64);
    }

    /// Appends the bit pattern of `value` as `write_u64` does.
    pub fn write_i64(&mut self, value: i64)
        requires
            old(self).wf(),
            old(self).bit_head + 64 <= usize::MAX,
        ensures
            final(self).appended(*old(self), bits_of_bytes(u64_be_bytes(i64_bits(value)))),
    {
        self.write_u64(i64_to_bits(value))
    }

    /// Appends a text field: the byte length of `data` as `write_u32` writes
    /// it, then the bytes of `data`, each least significant bit first. Room
    /// for the whole field is made at once.
    pub fn write_string(&mut self, data: &String)
        requires
            old(self).wf(),
            encode_utf8(data@).len() <= u32::MAX,
            old(self).bit_head + 8 * (4 + encode_utf8(data@).len()) <= usize::MAX,
        ensures
            final(self).appended(
                *old(self),
                bits_of_bytes(text_bytes(data@, Endianness::BigEndian)),
            ),
    {
        let bytes: &[u8] = data.as_str().as_bytes();
        let n: usize = bytes.len();
        let end: usize = self.bit_head + 8 * (4 + n);
        ensure_len(&mut self.buf, bytes_for(end));
        proof {
            assert(bits_of_bytes(self.buf@).take(self.bit_head as int) =~= old(self)@);
            lemma_bits_of_bytes_concat(u32_be_bytes(n as u32), bytes@);
        }
        self.write_u32(n as u32);
        if n > 0 {
            assert(bits_of_bytes(bytes@).take(8 * n) =~= bits_of_bytes(bytes@));
            self.write_bytes(bytes, 8 * n);
        }
        assert(self@ =~= old(self)@ + bits_of_bytes(text_bytes(data@, Endianness::BigEndian)));
    }

    /// The bytes that hold the bits written so far. Of the last byte, the
    /// bits past the cursor are no part of what was written.
    pub fn buffer(&self) -> (r: &[u8])
        requires
            self.wf(),
        ensures
            r@ == self.written(),
            bits_of_bytes(r@).take(self.bit_head as int) == self@,
    {
        let mut head: usize = self.byte_offset();
        if self.bit_offset() != 0 {
            head += 1;
        }
        let r: &[u8] = vstd::slice::slice_subrange(self.buf.as_slice(), 0, head);
        assert(bits_of_bytes(r@).take(self.bit_head as int) =~= self@);
        r
    }
}

/// The value of which a raw copy is the big-endian layout of `value`.
fn u16_to_be(value: u16) -> (r: u16)
    ensures
        u16_bytes(r, reference_order()) == u16_be_bytes(value),
{
    proof {
        lemma_swap_exchanges_layouts(value, 0, 0);
    }
    match get_platform_endianness() {
        Endianness::BigEndian => value,
        Endianness::LittleEndian => swap_2_bytes(value),
    }
}

/// The value of which a raw copy is the big-endian layout of `value`.
fn u32_to_be(value: u32) -> (r: u32)
    ensures
        u32_bytes(r, reference_order()) == u32_be_bytes(value),
{
    proof {
        lemma_swap_exchanges_layouts(0, value, 0);
    }
    match get_platform_endianness() {
        Endianness::BigEndian => value,
        Endianness::LittleEndian => swap_4_bytes(value),
    }
}

/// The value of which a raw copy is the big-endian layout of `value`.
fn u64_to_be(value: u64) -> (r: u64)
    ensures
        u64_bytes(r, reference_order()) == u64_be_bytes(value),
{
    proof {
        lemma_swap_exchanges_layouts(0, 0, value);
    }
    match get_platform_endianness() {
        Endianness::BigEndian => value,
        Endianness::LittleEndian => swap_8_bytes(value),
    }
}

} // verus!
