//! The byte writer: appends byte-aligned fields, in its declared byte order,
//! to a growable buffer.

use vstd::prelude::*;
use vstd::utf8::encode_utf8;
use crate::buffer::{ensure_len, grown_len, zeroed, DEFAULT_CAPACITY};
use crate::byte_stream::swap_bytes::{
    lemma_swap_exchanges_layouts, swap_2_bytes, swap_4_bytes, swap_8_bytes,
};
use crate::byte_stream::{get_platform_endianness, Endianness};
use crate::wire::{
    bool_byte, i16_bits, i16_to_bits, i32_bits, i32_to_bits, i64_bits, i64_to_bits, i8_bits,
    i8_to_bits, text_bytes, u16_bytes, u16_raw_bytes, u32_bytes, u32_raw_bytes, u64_bytes,
    u64_raw_bytes,
};

verus! {

/// A writer of byte-aligned fields. The bytes written so far are the first
/// `head` bytes of `buf`; what follows them is spare room.
pub struct OutputByteStream {
    /// The buffer: the written bytes, then spare room.
    pub buf: Vec<u8>,
    /// The cursor: the number of bytes written so far.
    pub head: usize,
    /// The declared byte order.
    pub endianness: Endianness,
}

impl View for OutputByteStream {
    type V = Seq<u8>;

    /// The bytes written so far.
    open spec fn view(&self) -> Seq<u8> {
        self.buf@.take(self.head as int)
    }
}

impl Default for OutputByteStream {
    /// An empty big-endian writer over a zeroed buffer of the default length.
    fn default() -> (s: Self)
        ensures
            s.wf(),
            s.head == 0,
            s@ == Seq::<u8>::empty(),
            s.endianness == Endianness::BigEndian,
            s.buf@.len() == DEFAULT_CAPACITY,
            forall|i: int| 0 <= i < s.buf@.len() ==> s.buf@[i] == 0,
    {
        OutputByteStream {
            buf: zeroed(DEFAULT_CAPACITY),
            head: 0,
            endianness: Endianness::BigEndian,
        }
    }
}

impl OutputByteStream {
    /// The cursor lies within the buffer.
    pub open spec fn wf(&self) -> bool {
        self.head <= self.buf@.len()
    }

    /// `self` is `prev` after `bytes` were appended to it: the written bytes
    /// are those of `prev` followed by `bytes`, the buffer grew by the growth
    /// rule if they did not fit, and the spare room is as it was, with zeros
    /// where the buffer is new.
    pub open spec fn appended(&self, prev: Self, bytes: Seq<u8>) -> bool {
        &&& self.wf()
        &&& self.endianness == prev.endianness
        &&& self.head == prev.head + bytes.len()
        &&& self@ == prev@ + bytes
        &&& self.buf@.len() == grown_len(prev.buf@.len(), self.head as nat)
        &&& forall|i: int|
            self.head <= i < self.buf@.len() ==> self.buf@[i] == if i < prev.buf@.len() {
                prev.buf@[i]
            } else {
                0
            }
    }

    /// Appends `data` as it is.
    fn write(&mut self, data: &[u8])
        requires
            old(self).wf(),
            old(self).head + data@.len() <= usize::MAX,
        ensures
            final(self).appended(*old(self), data@),
    {
        let n: usize = data.len();
        ensure_len(&mut self.buf, self.head + n);
        let mut i: usize = 0;
        while i < n
            invariant
                n == data@.len(),
                0 <= i <= n,
                old(self).wf(),
                self.head + n <= usize::MAX,
                self.head == old(self).head,
                self.endianness == old(self).endianness,
                self.head + n <= self.buf@.len(),
                self.buf@.len() == grown_len(old(self).buf@.len(), (self.head + n) as nat),
                forall|j: int| 0 <= j < self.head ==> self.buf@[j] == old(self).buf@[j],
                forall|j: int| 0 <= j < i ==> self.buf@[self.head + j] == data@[j],
                forall|j: int|
                    self.head + i <= j < self.buf@.len() ==> self.buf@[j] == if j < old(
                        self,
                    ).buf@.len() {
                        old(self).buf@[j]
                    } else {
                        0
                    },
            decreases n - i,
        {
            self.buf[self.head + i] = data[i];
            i += 1;
        }
        self.head += n;
        assert(self@ =~= old(self)@ + data@);
    }
    /// Appends one byte.
    pub fn write_u8(&mut self, data: u8)
        requires
            old(self).wf(),
            old(self).head + 1 <= usize::MAX,
        ensures
            final(self).appended(*old(self), seq![data]),
    {
        let raw: [u8; 1] = [data];
        assert(raw@ =~= seq![data]);
        self.write(raw.as_slice())
    }

    /// Appends a signed byte as its bit pattern.
    pub fn write_i8(&mut self, data: i8)
        requires
            old(self).wf(),
            old(self).head + 1 <= usize::MAX,
        ensures
            final(self).appended(*old(self), seq![i8_bits(data)]),
    {
        self.write_u8(i8_to_bits(data))
    }

    /// Appends a boolean as one byte: 1 for true, 0 for false.
    pub fn write_bool(&mut self, data: bool)
        requires
            old(self).wf(),
            old(self).head + 1 <= usize::MAX,
        ensures
            final(self).appended(*old(self), seq![bool_byte(data)]),
    {
        self.write_u8(if data { 1 } else { 0 })
    }

    /// Appends the two bytes of `data` in the declared order: the value is
    /// copied as it is where that is the reference order, and with its bytes
    /// reversed where it is not.
    pub fn write_u16(&mut self, data: u16)
        requires
            old(self).wf(),
            old(self).head + 2 <= usize::MAX,
        ensures
            final(self).appended(*old(self), u16_bytes(data, old(self).endianness)),
    {
        let mut value: u16 = data;
        if self.endianness != get_platform_endianness() {
            value = swap_2_bytes(data);
        }
        proof {
            lemma_swap_exchanges_layouts(data, 0, 0);
        }
        let raw: [u8; 2] = u16_raw_bytes(value);
        self.write(raw.as_slice())
    }

    /// Appends a signed 16-bit value as its bit pattern, in the declared order.
    pub fn write_i16(&mut self, data: i16)
        requires
            old(self).wf(),
            old(self).head + 2 <= usize::MAX,
        ensures
            final(self).appended(*old(self), u16_bytes(i16_bits(data), old(self).endianness)),
    {
        self.write_u16(i16_to_bits(data))
    }

    /// Appends the four bytes of `data` in the declared order.
    pub fn write_u32(&mut self, data: u32)
        requires
            old(self).wf(),
            old(self).head + 4 <= usize::MAX,
        ensures
            final(self).appended(*old(self), u32_bytes(data, old(self).endianness)),
    {
        let mut value: u32 = data;
        if self.endianness != get_platform_endianness() {
            value = swap_4_bytes(data);
        }
        proof {
            lemma_swap_exchanges_layouts(0, data, 0);
        }
        let raw: [u8; 4] = u32_raw_bytes(value);
        self.write(raw.as_slice())
    }

    /// Appends a signed 32-bit value as its bit pattern, in the declared order.
    pub fn write_i32(&mut self, data: i32)
        requires
            old(self).wf(),
            old(self).head + 4 <= usize::MAX,
        ensures
            final(self).appended(*old(self), u32_bytes(i32_bits(data), old(self).endianness)),
    {
        self.write_u32(i32_to_bits(data))
    }

    /// Appends the eight bytes of `data` in the declared order.
    pub fn write_u64(&mut self, data: u64)
        requires
            old(self).wf(),
            old(self).head + 8 <= usize::MAX,
        ensures
            final(self).appended(*old(self), u64_bytes(data, old(self).endianness)),
    {
        let mut value: u64 = data;
        if self.endianness != get_platform_endianness() {
            value = swap_8_bytes(data);
        }
        proof {
            lemma_swap_exchanges_layouts(0, 0, data);
        }
        let raw: [u8; 8] = u64_raw_bytes(value);
        self.write(raw.as_slice())
    }

    /// Appends a signed 64-bit value as its bit pattern, in the declared order.
    pub fn write_i64(&mut self, data: i64)
        requires
            old(self).wf(),
            old(self).head + 8 <= usize::MAX,
        ensures
            final(self).appended(*old(self), u64_bytes(i64_bits(data), old(self).endianness)),
    {
        self.write_u64(i64_to_bits(data))
    }

    /// Appends a text field: the byte length of `data` as a 32-bit value in
    /// the declared order, then the bytes of `data`. Room for the whole
    /// field is made at once.
    pub fn write_string(&mut self, data: &String)
        requires
            old(self).wf(),
            encode_utf8(data@).len() <= u32::MAX,
            old(self).head + 4 + encode_utf8(data@).len() <= usize::MAX,
        ensures
            final(self).appended(*old(self), text_bytes(data@, old(self).endianness)),
    {
        let bytes: &[u8] = data.as_str().as_bytes();
        let n: usize = bytes.len();
        ensure_len(&mut self.buf, self.head + 4 + n);
        self.write_u32(n as u32);
        self.write(bytes);
        assert(self@ =~= old(self)@ + text_bytes(data@, old(self).endianness));
    }

    /// The bytes written so far.
    pub fn buffer(&self) -> (r: &[u8])
        requires
            self.wf(),
        ensures
            r@ == self@,
    {
        vstd::slice::slice_subrange(self.buf.as_slice(), 0, self.head)
    }
}

} // verus!
