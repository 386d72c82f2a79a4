//! What a bit writer appends, a bit reader gives back.
//!
//! Each statement is about a writer `before` a write and `after` it, and a
//! reader that stands at the bit where the write began, over a source whose
//! bit stream starts with what the writer has written, then or later.

use vstd::prelude::*;
use vstd::utf8::{encode_utf8, encode_utf8_decode_utf8, encode_utf8_valid_utf8};
use crate::bit_stream::input_bit_stream::InputBitStream;
use crate::bit_stream::output_bit_stream::OutputBitStream;
use crate::bits::{
    bits_of_byte, bits_of_bytes, byte_of_bits, bytes_of_bits, lemma_bits_of_bytes_concat,
    lemma_byte_is_sum_of_bits, lemma_bytes_of_bits_of_bytes,
};
use crate::byte_stream::Endianness;
use crate::error::StreamError;
use crate::wire::{
    i16_bits, i16_of_bits, i32_bits, i32_of_bits, i64_bits, i64_of_bits, i8_bits, i8_of_bits,
    lemma_signed_bits_round_trip, lemma_u16_bytes_round_trip, lemma_u32_bytes_round_trip,
    lemma_u64_bytes_round_trip, text_bytes, u16_be_bytes, u16_from_bytes, u32_be_bytes,
    u32_from_bytes, u64_be_bytes, u64_from_bytes,
};

verus! {

/// `reader` stands at the bit where `before` ended, puts bytes together
/// most significant first, as the writer lays them out, and reads a source
/// whose bit stream starts with what `after` has written.
pub open spec fn reads_back(
    reader: InputBitStream,
    before: OutputBitStream,
    after: OutputBitStream,
) -> bool {
    &&& before.wf()
    &&& after@.is_prefix_of(reader.bits())
    &&& reader.bit_head == before.bit_head
    &&& reader.endianness == Endianness::BigEndian
}

/// The bits that a write appended are the next bits of such a reader.
pub proof fn lemma_appended_is_next(
    before: OutputBitStream,
    after: OutputBitStream,
    bits: Seq<bool>,
    reader: InputBitStream,
)
    requires
        after.appended(before, bits),
        reads_back(reader, before, after),
    ensures
        reader.has_bits(bits.len()),
        reader.next_bits(bits.len()) == bits,
{
    assert(after@.len() == after.bit_head);
    assert(before@.len() == before.bit_head);
    assert forall|i: int| 0 <= i < bits.len() implies reader.next_bits(bits.len())[i]
        == bits[i] by {
        assert(reader.bits()[before.bit_head + i] == after@[before.bit_head + i]);
        assert(after@[before.bit_head + i] == (before@ + bits)[before.bit_head + i]);
    }
    assert(reader.next_bits(bits.len()) =~= bits);
}

/// A write keeps every bit written before it, whether the buffer grew or
/// not.
pub proof fn lemma_write_keeps_written(
    before: OutputBitStream,
    after: OutputBitStream,
    bits: Seq<bool>,
)
    requires
        before.wf(),
        after.appended(before, bits),
    ensures
        before@.is_prefix_of(after@),
{
    assert(before@.len() == before.bit_head);
}

/// A boolean that was written is read back.
pub proof fn lemma_bool_round_trip(
    before: OutputBitStream,
    after: OutputBitStream,
    value: bool,
    reader: InputBitStream,
    rest: InputBitStream,
    r: Result<bool, StreamError>,
)
    requires
        after.appended(before, seq![value]),
        reads_back(reader, before, after),
        rest.took(reader, 1, reader.bits()[reader.bit_head as int], r),
    ensures
        r == Ok::<bool, StreamError>(value),
        rest.advanced(reader, 1),
{
    lemma_appended_is_next(before, after, seq![value], reader);
    assert(reader.next_bits(1)[0] == value);
}

/// A byte that was written is read back.
pub proof fn lemma_u8_round_trip(
    before: OutputBitStream,
    after: OutputBitStream,
    value: u8,
    reader: InputBitStream,
    rest: InputBitStream,
    r: Result<u8, StreamError>,
)
    requires
        after.appended(before, bits_of_byte(value)),
        reads_back(reader, before, after),
        rest.took(reader, 8, byte_of_bits(reader.next_bits(8)), r),
    ensures
        r == Ok::<u8, StreamError>(value),
        rest.advanced(reader, 8),
{
    lemma_appended_is_next(before, after, bits_of_byte(value), reader);
    lemma_byte_is_sum_of_bits(value);
}

/// A signed byte that was written is read back.
pub proof fn lemma_i8_round_trip(
    before: OutputBitStream,
    after: OutputBitStream,
    value: i8,
    reader: InputBitStream,
    rest: InputBitStream,
    r: Result<i8, StreamError>,
)
    requires
        after.appended(before, bits_of_byte(i8_bits(value))),
        reads_back(reader, before, after),
        rest.took(reader, 8, i8_of_bits(byte_of_bits(reader.next_bits(8))), r),
    ensures
        r == Ok::<i8, StreamError>(value),
        rest.advanced(reader, 8),
{
    lemma_appended_is_next(before, after, bits_of_byte(i8_bits(value)), reader);
    lemma_byte_is_sum_of_bits(i8_bits(value));
    lemma_signed_bits_round_trip(value, 0, 0, 0);
}

/// A 16-bit value that was written is read back.
pub proof fn lemma_u16_round_trip(
    before: OutputBitStream,
    after: OutputBitStream,
    value: u16,
    reader: InputBitStream,
    rest: InputBitStream,
    r: Result<u16, StreamError>,
)
    requires
        after.appended(before, bits_of_bytes(u16_be_bytes(value))),
        reads_back(reader, before, after),
        rest.took(
            reader,
            16,
            u16_from_bytes(bytes_of_bits(reader.next_bits(16)), reader.endianness),
            r,
        ),
    ensures
        r == Ok::<u16, StreamError>(value),
        rest.advanced(reader, 16),
{
    lemma_appended_is_next(before, after, bits_of_bytes(u16_be_bytes(value)), reader);
    lemma_bytes_of_bits_of_bytes(u16_be_bytes(value));
    lemma_u16_bytes_round_trip(value, Endianness::BigEndian);
}

/// A signed 16-bit value that was written is read back.
pub proof fn lemma_i16_round_trip(
    before: OutputBitStream,
    after: OutputBitStream,
    value: i16,
    reader: InputBitStream,
    rest: InputBitStream,
    r: Result<i16, StreamError>,
)
    requires
        after.appended(before, bits_of_bytes(u16_be_bytes(i16_bits(value)))),
        reads_back(reader, before, after),
        rest.took(
            reader,
            16,
            i16_of_bits(u16_from_bytes(bytes_of_bits(reader.next_bits(16)), reader.endianness)),
            r,
        ),
    ensures
        r == Ok::<i16, StreamError>(value),
        rest.advanced(reader, 16),
{
    lemma_appended_is_next(before, after, bits_of_bytes(u16_be_bytes(i16_bits(value))), reader);
    lemma_bytes_of_bits_of_bytes(u16_be_bytes(i16_bits(value)));
    lemma_u16_bytes_round_trip(i16_bits(value), Endianness::BigEndian);
    lemma_signed_bits_round_trip(0, value, 0, 0);
}

/// A 32-bit value that was written is read back.
pub proof fn lemma_u32_round_trip(
    before: OutputBitStream,
    after: OutputBitStream,
    value: u32,
    reader: InputBitStream,
    rest: InputBitStream,
    r: Result<u32, StreamError>,
)
    requires
        after.appended(before, bits_of_bytes(u32_be_bytes(value))),
        reads_back(reader, before, after),
        rest.took(
            reader,
            32,
            u32_from_bytes(bytes_of_bits(reader.next_bits(32)), reader.endianness),
            r,
        ),
    ensures
        r == Ok::<u32, StreamError>(value),
        rest.advanced(reader, 32),
{
    lemma_appended_is_next(before, after, bits_of_bytes(u32_be_bytes(value)), reader);
    lemma_bytes_of_bits_of_bytes(u32_be_bytes(value));
    lemma_u32_bytes_round_trip(value, Endianness::BigEndian);
}

/// A signed 32-bit value that was written is read back.
pub proof fn lemma_i32_round_trip(
    before: OutputBitStream,
    after: OutputBitStream,
    value: i32,
    reader: InputBitStream,
    rest: InputBitStream,
    r: Result<i32, StreamError>,
)
    requires
        after.appended(before, bits_of_bytes(u32_be_bytes(i32_bits(value)))),
        reads_back(reader, before, after),
        rest.took(
            reader,
            32,
            i32_of_bits(u32_from_bytes(bytes_of_bits(reader.next_bits(32)), reader.endianness)),
            r,
        ),
    ensures
        r == Ok::<i32, StreamError>(value),
        rest.advanced(reader, 32),
{
    lemma_appended_is_next(before, after, bits_of_bytes(u32_be_bytes(i32_bits(value))), reader);
    lemma_bytes_of_bits_of_bytes(u32_be_bytes(i32_bits(value)));
    lemma_u32_bytes_round_trip(i32_bits(value), Endianness::BigEndian);
    lemma_signed_bits_round_trip(0, 0, value, 0);
}

/// A 64-bit value that was written is read back.
pub proof fn lemma_u64_round_trip(
    before: OutputBitStream,
    after: OutputBitStream,
    value: u64,
    reader: InputBitStream,
    rest: InputBitStream,
    r: Result<u64, StreamError>,
)
    requires
        after.appended(before, bits_of_bytes(u64_be_bytes(value))),
        reads_back(reader, before, after),
        rest.took(
            reader,
            64,
            u64_from_bytes(bytes_of_bits(reader.next_bits(64)), reader.endianness),
            r,
        ),
    ensures
        r == Ok::<u64, StreamError>(value),
        rest.advanced(reader, 64),
{
    lemma_appended_is_next(before, after, bits_of_bytes(u64_be_bytes(value)), reader);
    lemma_bytes_of_bits_of_bytes(u64_be_bytes(value));
    lemma_u64_bytes_round_trip(value, Endianness::BigEndian);
}

/// A signed 64-bit value that was written is read back.
pub proof fn lemma_i64_round_trip(
    before: OutputBitStream,
    after: OutputBitStream,
    value: i64,
    reader: InputBitStream,
    rest: InputBitStream,
    r: Result<i64, StreamError>,
)
    requires
        after.appended(before, bits_of_bytes(u64_be_bytes(i64_bits(value)))),
        reads_back(reader, before, after),
        rest.took(
            reader,
            64,
            i64_of_bits(u64_from_bytes(bytes_of_bits(reader.next_bits(64)), reader.endianness)),
            r,
        ),
    ensures
        r == Ok::<i64, StreamError>(value),
        rest.advanced(reader, 64),
{
    lemma_appended_is_next(before, after, bits_of_bytes(u64_be_bytes(i64_bits(value))), reader);
    lemma_bytes_of_bits_of_bytes(u64_be_bytes(i64_bits(value)));
    lemma_u64_bytes_round_trip(i64_bits(value), Endianness::BigEndian);
    lemma_signed_bits_round_trip(0, 0, 0, value);
}

/// A text that was written is read back, and the cursor moves by the bits
/// of four bytes and of the bytes of the text.
pub proof fn lemma_text_round_trip(
    before: OutputBitStream,
    after: OutputBitStream,
    text: Seq<char>,
    reader: InputBitStream,
    rest: InputBitStream,
    r: Result<String, StreamError>,
)
    requires
        encode_utf8(text).len() <= u32::MAX,
        after.appended(before, bits_of_bytes(text_bytes(text, Endianness::BigEndian))),
        reads_back(reader, before, after),
        rest.took_text(reader, r),
    ensures
        r is Ok,
        r->Ok_0@ == text,
        rest.advanced(reader, 32 + 8 * encode_utf8(text).len()),
        after.bit_head == before.bit_head + 32 + 8 * encode_utf8(text).len(),
{
    let body = encode_utf8(text);
    let prefix = u32_be_bytes(body.len() as u32);
    let field = bits_of_bytes(text_bytes(text, Endianness::BigEndian));
    lemma_u32_bytes_round_trip(body.len() as u32, Endianness::BigEndian);
    lemma_appended_is_next(before, after, field, reader);
    lemma_bits_of_bytes_concat(prefix, body);
    lemma_bytes_of_bits_of_bytes(prefix);
    lemma_bytes_of_bits_of_bytes(body);
    assert(reader.next_bits(32) =~= bits_of_bytes(prefix)) by {
        assert(reader.next_bits(32) =~= reader.next_bits(field.len()).take(32));
        assert(field.take(32) =~= bits_of_bytes(prefix));
    }
    assert(reader.next_text_len() == body.len());
    assert(reader.bits().subrange(reader.bit_head + 32, reader.bit_head + 32 + 8 * body.len())
        =~= bits_of_bytes(body)) by {
        assert(reader.bits().subrange(
            reader.bit_head + 32,
            reader.bit_head + 32 + 8 * body.len(),
        ) =~= reader.next_bits(field.len()).skip(32));
        assert(field.skip(32) =~= bits_of_bytes(body));
    }
    assert(reader.next_text_bytes() == body);
    encode_utf8_valid_utf8(text);
    encode_utf8_decode_utf8(text);
}

} // verus!
