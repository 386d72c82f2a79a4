//! What a byte writer appends, a byte reader with the same declared order
//! gives back.
//!
//! Each statement is about a writer `before` a write and `after` it, and a
//! reader that stands where the write began, over a source that starts with
//! what the writer has written, then or later.

use vstd::prelude::*;
use vstd::utf8::{encode_utf8, encode_utf8_decode_utf8, encode_utf8_valid_utf8};
use crate::byte_stream::input_byte_stream::InputByteStream;
use crate::byte_stream::output_byte_stream::OutputByteStream;
use crate::byte_stream::swap_bytes::{
    lemma_swap_exchanges_layouts, spec_swap_2_bytes, spec_swap_4_bytes, spec_swap_8_bytes,
};
use crate::byte_stream::{reference_order, Endianness};
use crate::error::StreamError;
use crate::wire::{
    bool_byte, i16_bits, i16_of_bits, i32_bits, i32_of_bits, i64_bits, i64_of_bits, i8_bits,
    i8_of_bits, lemma_signed_bits_round_trip, lemma_u16_bytes_round_trip,
    lemma_u32_bytes_round_trip, lemma_u64_bytes_round_trip, text_bytes, u16_bytes,
    u16_from_bytes, u32_bytes, u32_from_bytes, u64_bytes, u64_from_bytes,
};

verus! {

/// `reader` stands where `before` ended, has its declared order, and reads a
/// source that starts with what `after` has written.
pub open spec fn reads_back(
    reader: InputByteStream,
    before: OutputByteStream,
    after: OutputByteStream,
) -> bool {
    &&& before.wf()
    &&& after@.is_prefix_of(reader.source())
    &&& reader.position() == before.head
    &&& reader.order() == before.endianness
}

/// The bytes that a write appended are the next bytes of such a reader.
pub proof fn lemma_appended_is_next(
    before: OutputByteStream,
    after: OutputByteStream,
    bytes: Seq<u8>,
    reader: InputByteStream,
)
    requires
        after.appended(before, bytes),
        reads_back(reader, before, after),
    ensures
        reader.has_bytes(bytes.len()),
        reader.next_bytes(bytes.len()) == bytes,
{
    assert(after@.len() == after.head);
    assert(before@.len() == before.head);
    assert forall|i: int| 0 <= i < bytes.len() implies reader.next_bytes(bytes.len())[i]
        == bytes[i] by {
        assert(reader.source()[before.head + i] == after@[before.head + i]);
        assert(after@[before.head + i] == (before@ + bytes)[before.head + i]);
    }
    assert(reader.next_bytes(bytes.len()) =~= bytes);
}

/// A write keeps every byte written before it, whether the buffer grew or
/// not.
pub proof fn lemma_write_keeps_written(
    before: OutputByteStream,
    after: OutputByteStream,
    bytes: Seq<u8>,
)
    requires
        before.wf(),
        after.appended(before, bytes),
    ensures
        before@.is_prefix_of(after@),
        forall|i: int| 0 <= i < before.head ==> after.buf@[i] == before.buf@[i],
{
    assert(before@.len() == before.head);
    assert forall|i: int| 0 <= i < before.head implies after.buf@[i] == before.buf@[i] by {
        assert(after@[i] == (before@ + bytes)[i]);
    }
}

/// A boolean that was written is read back.
pub proof fn lemma_bool_round_trip(
    before: OutputByteStream,
    after: OutputByteStream,
    value: bool,
    reader: InputByteStream,
    rest: InputByteStream,
    r: Result<bool, StreamError>,
)
    requires
        after.appended(before, seq![bool_byte(value)]),
        reads_back(reader, before, after),
        rest.took(reader, 1, reader.next_bytes(1)[0] != 0, r),
    ensures
        r == Ok::<bool, StreamError>(value),
        rest.advanced(reader, 1),
{
    lemma_appended_is_next(before, after, seq![bool_byte(value)], reader);
}

/// A byte that was written is read back.
pub proof fn lemma_u8_round_trip(
    before: OutputByteStream,
    after: OutputByteStream,
    value: u8,
    reader: InputByteStream,
    rest: InputByteStream,
    r: Result<u8, StreamError>,
)
    requires
        after.appended(before, seq![value]),
        reads_back(reader, before, after),
        rest.took(reader, 1, reader.next_bytes(1)[0], r),
    ensures
        r == Ok::<u8, StreamError>(value),
        rest.advanced(reader, 1),
{
    lemma_appended_is_next(before, after, seq![value], reader);
}

/// A signed byte that was written is read back.
pub proof fn lemma_i8_round_trip(
    before: OutputByteStream,
    after: OutputByteStream,
    value: i8,
    reader: InputByteStream,
    rest: InputByteStream,
    r: Result<i8, StreamError>,
)
    requires
        after.appended(before, seq![i8_bits(value)]),
        reads_back(reader, before, after),
        rest.took(reader, 1, i8_of_bits(reader.next_bytes(1)[0]), r),
    ensures
        r == Ok::<i8, StreamError>(value),
        rest.advanced(reader, 1),
{
    lemma_appended_is_next(before, after, seq![i8_bits(value)], reader);
    lemma_signed_bits_round_trip(value, 0, 0, 0);
}

/// A 16-bit value that was written is read back, in either declared order.
pub proof fn lemma_u16_round_trip(
    before: OutputByteStream,
    after: OutputByteStream,
    value: u16,
    reader: InputByteStream,
    rest: InputByteStream,
    r: Result<u16, StreamError>,
)
    requires
        after.appended(before, u16_bytes(value, before.endianness)),
        reads_back(reader, before, after),
        rest.took(reader, 2, u16_from_bytes(reader.next_bytes(2), reader.order()), r),
    ensures
        r == Ok::<u16, StreamError>(value),
        rest.advanced(reader, 2),
{
    lemma_u16_bytes_round_trip(value, before.endianness);
    lemma_appended_is_next(before, after, u16_bytes(value, before.endianness), reader);
}

/// A signed 16-bit value that was written is read back.
pub proof fn lemma_i16_round_trip(
    before: OutputByteStream,
    after: OutputByteStream,
    value: i16,
    reader: InputByteStream,
    rest: InputByteStream,
    r: Result<i16, StreamError>,
)
    requires
        after.appended(before, u16_bytes(i16_bits(value), before.endianness)),
        reads_back(reader, before, after),
        rest.took(
            reader,
            2,
            i16_of_bits(u16_from_bytes(reader.next_bytes(2), reader.order())),
            r,
        ),
    ensures
        r == Ok::<i16, StreamError>(value),
        rest.advanced(reader, 2),
{
    lemma_u16_bytes_round_trip(i16_bits(value), before.endianness);
    lemma_appended_is_next(before, after, u16_bytes(i16_bits(value), before.endianness), reader);
    lemma_signed_bits_round_trip(0, value, 0, 0);
}

/// A 32-bit value that was written is read back, in either declared order.
pub proof fn lemma_u32_round_trip(
    before: OutputByteStream,
    after: OutputByteStream,
    value: u32,
    reader: InputByteStream,
    rest: InputByteStream,
    r: Result<u32, StreamError>,
)
    requires
        after.appended(before, u32_bytes(value, before.endianness)),
        reads_back(reader, before, after),
        rest.took(reader, 4, u32_from_bytes(reader.next_bytes(4), reader.order()), r),
    ensures
        r == Ok::<u32, StreamError>(value),
        rest.advanced(reader, 4),
{
    lemma_u32_bytes_round_trip(value, before.endianness);
    lemma_appended_is_next(before, after, u32_bytes(value, before.endianness), reader);
}

/// A signed 32-bit value that was written is read back.
pub proof fn lemma_i32_round_trip(
    before: OutputByteStream,
    after: OutputByteStream,
    value: i32,
    reader: InputByteStream,
    rest: InputByteStream,
    r: Result<i32, StreamError>,
)
    requires
        after.appended(before, u32_bytes(i32_bits(value), before.endianness)),
        reads_back(reader, before, after),
        rest.took(
            reader,
            4,
            i32_of_bits(u32_from_bytes(reader.next_bytes(4), reader.order())),
            r,
        ),
    ensures
        r == Ok::<i32, StreamError>(value),
        rest.advanced(reader, 4),
{
    lemma_u32_bytes_round_trip(i32_bits(value), before.endianness);
    lemma_appended_is_next(before, after, u32_bytes(i32_bits(value), before.endianness), reader);
    lemma_signed_bits_round_trip(0, 0, value, 0);
}

/// A 64-bit value that was written is read back, in either declared order.
pub proof fn lemma_u64_round_trip(
    before: OutputByteStream,
    after: OutputByteStream,
    value: u64,
    reader: InputByteStream,
    rest: InputByteStream,
    r: Result<u64, StreamError>,
)
    requires
        after.appended(before, u64_bytes(value, before.endianness)),
        reads_back(reader, before, after),
        rest.took(reader, 8, u64_from_bytes(reader.next_bytes(8), reader.order()), r),
    ensures
        r == Ok::<u64, StreamError>(value),
        rest.advanced(reader, 8),
{
    lemma_u64_bytes_round_trip(value, before.endianness);
    lemma_appended_is_next(before, after, u64_bytes(value, before.endianness), reader);
}

/// A signed 64-bit value that was written is read back.
pub proof fn lemma_i64_round_trip(
    before: OutputByteStream,
    after: OutputByteStream,
    value: i64,
    reader: InputByteStream,
    rest: InputByteStream,
    r: Result<i64, StreamError>,
)
    requires
        after.appended(before, u64_bytes(i64_bits(value), before.endianness)),
        reads_back(reader, before, after),
        rest.took(
            reader,
            8,
            i64_of_bits(u64_from_bytes(reader.next_bytes(8), reader.order())),
            r,
        ),
    ensures
        r == Ok::<i64, StreamError>(value),
        rest.advanced(reader, 8),
{
    lemma_u64_bytes_round_trip(i64_bits(value), before.endianness);
    lemma_appended_is_next(before, after, u64_bytes(i64_bits(value), before.endianness), reader);
    lemma_signed_bits_round_trip(0, 0, 0, value);
}

/// A text that was written is read back, and the cursor moves by four bytes
/// and the byte length of the text.
pub proof fn lemma_text_round_trip(
    before: OutputByteStream,
    after: OutputByteStream,
    text: Seq<char>,
    reader: InputByteStream,
    rest: InputByteStream,
    r: Result<String, StreamError>,
)
    requires
        encode_utf8(text).len() <= u32::MAX,
        after.appended(before, text_bytes(text, before.endianness)),
        reads_back(reader, before, after),
        rest.took_text(reader, r),
    ensures
        r is Ok,
        r->Ok_0@ == text,
        rest.advanced(reader, 4 + encode_utf8(text).len()),
        after.head == before.head + 4 + encode_utf8(text).len(),
{
    let body = encode_utf8(text);
    let prefix = u32_bytes(body.len() as u32, before.endianness);
    lemma_u32_bytes_round_trip(body.len() as u32, before.endianness);
    lemma_appended_is_next(before, after, text_bytes(text, before.endianness), reader);
    assert(reader.next_bytes(4) =~= prefix) by {
        assert(reader.next_bytes(4) =~= reader.next_bytes((4 + body.len()) as nat).take(4));
        assert(text_bytes(text, before.endianness).take(4) =~= prefix);
    }
    assert(reader.next_text_len() == body.len());
    assert(reader.next_text_bytes() =~= body);
    encode_utf8_valid_utf8(text);
    encode_utf8_decode_utf8(text);
}

/// A writer whose declared order is the reference order appends a plain
/// copy of a value's bytes: the value's bytes in the reference order. Any
/// other writer appends a plain copy of the value with its bytes reversed.
pub proof fn lemma_declared_order(a: u16, b: u32, c: u64, order: Endianness)
    ensures
        order == reference_order() ==> u16_bytes(a, order) == u16_bytes(a, reference_order())
            && u32_bytes(b, order) == u32_bytes(b, reference_order()) && u64_bytes(c, order)
            == u64_bytes(c, reference_order()),
        order != reference_order() ==> u16_bytes(a, order) == u16_bytes(
            spec_swap_2_bytes(a),
            reference_order(),
        ) && u32_bytes(b, order) == u32_bytes(spec_swap_4_bytes(b), reference_order())
            && u64_bytes(c, order) == u64_bytes(spec_swap_8_bytes(c), reference_order()),
{
    lemma_swap_exchanges_layouts(a, b, c);
}

/// Bytes laid out in one order and read in the other stand for the value
/// with its bytes reversed.
pub proof fn lemma_other_order_reads_reversed(
    a: u16,
    b: u32,
    c: u64,
    written: Endianness,
    read: Endianness,
)
    requires
        written != read,
    ensures
        u16_from_bytes(u16_bytes(a, written), read) == spec_swap_2_bytes(a),
        u32_from_bytes(u32_bytes(b, written), read) == spec_swap_4_bytes(b),
        u64_from_bytes(u64_bytes(c, written), read) == spec_swap_8_bytes(c),
{
    lemma_swap_exchanges_layouts(a, b, c);
    lemma_u16_bytes_round_trip(spec_swap_2_bytes(a), read);
    lemma_u32_bytes_round_trip(spec_swap_4_bytes(b), read);
    lemma_u64_bytes_round_trip(spec_swap_8_bytes(c), read);
}

} // verus!
