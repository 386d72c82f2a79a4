//! Byte-aligned streams with a declared byte order.

use vstd::prelude::*;

pub mod input_byte_stream;
pub mod output_byte_stream;
pub mod round_trip;
pub mod swap_bytes;

verus! {

/// The order in which the bytes of a multi-byte value appear in a stream.
#[derive(PartialEq, Eq, Structural, Copy, Clone, Debug)]
pub enum Endianness {
    /// Most significant byte first.
    BigEndian,
    /// Least significant byte first.
    LittleEndian,
}

/// The reference order: a stream whose declared order equals it copies a
/// value's bytes as they are, any other stream reverses them first.
pub open spec fn reference_order() -> Endianness {
    Endianness::LittleEndian
}

/// Returns the reference order. It is a fixed constant, so that what a stream
/// holds does not depend on the machine that built it.
pub fn get_platform_endianness() -> (e: Endianness)
    ensures
        e == reference_order(),
{
    Endianness::LittleEndian
}

} // verus!
