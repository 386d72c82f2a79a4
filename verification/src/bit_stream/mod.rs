//! Streams whose fields may start and end at any bit.

pub mod input_bit_stream;
pub mod output_bit_stream;
pub mod round_trip;
