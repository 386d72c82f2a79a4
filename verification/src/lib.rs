//! In-memory binary codec: a byte-addressable stream with a declared byte
//! order and a bit-addressable stream that packs fields at arbitrary bit
//! offsets, both over one growable buffer.

pub mod bit_stream;
pub mod bits;
pub mod buffer;
pub mod byte_stream;
pub mod error;
pub mod text;
pub mod wire;
