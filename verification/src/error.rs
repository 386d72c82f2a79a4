//! What can go wrong while decoding.

use vstd::prelude::*;

verus! {

/// Why a read was refused.
#[derive(PartialEq, Eq, Structural, Copy, Clone, Debug)]
pub enum StreamError {
    /// The field reaches past the end of the source.
    OutOfBounds,
    /// The bytes of a text field are not valid UTF-8.
    MalformedText,
}

} // verus!
