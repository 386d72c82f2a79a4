//! The growable buffer that both writers append to.

use vstd::prelude::*;

verus! {

/// Length, in bytes, of the buffer of a freshly made writer.
pub const DEFAULT_CAPACITY: usize = 1024;

/// The length a buffer of `len` bytes has once `need` bytes must fit: the same
/// if they fit already, twice as long if that is enough and fits the machine's
/// word, else exactly `need`.
pub open spec fn grown_len(len: nat, need: nat) -> nat {
    if need <= len {
        len
    } else if need <= 2 * len <= usize::MAX {
        2 * len
    } else {
        need
    }
}

/// `buf` is `prev`, unchanged, followed by zero bytes only.
pub open spec fn extends_with_zeros(buf: Seq<u8>, prev: Seq<u8>) -> bool {
    &&& prev.len() <= buf.len()
    &&& forall|i: int| 0 <= i < prev.len() ==> buf[i] == prev[i]
    &&& forall|i: int| prev.len() <= i < buf.len() ==> buf[i] == 0
}

/// A buffer of `n` zero bytes.
pub fn zeroed(n: usize) -> (buf: Vec<u8>)
    ensures
        buf@.len() == n,
        forall|i: int| 0 <= i < n ==> buf@[i] == 0,
{
    let mut buf: Vec<u8> = Vec::new();
    buf.resize(n, 0u8);
    buf
}

/// Makes room for `need` bytes: the buffer's length becomes what `grown_len`
/// gives. Bytes already there stay, new ones are zero.
pub fn ensure_len(buf: &mut Vec<u8>, need: usize)
    ensures
        final(buf)@.len() == grown_len(old(buf)@.len(), need as nat),
        extends_with_zeros(final(buf)@, old(buf)@),
{
    let len: usize = buf.len();
    if need > len {
        let target: usize = if len <= usize::MAX / 2 && need <= 2 * len {
            2 * len
        } else {
            need
        };
        buf.resize(target, 0u8);
    }
}

} // verus!
