//! Bytes as sequences of bits. A bit stream numbers its bits from the least
//! significant bit of its first byte: bit `i` is bit `i % 8` of byte `i / 8`.

use vstd::prelude::*;

verus! {

/// Bit `i` of `x`, counted from the least significant.
pub open spec fn bit_of(x: u8, i: u8) -> bool {
    (x >> i) & 1 == 1
}

/// Bit `i` of the bit stream that `bytes` holds.
pub open spec fn bit_at(bytes: Seq<u8>, i: int) -> bool
    recommends
        0 <= i < 8 * bytes.len(),
{
    bit_of(bytes[i / 8], (i % 8) as u8)
}

/// The eight bits of `x`, least significant first.
pub open spec fn bits_of_byte(x: u8) -> Seq<bool> {
    Seq::new(8, |i: int| bit_of(x, i as u8))
}

/// The bit stream that `bytes` holds.
pub open spec fn bits_of_bytes(bytes: Seq<u8>) -> Seq<bool> {
    Seq::new(8 * bytes.len(), |i: int| bit_at(bytes, i))
}

/// Bit `i` of `bits` as a number: 1 where `bits` reaches that far and the
/// bit is set, else 0.
pub open spec fn digit(bits: Seq<bool>, i: int) -> int {
    if i < bits.len() && bits[i] {
        1
    } else {
        0
    }
}

/// The byte whose bits, least significant first, are `bits`, with zeros for
/// the bits that `bits` is too short to give.
pub open spec fn byte_of_bits(bits: Seq<bool>) -> u8
    recommends
        bits.len() <= 8,
{
    (digit(bits, 0) + 2 * digit(bits, 1) + 4 * digit(bits, 2) + 8 * digit(bits, 3)
        + 16 * digit(bits, 4) + 32 * digit(bits, 5) + 64 * digit(bits, 6)
        + 128 * digit(bits, 7)) as u8
}

/// The bytes that `bits` fills, eight bits to a byte.
pub open spec fn bytes_of_bits(bits: Seq<bool>) -> Seq<u8> {
    Seq::new(bits.len() / 8, |k: int| byte_of_bits(bits.subrange(8 * k, 8 * k + 8)))
}

/// The number of bytes that `bits` bits reach into.
pub open spec fn byte_len(bits: nat) -> nat {
    (bits + 7) / 8
}

/// The number of bytes that `bits` bits reach into.
pub fn bytes_for(bits: usize) -> (n: usize)
    ensures
        n == byte_len(bits as nat),
{
    if bits % 8 == 0 {
        bits / 8
    } else {
        bits / 8 + 1
    }
}

/// Bit `i` of `x` as a number.
spec fn place(x: u8, i: u8) -> u8 {
    if bit_of(x, i) {
        1
    } else {
        0
    }
}

/// A byte is the sum of its bits, each weighted by its place.
pub proof fn lemma_byte_is_sum_of_bits(x: u8)
    ensures
        byte_of_bits(bits_of_byte(x)) == x,
{
    assert(x == place(x, 0) + 2 * place(x, 1) + 4 * place(x, 2) + 8 * place(x, 3) + 16 * place(x, 4)
        + 32 * place(x, 5) + 64 * place(x, 6) + 128 * place(x, 7)) by (bit_vector);
}

/// Packing the bit stream of a byte sequence gives the bytes back.
pub proof fn lemma_bytes_of_bits_of_bytes(bytes: Seq<u8>)
    ensures
        bytes_of_bits(bits_of_bytes(bytes)) == bytes,
{
    assert forall|k: int| 0 <= k < bytes.len() implies #[trigger] bytes_of_bits(
        bits_of_bytes(bytes),
    )[k] == bytes[k] by {
        lemma_byte_is_sum_of_bits(bytes[k]);
        assert(bits_of_bytes(bytes).subrange(8 * k, 8 * k + 8) =~= bits_of_byte(bytes[k]));
    }
    assert(bytes_of_bits(bits_of_bytes(bytes)) =~= bytes);
}

/// The mask of the low `n` bits of a byte, for `n` from 1 to 8.
pub open spec fn low_mask(n: u8) -> u8 {
    0xffu8 >> ((8 - n) as u8)
}

/// The byte that holds the low `off` bits of `cur`, above them the low `n`
/// bits of `data` as far as they fit, and zeros above those.
pub open spec fn merged(cur: u8, data: u8, off: u8, n: u8) -> u8 {
    (cur & !(0xffu8 << off)) | ((data & low_mask(n)) << off)
}

/// The byte that holds, of the low `n` bits of `data`, those that did not
/// fit above the low `off` bits of the byte before, and zeros above them.
pub open spec fn spilled(data: u8, off: u8, n: u8) -> u8 {
    (data & low_mask(n)) >> ((8 - off) as u8)
}

/// Bit `j` of a merged byte and of the byte that takes what did not fit.
pub proof fn lemma_merged_bits(cur: u8, data: u8, off: u8, n: u8, j: u8)
    by (bit_vector)
    requires
        off < 8,
        1 <= n <= 8,
        j < 8,
    ensures
        bit_of(merged(cur, data, off, n), j) == (if j < off {
            bit_of(cur, j)
        } else {
            j - off < n && bit_of(data, (j - off) as u8)
        }),
        off > 0 ==> bit_of(spilled(data, off, n), j) == (j + 8 - off < n && bit_of(
            data,
            (j + 8 - off) as u8,
        )),
{
}

/// The low `n` bits of what is left of `cur` above its low `off` bits.
pub open spec fn extracted(cur: u8, off: u8, n: u8) -> u8 {
    (cur >> off) & low_mask(n)
}

/// The low `n` bits of what is left of `cur` above its low `off` bits,
/// continued by the bits of `next`.
pub open spec fn extracted_across(cur: u8, next: u8, off: u8, n: u8) -> u8 {
    ((cur >> off) | (next << ((8 - off) as u8))) & low_mask(n)
}

/// Bit `j` of a byte taken out of one byte, or out of two that it spans.
pub proof fn lemma_extracted_bits(cur: u8, next: u8, off: u8, n: u8, j: u8)
    by (bit_vector)
    requires
        off < 8,
        1 <= n <= 8,
        j < 8,
    ensures
        bit_of(extracted(cur, off, n), j) == (j < n && j + off < 8 && bit_of(
            cur,
            (j + off) as u8,
        )),
        off > 0 ==> bit_of(extracted_across(cur, next, off, n), j) == (j < n && if j + off < 8 {
            bit_of(cur, (j + off) as u8)
        } else {
            bit_of(next, (j + off - 8) as u8)
        }),
{
}

/// What writing the low `n` bits of `data` at bit `head` does to the bit
/// stream of a buffer: `after` is `before` but for the byte that bit `head`
/// is in, which is merged with `data`, and, where the bits do not fit
/// there, the next byte, which takes the rest.
pub proof fn lemma_packed_bits(before: Seq<u8>, after: Seq<u8>, head: nat, data: u8, n: nat)
    requires
        1 <= n <= 8,
        byte_len(head + n) <= before.len(),
        after.len() == before.len(),
        forall|k: int|
            0 <= k < before.len() && k != head / 8 && !(k == head / 8 + 1 && head % 8 + n > 8)
                ==> after[k] == before[k],
        after[(head / 8) as int] == merged(
            before[(head / 8) as int],
            data,
            (head % 8) as u8,
            n as u8,
        ),
        head % 8 + n > 8 ==> after[(head / 8 + 1) as int] == spilled(
            data,
            (head % 8) as u8,
            n as u8,
        ),
    ensures
        bits_of_bytes(after).take((head + n) as int) == bits_of_bytes(before).take(head as int)
            + bits_of_byte(data).take(n as int),
        forall|i: int| head + n <= i < 8 * byte_len(head + n) ==> !bit_at(after, i),
{
    let q = (head / 8) as int;
    let off = (head % 8) as u8;
    let cur = before[q];
    let expected = bits_of_bytes(before).take(head as int) + bits_of_byte(data).take(n as int);
    assert forall|i: int| 0 <= i < 8 * byte_len(head + n) implies bit_at(after, i) == (if i
        < head {
        bit_at(before, i)
    } else {
        i < head + n && bit_of(data, (i - head) as u8)
    }) by {
        let k = i / 8;
        let j = (i % 8) as u8;
        assert(i == 8 * k + j);
        assert(head == 8 * q + off);
        lemma_merged_bits(cur, data, off, n as u8, j);
        if k < q {
            assert(after[k] == before[k]);
        } else if k == q {
        } else {
            assert(k == q + 1);
            assert(off + n > 8);
        }
    }
    assert(bits_of_bytes(after).take((head + n) as int) =~= expected);
}

/// The first bits of byte `k` continue the bits of the bytes before it.
pub proof fn lemma_bits_of_next_byte(bytes: Seq<u8>, k: nat, n: nat)
    requires
        k < bytes.len(),
        n <= 8,
    ensures
        bits_of_bytes(bytes).take((8 * k) as int) + bits_of_byte(bytes[k as int]).take(n as int)
            == bits_of_bytes(bytes).take((8 * k + n) as int),
{
    let joined = bits_of_bytes(bytes).take((8 * k) as int) + bits_of_byte(bytes[k as int]).take(
        n as int,
    );
    let whole = bits_of_bytes(bytes).take((8 * k + n) as int);
    assert forall|i: int| 0 <= i < 8 * k + n implies joined[i] == whole[i] by {
        if i >= 8 * k {
            assert(i / 8 == k && i % 8 == i - 8 * k);
        }
    }
    assert(joined =~= whole);
}

/// The bit stream of two byte sequences, one after the other, is the bit
/// stream of the first followed by that of the second.
pub proof fn lemma_bits_of_bytes_concat(a: Seq<u8>, b: Seq<u8>)
    ensures
        bits_of_bytes(a + b) == bits_of_bytes(a) + bits_of_bytes(b),
{
    let joined = bits_of_bytes(a) + bits_of_bytes(b);
    assert forall|i: int| 0 <= i < 8 * (a.len() + b.len()) implies bits_of_bytes(a + b)[i]
        == joined[i] by {
        if i >= 8 * a.len() {
            assert((i - 8 * a.len()) / 8 == i / 8 - a.len());
            assert((i - 8 * a.len()) % 8 == i % 8);
        }
    }
    assert(bits_of_bytes(a + b) =~= joined);
}

/// The one bit of a boolean is the lowest bit of the byte 1 or 0.
pub proof fn lemma_bit_of_bool(v: bool)
    ensures
        bits_of_byte(if v { 1u8 } else { 0u8 }).take(1) == seq![v],
{
    assert(bit_of(1u8, 0) && !bit_of(0u8, 0)) by (bit_vector);
    assert(bits_of_byte(if v { 1u8 } else { 0u8 }).take(1) =~= seq![v]);
}

/// What taking `n` bits at bit `head` out of the bit stream of `bytes` gives:
/// the byte taken out of the byte that bit `head` is in, or out of that byte
/// and the next where the bits reach into it, is the byte made of those bits.
pub proof fn lemma_unpacked_bits(bytes: Seq<u8>, head: nat, n: nat, r: u8)
    requires
        1 <= n <= 8,
        head + n <= 8 * bytes.len(),
        r == if head % 8 + n > 8 {
            extracted_across(
                bytes[(head / 8) as int],
                bytes[(head / 8 + 1) as int],
                (head % 8) as u8,
                n as u8,
            )
        } else {
            extracted(bytes[(head / 8) as int], (head % 8) as u8, n as u8)
        },
    ensures
        r == byte_of_bits(bits_of_bytes(bytes).subrange(head as int, (head + n) as int)),
{
    let q = (head / 8) as int;
    let off = (head % 8) as u8;
    let cur = bytes[q];
    let next = bytes[q + 1];
    let taken = bits_of_bytes(bytes).subrange(head as int, (head + n) as int);
    assert(head == 8 * q + off);
    assert forall|j: int| 0 <= j < 8 implies #[trigger] bits_of_byte(r)[j] == (j < n
        && taken[j]) by {
        lemma_extracted_bits(cur, next, off, n as u8, j as u8);
        if j < n {
            let i = head + j;
            if j + off < 8 {
                assert(i / 8 == q && i % 8 == j + off);
            } else {
                assert(i / 8 == q + 1 && i % 8 == j + off - 8);
            }
        }
    }
    lemma_byte_is_sum_of_bits(r);
    assert(digit(bits_of_byte(r), 0) == digit(taken, 0));
    assert(digit(bits_of_byte(r), 1) == digit(taken, 1));
    assert(digit(bits_of_byte(r), 2) == digit(taken, 2));
    assert(digit(bits_of_byte(r), 3) == digit(taken, 3));
    assert(digit(bits_of_byte(r), 4) == digit(taken, 4));
    assert(digit(bits_of_byte(r), 5) == digit(taken, 5));
    assert(digit(bits_of_byte(r), 6) == digit(taken, 6));
    assert(digit(bits_of_byte(r), 7) == digit(taken, 7));
}

} // verus!
