//! Bits, most significant first, and the bit store that keeps them.
//!
//! A byte's bit 0 is its most significant bit, as the print head scans a row from the left.
//! The store itself is `bitvec`'s `BitVec<u8, Msb0>`; what this crate believes of it is
//! written on the functions at the end of this file, and nothing else here is taken on
//! trust.

use bitvec::order::Msb0;
use bitvec::vec::BitVec;
use vstd::prelude::*;

verus! {

/// The value of bit `k` of a byte, `k` counted from the most significant bit.
pub open spec fn bit_weight(k: int) -> int
    recommends
        0 <= k < 8,
{
    if k == 0 {
        128
    } else if k == 1 {
        64
    } else if k == 2 {
        32
    } else if k == 3 {
        16
    } else if k == 4 {
        8
    } else if k == 5 {
        4
    } else if k == 6 {
        2
    } else {
        1
    }
}

/// Bit `k` of a byte, `k` counted from the most significant bit.
pub open spec fn byte_bit(byte: u8, k: int) -> bool
    recommends
        0 <= k < 8,
{
    (byte as int / bit_weight(k)) % 2 == 1
}

/// Bit `i` of a run of bytes: bit `i % 8` of byte `i / 8`.
pub open spec fn bit_at(bytes: Seq<u8>, i: int) -> bool
    recommends
        0 <= i < 8 * bytes.len(),
{
    byte_bit(bytes[i / 8], i % 8)
}

/// All the bits of a run of bytes, eight for each byte.
pub open spec fn unpacked(bytes: Seq<u8>) -> Seq<bool> {
    Seq::new(8 * bytes.len(), |i: int| bit_at(bytes, i))
}

/// The most bits that a bit store built from bytes may hold.
pub open spec fn spec_max_bits() -> int {
    8 * (usize::MAX as int / 64)
}

/// The most bits that a bit store built from bytes may hold.
pub fn max_bits() -> (n: usize)
    ensures
        n == spec_max_bits(),
{
    8 * (usize::MAX / 64)
}

/// The value of bit `k` of a byte, as the shift of the top bit that it is.
pub(crate) fn weight_of(k: u32) -> (w: u8)
    requires
        k < 8,
    ensures
        w == bit_weight(k as int),
{
    let w: u8 = 128u8 >> k;
    assert(w == if k == 0 {
        128u8
    } else if k == 1 {
        64u8
    } else if k == 2 {
        32u8
    } else if k == 3 {
        16u8
    } else if k == 4 {
        8u8
    } else if k == 5 {
        4u8
    } else if k == 6 {
        2u8
    } else {
        1u8
    }) by (bit_vector)
        requires
            k < 8,
            w == 128u8 >> k,
    ;
    w
}

/// A growable sequence of bits. It holds a `bitvec::vec::BitVec<u8, Msb0>`, which Verus
/// cannot look into; `stored_bits` names what is in it.
#[verifier::external_body]
pub struct BitBuf {
    inner: BitVec<u8, Msb0>,
}

/// The bits that a bit store holds, in index order.
pub uninterp spec fn stored_bits(store: BitBuf) -> Seq<bool>;

/// `BitVec::new`: a bit-vector that holds nothing.
#[verifier::external_body]
pub(crate) fn store_new() -> (store: BitBuf)
    ensures
        stored_bits(store) == Seq::<bool>::empty(),
{
    BitBuf { inner: BitVec::new() }
}

/// `BitVec::from_slice` under `Msb0`: a copy of the bytes, seen as bits. Bit `i` of the
/// result is in byte `i / 8`, and `Msb0` counts a byte's bits from the most significant.
/// `from_slice` panics on a slice longer than a bit-vector can span, which is more than
/// a sixty-fourth of the range of `usize`; the precondition stays below that.
#[verifier::external_body]
pub(crate) fn store_from_bytes(bytes: &[u8]) -> (store: BitBuf)
    requires
        bytes@.len() <= usize::MAX / 64,
    ensures
        stored_bits(store) == unpacked(bytes@),
{
    BitBuf { inner: BitVec::from_slice(bytes) }
}

/// Indexing a `BitVec` with a `usize`: the bit at `index`. It panics at or past the
/// length.
#[verifier::external_body]
pub(crate) fn store_get(store: &BitBuf, index: usize) -> (bit: bool)
    requires
        index < stored_bits(*store).len(),
    ensures
        bit == stored_bits(*store)[index as int],
{
    store.inner[index]
}

/// `BitVec::push`: one more bit at the end. It panics when the length would pass
/// `BitSlice::MAX_BITS`, an eighth of the range of `usize`.
#[verifier::external_body]
pub(crate) fn store_push(store: &mut BitBuf, bit: bool)
    requires
        stored_bits(*old(store)).len() < usize::MAX / 8,
    ensures
        stored_bits(*final(store)) == stored_bits(*old(store)).push(bit),
{
    store.inner.push(bit)
}

/// `BitSlice::set`: writes the bit at `index` and leaves the others. It panics at or past
/// the length, and nowhere else.
#[verifier::external_body]
pub(crate) fn store_set(store: &mut BitBuf, index: usize, bit: bool)
    requires
        index < stored_bits(*old(store)).len(),
    ensures
        stored_bits(*final(store)) == stored_bits(*old(store)).update(index as int, bit),
    no_unwind
{
    store.inner.set(index, bit)
}

/// `BitVec::truncate`: keeps the first `len` bits; a `len` at or past the length changes
/// nothing.
#[verifier::external_body]
pub(crate) fn store_truncate(store: &mut BitBuf, len: usize)
    ensures
        len < stored_bits(*old(store)).len() ==> stored_bits(*final(store)) == stored_bits(
            *old(store),
        ).take(len as int),
        len >= stored_bits(*old(store)).len() ==> stored_bits(*final(store)) == stored_bits(
            *old(store),
        ),
{
    store.inner.truncate(len)
}

} // verus!
