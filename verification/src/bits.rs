//! Trusted interface to the packed bit storage, together with the
//! specification of how a bit sequence is laid out in bytes
//! (most-significant-bit first within each byte).

use vstd::prelude::*;
use vstd::arithmetic::div_mod::lemma_fundamental_div_mod_converse;
use vstd::assert_seqs_equal;

verus! {

/// The byte that packs the eight bits of `bits` starting at index `8 * j`,
/// most significant bit first.
pub open spec fn spec_pack_byte(bits: Seq<bool>, j: int) -> u8 {
    (((if bits[8 * j] {
        128int
    } else {
        0int
    }) + (if bits[8 * j + 1] {
        64int
    } else {
        0int
    }) + (if bits[8 * j + 2] {
        32int
    } else {
        0int
    }) + (if bits[8 * j + 3] {
        16int
    } else {
        0int
    }) + (if bits[8 * j + 4] {
        8int
    } else {
        0int
    }) + (if bits[8 * j + 5] {
        4int
    } else {
        0int
    }) + (if bits[8 * j + 6] {
        2int
    } else {
        0int
    }) + (if bits[8 * j + 7] {
        1int
    } else {
        0int
    })) as u8)
}

/// A whole-byte bit sequence packed into bytes, rows of eight bits each,
/// most significant bit first.
pub open spec fn spec_packed(bits: Seq<bool>) -> Seq<u8> {
    Seq::new((bits.len() / 8) as nat, |j: int| spec_pack_byte(bits, j))
}

/// Bytes that agree with `bits` bit by bit under the most-significant-bit
/// first layout are exactly the packed form of `bits`.
pub proof fn lemma_packed_bytes(bits: Seq<bool>, bytes: Seq<u8>)
    requires
        bits.len() % 8 == 0,
        bytes.len() * 8 == bits.len(),
        forall|i: int|
            0 <= i < bits.len() ==> #[trigger] bits[i] == (((bytes[i / 8] >> ((7 - i
                % 8) as u8)) & 1u8) == 1u8),
    ensures
        bytes == spec_packed(bits),
{
    assert forall|j: int| 0 <= j < bytes.len() implies bytes[j] == spec_pack_byte(bits, j) by {
        let b = bytes[j];
        assert forall|k: int| 0 <= k < 8 implies #[trigger] bits[8 * j + k] == (((b >> ((7
            - k) as u8)) & 1u8) == 1u8) by {
            lemma_fundamental_div_mod_converse(8 * j + k, 8, j, k);
            assert(8 * j + k < bits.len());
        }
        let b0 = bits[8 * j];
        let b1 = bits[8 * j + 1];
        let b2 = bits[8 * j + 2];
        let b3 = bits[8 * j + 3];
        let b4 = bits[8 * j + 4];
        let b5 = bits[8 * j + 5];
        let b6 = bits[8 * j + 6];
        let b7 = bits[8 * j + 7];
        assert(b == (((if b0 {
            128int
        } else {
            0int
        }) + (if b1 {
            64int
        } else {
            0int
        }) + (if b2 {
            32int
        } else {
            0int
        }) + (if b3 {
            16int
        } else {
            0int
        }) + (if b4 {
            8int
        } else {
            0int
        }) + (if b5 {
            4int
        } else {
            0int
        }) + (if b6 {
            2int
        } else {
            0int
        }) + (if b7 {
            1int
        } else {
            0int
        })) as u8)) by (bit_vector)
            requires
                b0 == (((b >> 7u8) & 1u8) == 1u8),
                b1 == (((b >> 6u8) & 1u8) == 1u8),
                b2 == (((b >> 5u8) & 1u8) == 1u8),
                b3 == (((b >> 4u8) & 1u8) == 1u8),
                b4 == (((b >> 3u8) & 1u8) == 1u8),
                b5 == (((b >> 2u8) & 1u8) == 1u8),
                b6 == (((b >> 1u8) & 1u8) == 1u8),
                b7 == (((b >> 0u8) & 1u8) == 1u8),
        ;
    }
    assert_seqs_equal!(bytes == spec_packed(bits));
}

/// A growable sequence of bits packed into bytes, most-significant-bit first.
/// Backed by `bitvec::vec::BitVec<u8, Msb0>`; opaque to the verifier, which
/// sees its contents only through `bv_bits`.
#[verifier::external_body]
pub struct BitBuf {
    inner: bitvec::vec::BitVec<u8, bitvec::order::Msb0>,
}

/// The sequence of bits that a bit buffer holds, in index order.
pub uninterp spec fn bv_bits(v: BitBuf) -> Seq<bool>;

/// Relies on bitvec::vec::BitVec::repeat: a vector of `len` copies of `bit`.
/// The length cap keeps `len` within the bit-span limit that `repeat` asserts.
#[verifier::external_body]
pub(crate) fn bv_repeat(bit: bool, len: usize) -> (v: BitBuf)
    requires
        len <= usize::MAX / 8,
    ensures
        bv_bits(v) == Seq::new(len as nat, |i: int| bit),
{
    BitBuf { inner: bitvec::vec::BitVec::repeat(bit, len) }
}

/// Relies on bitvec::slice::BitSlice::set: writes one bit in place; the bits
/// at all other indices are untouched. `set` panics when `index` is out of
/// range, so that range is required here.
#[verifier::external_body]
pub(crate) fn bv_set(v: &mut BitBuf, index: usize, value: bool)
    requires
        index < bv_bits(*old(v)).len(),
    ensures
        bv_bits(*final(v)) == bv_bits(*old(v)).update(index as int, value),
{
    v.inner.set(index, value);
}

/// Relies on bitvec::vec::BitVec::as_raw_slice and the documented Msb0/u8
/// layout: bit `i` of the vector is stored in byte `i / 8` at bit position
/// `7 - i % 8`. A whole-byte length is required so that every byte of the raw
/// storage is fully described by live bits.
#[verifier::external_body]
pub(crate) fn bv_raw_bytes(v: &BitBuf) -> (r: Vec<u8>)
    requires
        bv_bits(*v).len() % 8 == 0,
    ensures
        r@.len() * 8 == bv_bits(*v).len(),
        forall|i: int|
            0 <= i < bv_bits(*v).len() ==> #[trigger] bv_bits(*v)[i] == (((r@[i / 8] >> ((7 - i
                % 8) as u8)) & 1u8) == 1u8),
{
    v.inner.as_raw_slice().to_vec()
}

} // verus!
