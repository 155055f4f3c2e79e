//! Trusted interface to the `fixedbitset` crate, which stores the grid's
//! cells as a dense, bit-packed set.
//!
//! `bits_of` names the contents of a `FixedBitSet` as a sequence of booleans,
//! one per bit, in index order; every contract below speaks over that name.

use vstd::prelude::*;
use fixedbitset::FixedBitSet;

verus! {

/// `fixedbitset::FixedBitSet`: a fixed-length set of bits.
#[verifier::external_type_specification]
#[verifier::external_body]
pub struct ExFixedBitSet(FixedBitSet);

/// The bits a `FixedBitSet` holds, in index order; `true` is a set bit.
pub uninterp spec fn bits_of(s: FixedBitSet) -> Seq<bool>;

/// Relies on `FixedBitSet::with_capacity`: a fresh set of `bits` bits,
/// every one of them zero.
#[verifier::external_body]
pub fn bits_with_capacity(bits: usize) -> (r: FixedBitSet)
    ensures
        bits_of(r).len() == bits as nat,
        forall|i: int| 0 <= i < bits as nat ==> !bits_of(r)[i],
{
    FixedBitSet::with_capacity(bits)
}

/// Relies on `FixedBitSet::contains`: whether bit `bit` is set.
#[verifier::external_body]
pub fn bits_get(s: &FixedBitSet, bit: usize) -> (r: bool)
    requires
        (bit as nat) < bits_of(*s).len(),
    ensures
        r == bits_of(*s)[bit as int],
{
    s.contains(bit)
}

/// Relies on `FixedBitSet::set`: writes bit `bit`. It panics out of range,
/// so the range is required here.
#[verifier::external_body]
pub fn bits_set(s: &mut FixedBitSet, bit: usize, enabled: bool)
    requires
        (bit as nat) < bits_of(*old(s)).len(),
    ensures
        bits_of(*final(s)) == bits_of(*old(s)).update(bit as int, enabled),
{
    s.set(bit, enabled)
}

/// Relies on `FixedBitSet::clear`: zeroes every bit and keeps the length.
#[verifier::external_body]
pub fn bits_clear_all(s: &mut FixedBitSet)
    ensures
        bits_of(*final(s)).len() == bits_of(*old(s)).len(),
        forall|i: int| 0 <= i < bits_of(*final(s)).len() ==> !bits_of(*final(s))[i],
{
    s.clear()
}

/// Relies on `FixedBitSet::as_slice`: the backing `u32` blocks. Bit `i` of
/// the set is bit `i % 32` of block `i / 32`, and the last block is padded
/// with zeroes.
#[verifier::external_body]
pub fn bits_as_slice(s: &FixedBitSet) -> (r: &[u32])
    ensures
        r@.len() == (bits_of(*s).len() + 31) / 32,
        forall|i: int| 0 <= i < bits_of(*s).len() ==>
            bits_of(*s)[i] == (((r@[i / 32] >> ((i % 32) as u32)) & 1u32) == 1u32),
{
    s.as_slice()
}

} // verus!
