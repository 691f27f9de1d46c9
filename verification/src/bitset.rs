//! What this crate takes for granted about `fixedbitset::FixedBitSet`.
//!
//! Nothing in this file is proved. Each item restates, over the sequence of
//! bits that a set holds, what the `fixedbitset` sources show of one function.

use fixedbitset::FixedBitSet;
use vstd::prelude::*;

verus! {

/// Makes `fixedbitset::FixedBitSet` known to the verifier as an opaque type.
#[verifier::external_type_specification]
#[verifier::external_body]
pub struct ExFixedBitSet(FixedBitSet);

/// The bits that a `FixedBitSet` holds, in order: one entry per bit of its
/// length, `true` where the bit is enabled.
pub uninterp spec fn bits_of(set: FixedBitSet) -> Seq<bool>;

/// Whether bit `i` is enabled in a sequence of 32-bit blocks: block `i / 32`,
/// counted from its least significant bit.
pub open spec fn packed_bit(blocks: Seq<u32>, i: int) -> bool {
    blocks[i / 32] & (1u32 << ((i % 32) as u32)) != 0
}

/// `FixedBitSet::with_capacity`: a set of `bits` bits, all of them disabled.
pub assume_specification[ FixedBitSet::with_capacity ](bits: usize) -> (set: FixedBitSet)
    ensures
        bits_of(set) == Seq::new(bits as nat, |i: int| false),
;

/// `FixedBitSet::contains`: the value of bit `bit`, for a bit within the
/// length. Nothing is said here of a bit past the length: it reads as
/// disabled unless somebody has written there through `as_mut_slice`, and the
/// engine never asks for one.
pub assume_specification[ FixedBitSet::contains ](set: &FixedBitSet, bit: usize) -> (enabled: bool)
    ensures
        bit < bits_of(*set).len() ==> enabled == bits_of(*set)[bit as int],
;

/// `FixedBitSet::set`: writes `enabled` to bit `bit` and leaves every other
/// bit and the length as they were. It panics on a bit past the length, which
/// the precondition excludes.
pub assume_specification[ FixedBitSet::set ](set: &mut FixedBitSet, bit: usize, enabled: bool)
    requires
        bit < bits_of(*old(set)).len(),
    ensures
        bits_of(*final(set)) == bits_of(*old(set)).update(bit as int, enabled),
;

/// `FixedBitSet::clone`: a set with the same bits.
pub assume_specification[ <FixedBitSet as Clone>::clone ](set: &FixedBitSet) -> (copy: FixedBitSet)
    ensures
        bits_of(copy) == bits_of(*set),
;

/// `FixedBitSet::as_slice`: the blocks behind the set, 32 bits to a block,
/// bit `i` of the set being bit `i % 32` of block `i / 32`. Nothing is said
/// of the bits of the last block that lie past the set's length.
pub assume_specification<'a>[ FixedBitSet::as_slice ](set: &'a FixedBitSet) -> (blocks: &'a [u32])
    ensures
        blocks@.len() == (bits_of(*set).len() + 31) / 32,
        forall|i: int|
            0 <= i < bits_of(*set).len() ==> #[trigger] packed_bit(blocks@, i) == bits_of(*set)[i],
;

} // verus!
