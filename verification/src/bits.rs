//! Membership masks: one bit per registered component type.
use vstd::prelude::*;

verus! {

/// The number of component types that a mask has room for.
pub const MASK_WIDTH: usize = 32;

/// The mask with only bit `i` set, for `0 <= i < 32`.
pub open spec fn bit(i: int) -> u32 {
    1u32 << (i as u32)
}

/// Whether `mask` has every bit of `target` set. Other bits of `mask` do not
/// matter.
pub open spec fn has_all(mask: u32, target: u32) -> bool {
    mask & target == target
}

/// Whether bit `i` is set in `mask`.
pub open spec fn has_bit(mask: u32, i: int) -> bool {
    has_all(mask, bit(i))
}

/// A single bit is not the empty mask, and two positions give two bits with
/// nothing in common.
pub proof fn lemma_bits_distinct(i: int, j: int)
    requires
        0 <= i < 32,
        0 <= j < 32,
    ensures
        bit(i) != 0,
        has_bit(bit(i), j) <==> i == j,
        bit(i) == bit(j) <==> i == j,
{
    let a = i as u32;
    let b = j as u32;
    assert(a < 32 && b < 32 ==> (1u32 << a) != 0 && (((1u32 << a) & (1u32 << b) == (1u32 << b)) <==> a
        == b) && (((1u32 << a) == (1u32 << b)) <==> a == b)) by (bit_vector);
}

/// The empty mask has no bit set.
pub proof fn lemma_empty_mask(j: int)
    requires
        0 <= j < 32,
    ensures
        !has_bit(0, j),
        has_all(0, 0),
{
    let b = j as u32;
    assert(b < 32 ==> 0u32 & (1u32 << b) != (1u32 << b)) by (bit_vector);
    assert(0u32 & 0u32 == 0u32) by (bit_vector);
}

/// Setting bit `i` sets that bit and leaves every other bit as it was.
pub proof fn lemma_set_bit(mask: u32, i: int, j: int)
    requires
        0 <= i < 32,
        0 <= j < 32,
    ensures
        has_bit(mask | bit(i), j) <==> (i == j || has_bit(mask, j)),
{
    let a = i as u32;
    let b = j as u32;
    assert(a < 32 && b < 32 ==> ((((mask | (1u32 << a)) & (1u32 << b)) == (1u32 << b)) <==> (a == b
        || (mask & (1u32 << b)) == (1u32 << b)))) by (bit_vector);
}

/// Setting a bit that is already set changes nothing.
pub proof fn lemma_set_bit_twice(mask: u32, i: int)
    requires
        0 <= i < 32,
    ensures
        (mask | bit(i)) | bit(i) == mask | bit(i),
        has_bit(mask, i) ==> mask | bit(i) == mask,
        0u32 | bit(i) == bit(i),
{
    let a = i as u32;
    assert(a < 32 ==> ((mask | (1u32 << a)) | (1u32 << a)) == (mask | (1u32 << a))) by (bit_vector);
    assert(a < 32 && (mask & (1u32 << a)) == (1u32 << a) ==> (mask | (1u32 << a)) == mask)
        by (bit_vector);
    assert(a < 32 ==> (0u32 | (1u32 << a)) == (1u32 << a)) by (bit_vector);
}

/// Clearing bit `i` clears that bit and leaves every other bit as it was.
pub proof fn lemma_clear_bit(mask: u32, i: int, j: int)
    requires
        0 <= i < 32,
        0 <= j < 32,
    ensures
        has_bit(mask & !bit(i), j) <==> (i != j && has_bit(mask, j)),
{
    let a = i as u32;
    let b = j as u32;
    assert(a < 32 && b < 32 ==> ((((mask & !(1u32 << a)) & (1u32 << b)) == (1u32 << b)) <==> (a != b
        && (mask & (1u32 << b)) == (1u32 << b)))) by (bit_vector);
}

/// On a mask that has bit `i`, exclusive or with the bit clears it; on a mask
/// that lacks it, clearing changes nothing.
pub proof fn lemma_toggle_clears(mask: u32, i: int)
    requires
        0 <= i < 32,
    ensures
        has_bit(mask, i) ==> mask ^ bit(i) == mask & !bit(i),
        !has_bit(mask, i) ==> mask & !bit(i) == mask,
{
    let a = i as u32;
    assert(a < 32 && (mask & (1u32 << a)) == (1u32 << a) ==> (mask ^ (1u32 << a)) == (mask & !(1u32
        << a))) by (bit_vector);
    assert(a < 32 && (mask & (1u32 << a)) != (1u32 << a) ==> (mask & !(1u32 << a)) == mask)
        by (bit_vector);
}

/// A mask that has all of `target` has each part of `target`; adding a bit to
/// a target keeps what it had and gains the bit.
pub proof fn lemma_has_all(mask: u32, target: u32, part: u32)
    ensures
        has_all(mask, target) && has_all(target, part) ==> has_all(mask, part),
        has_all(target | part, part),
        has_all(target | part, target),
        has_all(mask, target | part) <==> has_all(mask, target) && has_all(mask, part),
        has_all(mask, 0),
{
    assert((mask & target) == target && (target & part) == part ==> (mask & part) == part)
        by (bit_vector);
    assert(((target | part) & part) == part) by (bit_vector);
    assert(((target | part) & target) == target) by (bit_vector);
    assert(((mask & (target | part)) == (target | part)) <==> ((mask & target) == target && (mask
        & part) == part)) by (bit_vector);
    assert((mask & 0u32) == 0u32) by (bit_vector);
}

} // verus!
