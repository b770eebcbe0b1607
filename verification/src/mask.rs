//! Activation masks: sets of material slots packed into a `u64`.

use vstd::prelude::*;

verus! {

/// The number of material slots that an activation mask can hold.
pub const MAX_MATERIALS: usize = 64;

/// Whether `slot` is a member of `mask`.
pub open spec fn mask_contains(mask: u64, slot: int) -> bool {
    0 <= slot < 64 && mask & (1u64 << (slot as u64)) != 0
}

/// The mask that holds the slots `0..count` and nothing else.
pub open spec fn full_mask(count: int) -> u64 {
    if count >= 64 {
        u64::MAX
    } else if count <= 0 {
        0
    } else {
        ((1u64 << (count as u64)) - 1) as u64
    }
}

/// The number of members of `mask` that lie below `slot`.
pub open spec fn active_below(mask: u64, slot: int) -> nat
    decreases slot,
{
    if slot <= 0 {
        0
    } else {
        active_below(mask, slot - 1) + if mask_contains(mask, slot - 1) {
            1nat
        } else {
            0nat
        }
    }
}

/// Whether every member of `mask` lies below `count`.
pub open spec fn mask_within(mask: u64, count: int) -> bool {
    forall|slot: int| #[trigger] mask_contains(mask, slot) ==> slot < count
}

proof fn lemma_bit_set(mask: u64, s: u64, j: u64)
    by (bit_vector)
    requires
        s < 64,
        j < 64,
    ensures
        ((mask | (1u64 << s)) & (1u64 << j) != 0) == (j == s || mask & (1u64 << j) != 0),
{
}

proof fn lemma_bit_cleared(mask: u64, s: u64, j: u64)
    by (bit_vector)
    requires
        s < 64,
        j < 64,
    ensures
        ((mask & !(1u64 << s)) & (1u64 << j) != 0) == (j != s && mask & (1u64 << j) != 0),
{
}

proof fn lemma_bit_of_low_ones(n: u64, j: u64)
    by (bit_vector)
    requires
        0 < n < 64,
        j < 64,
    ensures
        1u64 << n >= 1,
        (((1u64 << n) - 1) as u64 & (1u64 << j) != 0) == (j < n),
{
}

proof fn lemma_bit_of_all_ones(j: u64)
    by (bit_vector)
    requires
        j < 64,
    ensures
        0xffff_ffff_ffff_ffffu64 & (1u64 << j) != 0,
        0u64 & (1u64 << j) == 0,
{
}

/// The members of `mask` with `slot` added.
pub proof fn lemma_with_slot(mask: u64, slot: int)
    requires
        0 <= slot < 64,
    ensures
        forall|j: int| #[trigger]
            mask_contains(mask | (1u64 << (slot as u64)), j) == (j == slot || mask_contains(
                mask,
                j,
            )),
{
    assert forall|j: int| #[trigger]
        mask_contains(mask | (1u64 << (slot as u64)), j) == (j == slot || mask_contains(
            mask,
            j,
        )) by {
        if 0 <= j < 64 {
            lemma_bit_set(mask, slot as u64, j as u64);
        }
    }
}

/// The members of `mask` with `slot` taken out.
pub proof fn lemma_without_slot(mask: u64, slot: int)
    requires
        0 <= slot < 64,
    ensures
        forall|j: int| #[trigger]
            mask_contains(mask & !(1u64 << (slot as u64)), j) == (j != slot && mask_contains(
                mask,
                j,
            )),
{
    assert forall|j: int| #[trigger]
        mask_contains(mask & !(1u64 << (slot as u64)), j) == (j != slot && mask_contains(
            mask,
            j,
        )) by {
        if 0 <= j < 64 {
            lemma_bit_cleared(mask, slot as u64, j as u64);
        }
    }
}

/// The members of `full_mask(count)` are the slots below `count`.
pub proof fn lemma_full_mask(count: int)
    requires
        0 <= count <= 64,
    ensures
        forall|j: int| #[trigger] mask_contains(full_mask(count), j) == (0 <= j < count),
        mask_within(full_mask(count), count),
{
    assert forall|j: int| #[trigger] mask_contains(full_mask(count), j) == (0 <= j < count) by {
        if 0 <= j < 64 {
            lemma_bit_of_all_ones(j as u64);
            if 0 < count < 64 {
                lemma_bit_of_low_ones(count as u64, j as u64);
            }
        }
    }
}

/// The empty mask has no member.
pub proof fn lemma_empty_mask()
    ensures
        forall|j: int| !#[trigger] mask_contains(0u64, j),
{
    assert forall|j: int| !#[trigger] mask_contains(0u64, j) by {
        if 0 <= j < 64 {
            lemma_bit_of_all_ones(j as u64);
        }
    }
}

/// The mask that holds `slot` alone.
pub fn slot_bit(slot: usize) -> (bit: u64)
    requires
        slot < MAX_MATERIALS,
    ensures
        bit == 1u64 << (slot as u64),
{
    1u64 << (slot as u64)
}

/// Tests whether `slot` is a member of `mask`.
pub fn mask_has_slot(mask: u64, slot: usize) -> (present: bool)
    ensures
        present == mask_contains(mask, slot as int),
{
    slot < MAX_MATERIALS && mask & slot_bit(slot) != 0
}

/// Computes the mask of the slots `0..count`.
pub fn full_material_mask(count: usize) -> (mask: u64)
    requires
        count <= MAX_MATERIALS,
    ensures
        mask == full_mask(count as int),
{
    if count >= MAX_MATERIALS {
        u64::MAX
    } else if count == 0 {
        0
    } else {
        proof {
            lemma_bit_of_low_ones(count as u64, 0);
        }
        (1u64 << (count as u64)) - 1
    }
}

} // verus!
