//! Where the hitgroups of each material lie in a specialized pipeline.
//!
//! A pipeline built for a mask holds, for every member slot in ascending
//! order, one hitgroup per ray type. The mapping gives each member slot the
//! index of its first hitgroup.

use crate::mask::{active_below, mask_contains, mask_has_slot, MAX_MATERIALS};
use std::collections::BTreeMap;
use vstd::prelude::*;

verus! {

broadcast use {vstd::std_specs::btree::group_btree_axioms, vstd::laws_cmp::group_laws_cmp};

/// The index of the first hitgroup of `slot` in a pipeline built for `mask`
/// with `raytypes` ray types.
pub open spec fn hitgroup_base(mask: u64, slot: int, raytypes: nat) -> nat {
    raytypes * active_below(mask, slot)
}

/// The number of hitgroups of a pipeline built for `mask`, of `materials`
/// materials and `raytypes` ray types.
pub open spec fn hitgroup_span(mask: u64, materials: nat, raytypes: nat) -> nat {
    raytypes * active_below(mask, materials as int)
}

/// The mapping of a pipeline built for `mask`: its keys are the members of
/// `mask` below `materials`.
pub open spec fn hitgroup_mapping(mask: u64, materials: nat, raytypes: nat) -> Map<u32, u32> {
    Map::new(
        |slot: u32| slot < materials && mask_contains(mask, slot as int),
        |slot: u32| hitgroup_base(mask, slot as int, raytypes) as u32,
    )
}

/// The member slots of `mask` below `upto`, in ascending order.
pub open spec fn active_slots(mask: u64, upto: int) -> Seq<usize>
    decreases upto,
{
    if upto <= 0 {
        Seq::empty()
    } else if mask_contains(mask, upto - 1) {
        active_slots(mask, upto - 1).push((upto - 1) as usize)
    } else {
        active_slots(mask, upto - 1)
    }
}

/// No more slots are active below `slot` than there are slots, and the
/// count grows with `slot`.
pub proof fn lemma_active_below_bounds(mask: u64, lower: int, upper: int)
    requires
        0 <= lower <= upper,
    ensures
        active_below(mask, lower) <= lower,
        active_below(mask, lower) <= active_below(mask, upper),
        active_below(mask, upper) - active_below(mask, lower) <= upper - lower,
    decreases upper,
{
    if lower < upper {
        lemma_active_below_bounds(mask, lower, upper - 1);
    } else {
        lemma_active_below_from_zero(mask, lower);
    }
}

proof fn lemma_active_below_from_zero(mask: u64, slot: int)
    requires
        0 <= slot,
    ensures
        active_below(mask, slot) <= slot,
    decreases slot,
{
    if slot > 0 {
        lemma_active_below_from_zero(mask, slot - 1);
    }
}

/// Where no slot from `lower` up to `upper` is a member, the count stays.
pub proof fn lemma_active_below_gap(mask: u64, lower: int, upper: int)
    requires
        0 <= lower <= upper,
        forall|s: int| lower <= s < upper ==> !mask_contains(mask, s),
    ensures
        active_below(mask, upper) == active_below(mask, lower),
    decreases upper,
{
    if lower < upper {
        lemma_active_below_gap(mask, lower, upper - 1);
    }
}

/// The ranges of two member slots come in the order of the slots, each as
/// wide as there are ray types, and do not overlap.
pub proof fn lemma_hitgroup_ranges_ordered(mask: u64, raytypes: nat, first: int, second: int)
    requires
        0 <= first < second,
        mask_contains(mask, first),
    ensures
        hitgroup_base(mask, first, raytypes) + raytypes <= hitgroup_base(mask, second, raytypes),
{
    lemma_active_below_bounds(mask, first + 1, second);
    let a = active_below(mask, first);
    let b = active_below(mask, second);
    assert(a + 1 <= b);
    assert(raytypes * a + raytypes <= raytypes * b) by (nonlinear_arith)
        requires
            a + 1 <= b,
    ;
}

/// The range of a member slot begins where the range of the member before
/// it ends; the range of the least member begins at 0.
pub proof fn lemma_hitgroup_ranges_contiguous(mask: u64, raytypes: nat, first: int, second: int)
    requires
        0 <= first < second,
        mask_contains(mask, first),
        forall|s: int| first < s < second ==> !mask_contains(mask, s),
    ensures
        hitgroup_base(mask, second, raytypes) == hitgroup_base(mask, first, raytypes) + raytypes,
{
    lemma_active_below_gap(mask, first + 1, second);
    let a = active_below(mask, first);
    assert(raytypes * (a + 1) == raytypes * a + raytypes) by (nonlinear_arith);
}

/// The range of the least member begins at 0.
pub proof fn lemma_hitgroup_ranges_start(mask: u64, raytypes: nat, least: int)
    requires
        0 <= least,
        forall|s: int| 0 <= s < least ==> !mask_contains(mask, s),
    ensures
        hitgroup_base(mask, least, raytypes) == 0,
{
    lemma_active_below_gap(mask, 0, least);
    assert(raytypes * 0 == 0) by (nonlinear_arith);
}

/// The range of every member slot lies within the pipeline's hitgroups.
pub proof fn lemma_hitgroup_range_within_span(mask: u64, materials: nat, raytypes: nat, slot: int)
    requires
        0 <= slot < materials,
        mask_contains(mask, slot),
    ensures
        hitgroup_base(mask, slot, raytypes) + raytypes <= hitgroup_span(mask, materials, raytypes),
        hitgroup_span(mask, materials, raytypes) <= raytypes * materials,
{
    lemma_active_below_bounds(mask, slot + 1, materials as int);
    let a = active_below(mask, slot);
    let b = active_below(mask, materials as int);
    assert(raytypes * a + raytypes <= raytypes * b) by (nonlinear_arith)
        requires
            a + 1 <= b,
    ;
    assert(raytypes * b <= raytypes * materials) by (nonlinear_arith)
        requires
            b <= materials,
    ;
}

/// Every value of the mapping fits in 32 bits when 64 slots of `raytypes`
/// hitgroups do.
pub proof fn lemma_hitgroup_base_bound(mask: u64, raytypes: nat, slot: int)
    requires
        0 <= slot <= MAX_MATERIALS,
    ensures
        hitgroup_base(mask, slot, raytypes) <= raytypes * slot,
        hitgroup_base(mask, slot, raytypes) <= raytypes * MAX_MATERIALS,
{
    lemma_active_below_bounds(mask, slot, slot);
    let a = active_below(mask, slot);
    assert(raytypes * a <= raytypes * slot && raytypes * slot <= raytypes * 64)
        by (nonlinear_arith)
        requires
            0 <= a <= slot <= 64,
    ;
}

/// Computes the mapping of a pipeline built for `mask`.
pub fn build_hitgroup_mapping(mask: u64, materials: usize, raytypes: usize) -> (mapping: BTreeMap<
    u32,
    u32,
>)
    requires
        materials <= MAX_MATERIALS,
        raytypes * MAX_MATERIALS <= u32::MAX,
    ensures
        mapping@ == hitgroup_mapping(mask, materials as nat, raytypes as nat),
{
    let mut mapping: BTreeMap<u32, u32> = BTreeMap::new();
    let mut current_hitgroup: u32 = 0;
    let mut slot: usize = 0;
    proof {
        assert(raytypes * 0 == 0) by (nonlinear_arith);
        assert(mapping@ =~= hitgroup_mapping(mask, 0, raytypes as nat));
    }
    while slot < materials
        invariant
            slot <= materials <= MAX_MATERIALS,
            raytypes * MAX_MATERIALS <= u32::MAX,
            current_hitgroup == hitgroup_base(mask, slot as int, raytypes as nat),
            mapping@ == hitgroup_mapping(mask, slot as nat, raytypes as nat),
        decreases materials - slot,
    {
        proof {
            lemma_hitgroup_base_bound(mask, raytypes as nat, slot as int + 1);
            let a = active_below(mask, slot as int);
            assert(raytypes * (a + 1) == raytypes * a + raytypes) by (nonlinear_arith);
        }
        if mask_has_slot(mask, slot) {
            mapping.insert(slot as u32, current_hitgroup);
            current_hitgroup = current_hitgroup + raytypes as u32;
        }
        slot += 1;
        assert(mapping@ =~= hitgroup_mapping(mask, slot as nat, raytypes as nat));
    }
    mapping
}

/// Counts the members of `mask` below `materials`.
pub fn active_slot_count(mask: u64, materials: usize) -> (count: usize)
    requires
        materials <= MAX_MATERIALS,
    ensures
        count == active_below(mask, materials as int),
        count <= materials,
{
    let mut count: usize = 0;
    let mut slot: usize = 0;
    while slot < materials
        invariant
            slot <= materials <= MAX_MATERIALS,
            count == active_below(mask, slot as int),
            count <= slot,
        decreases materials - slot,
    {
        if mask_has_slot(mask, slot) {
            count += 1;
        }
        slot += 1;
    }
    count
}

} // verus!
