use dust_pipeline::hitgroup::{active_slot_count, build_hitgroup_mapping};
use dust_pipeline::mask::{full_material_mask, mask_has_slot, slot_bit};
use dust_pipeline::{FinalizedPipeline, SbtHandles};
use std::collections::BTreeMap;

fn mapping(pairs: &[(u32, u32)]) -> BTreeMap<u32, u32> {
    pairs.iter().copied().collect()
}

#[test]
fn mapping_of_full_mask_steps_by_raytype_count() {
    assert_eq!(build_hitgroup_mapping(0b111, 3, 2), mapping(&[(0, 0), (1, 2), (2, 4)]));
}

#[test]
fn mapping_skips_inactive_slots() {
    assert_eq!(build_hitgroup_mapping(0b010, 3, 2), mapping(&[(1, 0)]));
    assert_eq!(build_hitgroup_mapping(0b101, 3, 2), mapping(&[(0, 0), (2, 2)]));
    assert_eq!(build_hitgroup_mapping(0b1101, 4, 3), mapping(&[(0, 0), (2, 3), (3, 6)]));
}

#[test]
fn mapping_ignores_bits_beyond_the_materials() {
    assert_eq!(build_hitgroup_mapping(0b1110, 3, 1), mapping(&[(1, 0), (2, 1)]));
}

#[test]
fn mapping_of_empty_mask_is_empty() {
    assert_eq!(build_hitgroup_mapping(0, 3, 2), mapping(&[]));
    assert_eq!(build_hitgroup_mapping(0b111, 0, 2), mapping(&[]));
}

#[test]
fn mapping_ranges_are_contiguous_and_ordered() {
    let raytypes = 5usize;
    for mask in [0u64, 1, 0b1010_1010, 0xffff, 0x8000_0000_0000_0001, u64::MAX] {
        let built = build_hitgroup_mapping(mask, 64, raytypes);
        assert_eq!(built.len(), mask.count_ones() as usize);
        let mut next = 0u32;
        let mut last_slot = None;
        for (slot, base) in &built {
            assert!(mask_has_slot(mask, *slot as usize));
            assert!(last_slot.map_or(true, |last| last < *slot));
            assert_eq!(*base, next);
            next += raytypes as u32;
            last_slot = Some(*slot);
        }
        assert_eq!(next as usize, raytypes * active_slot_count(mask, 64));
    }
}

#[test]
fn mapping_with_most_raytypes_fits() {
    let raytypes = (u32::MAX / 64) as usize;
    let built = build_hitgroup_mapping(u64::MAX, 64, raytypes);
    assert_eq!(built[&63], 63 * raytypes as u32);
}

#[test]
fn masks_are_sets_of_slots() {
    assert_eq!(slot_bit(0), 1);
    assert_eq!(slot_bit(63), 1 << 63);
    assert!(mask_has_slot(0b100, 2));
    assert!(!mask_has_slot(0b100, 1));
    assert!(!mask_has_slot(u64::MAX, 64));
    assert_eq!(full_material_mask(0), 0);
    assert_eq!(full_material_mask(3), 0b111);
    assert_eq!(full_material_mask(63), u64::MAX >> 1);
    assert_eq!(full_material_mask(64), u64::MAX);
    assert_eq!(active_slot_count(0b1011, 4), 3);
    assert_eq!(active_slot_count(0b1011, 2), 2);
    assert_eq!(active_slot_count(u64::MAX, 64), 64);
}

#[test]
fn handle_table_is_cut_into_records() {
    let table = SbtHandles::new(3, vec![1, 2, 3, 4, 5, 6, 7, 8, 9]).unwrap();
    assert_eq!(table.handle_size(), 3);
    assert_eq!(table.hitgroup_count(), 3);
    assert_eq!(table.hitgroup(0), &[1, 2, 3][..]);
    assert_eq!(table.hitgroup(1), &[4, 5, 6][..]);
    assert_eq!(table.hitgroup(2), &[7, 8, 9][..]);
}

#[test]
fn handle_table_needs_whole_records() {
    assert!(SbtHandles::new(0, vec![]).is_none());
    assert!(SbtHandles::new(0, vec![1, 2]).is_none());
    assert!(SbtHandles::new(4, vec![1, 2, 3]).is_none());
    assert!(SbtHandles::new(4, vec![1, 2, 3, 4, 5]).is_none());
    let empty = SbtHandles::new(4, vec![]).unwrap();
    assert_eq!(empty.hitgroup_count(), 0);
    let pipeline = FinalizedPipeline { handle: 5, sbt_handles: empty };
    assert_eq!(pipeline.sbt_handles.handle_size(), 4);
}
