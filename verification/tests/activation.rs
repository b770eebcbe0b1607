use dust_pipeline::{
    config_is_valid, ActivationError, BuildStrategy, HitgroupShaders, MaterialSlot, MaterialType,
    PipelineCreateInfo, PipelineLayout, RayTracingPipelineCharacteristics,
    RayTracingPipelineManager, SpecializedShader,
};
use bevy_asset::HandleId;
use bevy_reflect::Uuid;
use std::sync::Arc;

fn asset(id: u64) -> HandleId {
    HandleId::new(Uuid::from_u128(0x5f3a_9c1e_0b7d_4e2a_8d46_17c2_a90b_33e1), id)
}

fn no_shaders() -> HitgroupShaders {
    HitgroupShaders { closest_hit: None, intersection: None, any_hit: None }
}

fn family(materials: usize, raytypes: u32) -> RayTracingPipelineCharacteristics {
    let mut slots = Vec::new();
    for _ in 0..materials {
        slots.push(MaterialSlot {
            ty: MaterialType::Triangles,
            shaders: (0..raytypes).map(|_| no_shaders()).collect(),
        });
    }
    RayTracingPipelineCharacteristics {
        layout: PipelineLayout { handle: 1 },
        materials: slots,
        num_raytype: raytypes,
        create_info: PipelineCreateInfo {
            flags: 0,
            max_pipeline_ray_recursion_depth: 1,
            max_pipeline_ray_payload_size: 16,
            max_pipeline_ray_hit_attribute_size: 8,
        },
    }
}

fn manager(materials: usize) -> RayTracingPipelineManager {
    RayTracingPipelineManager::new(
        Arc::new(family(materials, 1)),
        vec![0],
        SpecializedShader { shader: asset(1), stage: 0, flags: 0 },
        vec![],
        vec![],
        BuildStrategy::LibraryComposition,
    )
}

#[test]
fn new_manager_has_no_active_material() {
    let manager = manager(5);
    assert_eq!(manager.material_count(), 5);
    assert_eq!(manager.activation_mask(), 0);
    assert_eq!(manager.full_material_mask(), 0b11111);
    for slot in 0..5 {
        assert_eq!(manager.instance_count(slot), 0);
    }
}

#[test]
fn mask_bit_follows_instance_count() {
    let mut manager = manager(4);
    // Additions and removals in some order; `counts` is kept by hand.
    let ops: [(bool, usize); 12] = [
        (true, 2),
        (true, 0),
        (true, 2),
        (false, 2),
        (true, 3),
        (false, 0),
        (false, 2),
        (true, 1),
        (true, 1),
        (false, 3),
        (false, 1),
        (true, 0),
    ];
    let mut counts = [0usize; 4];
    for (add, slot) in ops {
        if add {
            manager.material_instance_added(slot);
            counts[slot] += 1;
        } else {
            manager.material_instance_removed(slot);
            counts[slot] -= 1;
        }
        for probe in 0..4 {
            assert_eq!(manager.instance_count(probe), counts[probe]);
            assert_eq!(manager.activation_mask() & (1 << probe) != 0, counts[probe] > 0);
        }
    }
    assert_eq!(manager.activation_mask(), 0b0011);
}

#[test]
fn second_instance_leaves_the_mask_alone() {
    let mut manager = manager(3);
    manager.material_instance_added(2);
    assert_eq!(manager.activation_mask(), 0b100);
    manager.material_instance_added(2);
    assert_eq!(manager.activation_mask(), 0b100);
    assert_eq!(manager.instance_count(2), 2);
    manager.material_instance_removed(2);
    assert_eq!(manager.activation_mask(), 0b100);
    manager.material_instance_removed(2);
    assert_eq!(manager.activation_mask(), 0);
}

#[test]
fn checked_activation_reports_each_error() {
    let mut manager = manager(2);
    assert_eq!(manager.try_material_instance_added(2), Err(ActivationError::UnknownMaterial));
    assert_eq!(manager.try_material_instance_removed(7), Err(ActivationError::UnknownMaterial));
    assert_eq!(manager.try_material_instance_removed(1), Err(ActivationError::NoLiveInstance));
    assert_eq!(manager.activation_mask(), 0);
    assert_eq!(manager.try_material_instance_added(1), Ok(()));
    assert_eq!(manager.activation_mask(), 0b10);
    assert_eq!(manager.try_material_instance_removed(1), Ok(()));
    assert_eq!(manager.activation_mask(), 0);
}

#[test]
fn sixty_four_materials_fill_the_mask() {
    let mut manager = manager(64);
    assert_eq!(manager.full_material_mask(), u64::MAX);
    manager.material_instance_added(63);
    assert_eq!(manager.activation_mask(), 1 << 63);
    manager.material_instance_added(0);
    assert_eq!(manager.activation_mask(), (1 << 63) | 1);
    manager.material_instance_removed(63);
    assert_eq!(manager.activation_mask(), 1);
}

#[test]
fn family_without_materials_has_empty_full_mask() {
    let manager = manager(0);
    assert_eq!(manager.full_material_mask(), 0);
    assert_eq!(manager.activation_mask(), 0);
}

#[test]
fn configuration_is_checked() {
    assert!(config_is_valid(&family(64, 2), &vec![0, 1]));
    assert!(config_is_valid(&family(3, 2), &vec![1]));
    assert!(config_is_valid(&family(3, 2), &vec![1, 1, 0]));
    // Too many materials for a 64-bit mask.
    assert!(!config_is_valid(&family(65, 1), &vec![0]));
    // A ray type for which the materials have no hitgroup.
    assert!(!config_is_valid(&family(3, 2), &vec![0, 2]));
    // A material with a hitgroup missing.
    let mut short = family(3, 2);
    short.materials[1].shaders.pop();
    assert!(!short.is_well_formed());
    assert!(!config_is_valid(&short, &vec![0]));
}
