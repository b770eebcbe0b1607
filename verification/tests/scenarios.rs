use dust_pipeline::{
    BuildRequest, BuildStatus, BuildStrategy, FinalizedPipeline, HitgroupShaders, MaterialSlot,
    MaterialType, PipelineCreateInfo, PipelineLayout, PipelineLibrary,
    RayTracingPipelineCharacteristics, RayTracingPipelineManager, SbtHandles, ShaderStore,
    SpecializedShader, ActivationError,
};
use bevy_asset::HandleId;
use bevy_reflect::Uuid;
use std::collections::BTreeMap;
use std::sync::Arc;

const RAYGEN: u64 = 1;
const MISS: u64 = 2;

fn asset(id: u64) -> HandleId {
    HandleId::new(Uuid::from_u128(0x5f3a_9c1e_0b7d_4e2a_8d46_17c2_a90b_33e1), id)
}

fn shader(id: u64) -> SpecializedShader {
    SpecializedShader { shader: asset(id), stage: 0, flags: 0 }
}

fn hit_shader(slot: usize, raytype: u32) -> u64 {
    100 + 10 * slot as u64 + raytype as u64
}

fn family(materials: usize, raytypes: u32) -> Arc<RayTracingPipelineCharacteristics> {
    let mut slots = Vec::new();
    for slot in 0..materials {
        let mut shaders = Vec::new();
        for raytype in 0..raytypes {
            shaders.push(HitgroupShaders {
                closest_hit: Some(shader(hit_shader(slot, raytype))),
                intersection: None,
                any_hit: None,
            });
        }
        slots.push(MaterialSlot { ty: MaterialType::Procedural, shaders });
    }
    Arc::new(RayTracingPipelineCharacteristics {
        layout: PipelineLayout { handle: 9 },
        materials: slots,
        num_raytype: raytypes,
        create_info: PipelineCreateInfo {
            flags: 0,
            max_pipeline_ray_recursion_depth: 1,
            max_pipeline_ray_payload_size: 32,
            max_pipeline_ray_hit_attribute_size: 8,
        },
    })
}

fn manager(materials: usize, raytypes: u32) -> RayTracingPipelineManager {
    RayTracingPipelineManager::new(
        family(materials, raytypes),
        (0..raytypes).collect(),
        shader(RAYGEN),
        vec![shader(MISS)],
        vec![],
        BuildStrategy::LibraryComposition,
    )
}

fn everything_loaded(materials: usize, raytypes: u32) -> ShaderStore {
    let mut store = ShaderStore::new();
    store.insert(asset(RAYGEN));
    store.insert(asset(MISS));
    for slot in 0..materials {
        for raytype in 0..raytypes {
            store.insert(asset(hit_shader(slot, raytype)));
        }
    }
    store
}

/// A pipeline whose handle table holds `records` records of four bytes;
/// every byte of record `i` is `i`.
fn pipeline(handle: u64, records: usize) -> FinalizedPipeline {
    let mut data = Vec::new();
    for record in 0..records {
        data.extend_from_slice(&[record as u8; 4]);
    }
    FinalizedPipeline { handle, sbt_handles: SbtHandles::new(4, data).unwrap() }
}

fn library(handle: u64) -> PipelineLibrary {
    PipelineLibrary { handle }
}

#[test]
fn scenario_exact_pipeline_is_built_then_served() {
    let mut manager = manager(3, 2);
    let store = everything_loaded(3, 2);
    manager.material_instance_added(1);
    assert_eq!(manager.activation_mask(), 0b010);

    let (requests, chosen) = manager.get_pipeline(&store);
    assert!(chosen.is_none());
    assert_eq!(
        requests,
        vec![
            BuildRequest::BaseLibrary,
            BuildRequest::MaterialLibrary { slot: 1 },
            BuildRequest::MaterialLibrary { slot: 0 },
            BuildRequest::MaterialLibrary { slot: 2 },
        ]
    );
    assert_eq!(manager.pipeline_status(0b010), BuildStatus::Absent);

    assert!(manager.base_library_built(Ok(library(10))));
    assert!(manager.material_library_built(1, Ok(library(11))));
    let (requests, chosen) = manager.get_pipeline(&store);
    assert!(chosen.is_none());
    assert_eq!(
        requests,
        vec![BuildRequest::LinkPipeline { mask: 0b010, libraries: vec![library(10), library(11)] }]
    );
    assert_eq!(manager.pipeline_status(0b010), BuildStatus::Pending);

    let (requests, chosen) = manager.get_pipeline(&store);
    assert!(requests.is_empty());
    assert!(chosen.is_none());

    assert!(manager.pipeline_built(0b010, Ok(pipeline(77, 2))));
    let (requests, chosen) = manager.get_pipeline(&store);
    assert!(requests.is_empty());
    let chosen = chosen.unwrap();
    assert_eq!(chosen.pipeline().handle, 77);
    assert!(!chosen.fallback);
    assert_eq!(chosen.layout(), PipelineLayout { handle: 9 });
    let expected: BTreeMap<u32, u32> = [(1, 0)].into_iter().collect();
    assert_eq!(*chosen.hitgroup_mapping, expected);
}

#[test]
fn scenario_full_mask_pipeline_serves_as_fallback() {
    let mut manager = manager(3, 2);
    let store = everything_loaded(3, 2);
    manager.material_instance_added(1);
    manager.get_pipeline(&store);
    manager.base_library_built(Ok(library(10)));
    manager.material_library_built(0, Ok(library(20)));
    manager.material_library_built(1, Ok(library(21)));
    manager.material_library_built(2, Ok(library(22)));

    let (requests, chosen) = manager.get_pipeline(&store);
    assert!(chosen.is_none());
    assert_eq!(
        requests,
        vec![
            BuildRequest::LinkPipeline {
                mask: 0b010,
                libraries: vec![library(10), library(21)],
            },
            BuildRequest::LinkPipeline {
                mask: 0b111,
                libraries: vec![library(10), library(20), library(21), library(22)],
            },
        ]
    );

    assert!(manager.pipeline_built(0b111, Ok(pipeline(88, 6))));
    let (requests, chosen) = manager.get_pipeline(&store);
    assert!(requests.is_empty());
    let chosen = chosen.unwrap();
    assert!(chosen.fallback);
    assert_eq!(chosen.pipeline().handle, 88);
    let expected: BTreeMap<u32, u32> = [(0, 0), (1, 2), (2, 4)].into_iter().collect();
    assert_eq!(*chosen.hitgroup_mapping, expected);
    assert_eq!(chosen.get_sbt_handle_for_material(1, 0), &[2u8; 4][..]);
    assert_eq!(chosen.get_sbt_handle_for_material(1, 1), &[3u8; 4][..]);

    assert!(manager.pipeline_built(0b010, Ok(pipeline(77, 2))));
    let (_, chosen) = manager.get_pipeline(&store);
    let chosen = chosen.unwrap();
    assert!(!chosen.fallback);
    assert_eq!(chosen.pipeline().handle, 77);
    assert_eq!(chosen.get_sbt_handle_for_material(1, 1), &[1u8; 4][..]);
}

#[test]
fn scenario_second_removal_is_refused() {
    let mut manager = manager(3, 2);
    manager.material_instance_added(0);
    assert_eq!(manager.instance_count(0), 1);
    assert_eq!(manager.activation_mask(), 0b001);
    assert_eq!(manager.try_material_instance_removed(0), Ok(()));
    assert_eq!(manager.instance_count(0), 0);
    assert_eq!(manager.activation_mask(), 0);
    assert_eq!(manager.try_material_instance_removed(0), Err(ActivationError::NoLiveInstance));
    assert_eq!(manager.instance_count(0), 0);
    assert_eq!(manager.activation_mask(), 0);
}

#[test]
fn scenario_base_shader_change_clears_the_cache() {
    let mut manager = manager(3, 2);
    let store = everything_loaded(3, 2);
    manager.material_instance_added(1);
    manager.get_pipeline(&store);
    manager.base_library_built(Ok(library(10)));
    for slot in 0..3 {
        manager.material_library_built(slot, Ok(library(20 + slot as u64)));
    }
    manager.get_pipeline(&store);
    manager.pipeline_built(0b010, Ok(pipeline(77, 2)));
    manager.pipeline_built(0b111, Ok(pipeline(88, 6)));
    assert_eq!(manager.pipeline_status(0b010), BuildStatus::Ready);
    assert_eq!(manager.pipeline_status(0b111), BuildStatus::Ready);

    let dropped = manager.shader_updated(asset(RAYGEN));
    assert!(dropped.base_library);
    assert!(dropped.material_libraries.is_empty());
    assert_eq!(dropped.pipelines, vec![0b010, 0b111]);
    assert_eq!(manager.base_library_status(), BuildStatus::Absent);
    assert_eq!(manager.pipeline_status(0b010), BuildStatus::Absent);
    assert_eq!(manager.pipeline_status(0b111), BuildStatus::Absent);
    for slot in 0..3 {
        assert_eq!(manager.material_library_status(slot), BuildStatus::Ready);
    }
    assert_eq!(manager.activation_mask(), 0b010);

    let (requests, chosen) = manager.get_pipeline(&store);
    assert!(chosen.is_none());
    assert_eq!(requests, vec![BuildRequest::BaseLibrary]);
}
