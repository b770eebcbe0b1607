use dust_pipeline::{
    BuildError, BuildRequest, BuildStatus, BuildStrategy, FinalizedPipeline, HitgroupShaders,
    Invalidation, MaterialSlot, MaterialType, PipelineCreateInfo, PipelineLayout,
    PipelineLibrary, RayTracingPipelineCharacteristics, RayTracingPipelineManager, SbtHandles,
    ShaderStore, SpecializedShader,
};
use bevy_asset::HandleId;
use bevy_reflect::Uuid;
use std::sync::Arc;

const RAYGEN: u64 = 1;
const MISS: u64 = 2;
const SHARED_ANY_HIT: u64 = 900;
const UNUSED: u64 = 999;

fn asset(id: u64) -> HandleId {
    HandleId::new(Uuid::from_u128(0x5f3a_9c1e_0b7d_4e2a_8d46_17c2_a90b_33e1), id)
}

fn stage(id: u64) -> SpecializedShader {
    SpecializedShader { shader: asset(id), stage: 0, flags: 0 }
}

fn own_shader(slot: usize) -> u64 {
    100 + slot as u64
}

/// Four materials, one ray type. Each runs a closest-hit shader of its
/// own; slots 1 and 3 also run one any-hit shader in common.
fn family() -> Arc<RayTracingPipelineCharacteristics> {
    let mut materials = Vec::new();
    for slot in 0..4 {
        materials.push(MaterialSlot {
            ty: MaterialType::Triangles,
            shaders: vec![HitgroupShaders {
                closest_hit: Some(stage(own_shader(slot))),
                intersection: None,
                any_hit: if slot % 2 == 1 { Some(stage(SHARED_ANY_HIT)) } else { None },
            }],
        });
    }
    Arc::new(RayTracingPipelineCharacteristics {
        layout: PipelineLayout { handle: 4 },
        materials,
        num_raytype: 1,
        create_info: PipelineCreateInfo {
            flags: 0,
            max_pipeline_ray_recursion_depth: 1,
            max_pipeline_ray_payload_size: 16,
            max_pipeline_ray_hit_attribute_size: 8,
        },
    })
}

fn store() -> ShaderStore {
    let mut store = ShaderStore::new();
    for shader in [RAYGEN, MISS, SHARED_ANY_HIT] {
        store.insert(asset(shader));
    }
    for slot in 0..4 {
        store.insert(asset(own_shader(slot)));
    }
    store
}

fn pipeline(handle: u64, records: usize) -> FinalizedPipeline {
    FinalizedPipeline { handle, sbt_handles: SbtHandles::new(1, vec![0; records]).unwrap() }
}

/// A manager whose libraries are all ready and whose cache holds the masks
/// 0b0001 (ready), 0b0011 (pending), 0b0100 (failed), 0b0110 (ready) and
/// 0b1111 (ready). The activation mask is 0b0110.
fn warmed_up() -> RayTracingPipelineManager {
    let mut manager = RayTracingPipelineManager::new(
        family(),
        vec![0],
        stage(RAYGEN),
        vec![stage(MISS)],
        vec![],
        BuildStrategy::LibraryComposition,
    );
    let store = store();
    manager.material_instance_added(0);
    manager.get_pipeline(&store);
    manager.base_library_built(Ok(PipelineLibrary { handle: 50 }));
    for slot in 0..4 {
        manager.material_library_built(slot, Ok(PipelineLibrary { handle: 60 + slot as u64 }));
    }
    manager.get_pipeline(&store);
    manager.pipeline_built(0b0001, Ok(pipeline(1, 1)));
    manager.pipeline_built(0b1111, Ok(pipeline(15, 4)));
    manager.material_instance_added(1);
    manager.get_pipeline(&store);
    manager.material_instance_removed(0);
    manager.material_instance_removed(1);
    manager.material_instance_added(2);
    manager.get_pipeline(&store);
    manager.pipeline_built(0b0100, Err(BuildError::Device(-4)));
    manager.material_instance_added(1);
    manager.get_pipeline(&store);
    manager.pipeline_built(0b0110, Ok(pipeline(6, 2)));
    assert_eq!(manager.pipeline_status(0b0001), BuildStatus::Ready);
    assert_eq!(manager.pipeline_status(0b0011), BuildStatus::Pending);
    assert_eq!(manager.pipeline_status(0b0100), BuildStatus::Failed);
    assert_eq!(manager.pipeline_status(0b0110), BuildStatus::Ready);
    assert_eq!(manager.pipeline_status(0b1111), BuildStatus::Ready);
    assert_eq!(manager.activation_mask(), 0b0110);
    manager
}

#[test]
fn material_shader_change_drops_the_masks_of_its_slot() {
    let mut manager = warmed_up();
    let dropped = manager.shader_updated(asset(own_shader(2)));
    assert_eq!(
        dropped,
        Invalidation {
            base_library: false,
            material_libraries: vec![2],
            pipelines: vec![0b0100, 0b0110, 0b1111],
        }
    );
    assert_eq!(manager.pipeline_status(0b0100), BuildStatus::Absent);
    assert_eq!(manager.pipeline_status(0b0110), BuildStatus::Absent);
    assert_eq!(manager.pipeline_status(0b1111), BuildStatus::Absent);
    // Masks without slot 2 keep their entries and their status.
    assert_eq!(manager.pipeline_status(0b0001), BuildStatus::Ready);
    assert_eq!(manager.pipeline_status(0b0011), BuildStatus::Pending);
    assert_eq!(manager.material_library_status(2), BuildStatus::Absent);
    for slot in [0, 1, 3] {
        assert_eq!(manager.material_library_status(slot), BuildStatus::Ready);
    }
    assert_eq!(manager.base_library_status(), BuildStatus::Ready);
    assert_eq!(manager.activation_mask(), 0b0110);
    assert_eq!(manager.instance_count(2), 1);
}

#[test]
fn pending_entry_that_stays_can_still_complete() {
    let mut manager = warmed_up();
    manager.shader_updated(asset(own_shader(2)));
    assert!(manager.pipeline_built(0b0011, Ok(pipeline(3, 2))));
    assert_eq!(manager.pipeline_status(0b0011), BuildStatus::Ready);
    // The build of a dropped entry ends too late to count.
    assert!(!manager.pipeline_built(0b0110, Ok(pipeline(6, 2))));
    assert_eq!(manager.pipeline_status(0b0110), BuildStatus::Absent);
}

#[test]
fn shader_of_two_materials_drops_both() {
    let mut manager = warmed_up();
    let dropped = manager.shader_updated(asset(SHARED_ANY_HIT));
    assert_eq!(
        dropped,
        Invalidation {
            base_library: false,
            material_libraries: vec![1, 3],
            pipelines: vec![0b0011, 0b0110, 0b1111],
        }
    );
    assert_eq!(manager.pipeline_status(0b0001), BuildStatus::Ready);
    assert_eq!(manager.pipeline_status(0b0100), BuildStatus::Failed);
    assert_eq!(manager.material_library_status(0), BuildStatus::Ready);
    assert_eq!(manager.material_library_status(1), BuildStatus::Absent);
    assert_eq!(manager.material_library_status(2), BuildStatus::Ready);
    assert_eq!(manager.material_library_status(3), BuildStatus::Absent);
}

#[test]
fn unused_shader_changes_nothing() {
    let mut manager = warmed_up();
    let dropped = manager.shader_updated(asset(UNUSED));
    assert_eq!(
        dropped,
        Invalidation { base_library: false, material_libraries: vec![], pipelines: vec![] }
    );
    assert_eq!(manager.pipeline_status(0b0110), BuildStatus::Ready);
    assert_eq!(manager.pipeline_status(0b1111), BuildStatus::Ready);
    assert_eq!(manager.base_library_status(), BuildStatus::Ready);
    let (requests, chosen) = manager.get_pipeline(&store());
    assert!(requests.is_empty());
    assert_eq!(chosen.unwrap().pipeline().handle, 6);
}

#[test]
fn miss_shader_change_clears_everything_but_material_libraries() {
    let mut manager = warmed_up();
    let dropped = manager.shader_updated(asset(MISS));
    assert_eq!(
        dropped,
        Invalidation {
            base_library: true,
            material_libraries: vec![],
            pipelines: vec![0b0001, 0b0011, 0b0100, 0b0110, 0b1111],
        }
    );
    for mask in [0b0001, 0b0011, 0b0100, 0b0110, 0b1111] {
        assert_eq!(manager.pipeline_status(mask), BuildStatus::Absent);
    }
    assert_eq!(manager.base_library_status(), BuildStatus::Absent);
    for slot in 0..4 {
        assert_eq!(manager.material_library_status(slot), BuildStatus::Ready);
    }
}

#[test]
fn invalidated_parts_are_rebuilt_on_the_next_query() {
    let mut manager = warmed_up();
    manager.shader_updated(asset(own_shader(2)));
    let (requests, chosen) = manager.get_pipeline(&store());
    assert_eq!(requests, vec![BuildRequest::MaterialLibrary { slot: 2 }]);
    assert!(chosen.is_none());
    manager.material_library_built(2, Ok(PipelineLibrary { handle: 70 }));
    let (requests, _) = manager.get_pipeline(&store());
    assert_eq!(
        requests,
        vec![
            BuildRequest::LinkPipeline {
                mask: 0b0110,
                libraries: vec![
                    PipelineLibrary { handle: 50 },
                    PipelineLibrary { handle: 61 },
                    PipelineLibrary { handle: 70 },
                ],
            },
            BuildRequest::LinkPipeline {
                mask: 0b1111,
                libraries: vec![
                    PipelineLibrary { handle: 50 },
                    PipelineLibrary { handle: 60 },
                    PipelineLibrary { handle: 61 },
                    PipelineLibrary { handle: 70 },
                    PipelineLibrary { handle: 63 },
                ],
            },
        ]
    );
}

#[test]
fn invalidation_of_an_empty_manager_drops_nothing() {
    let mut manager = RayTracingPipelineManager::new(
        family(),
        vec![0],
        stage(RAYGEN),
        vec![stage(MISS)],
        vec![],
        BuildStrategy::LibraryComposition,
    );
    for shader in [RAYGEN, own_shader(0), SHARED_ANY_HIT] {
        let dropped = manager.shader_updated(asset(shader));
        assert_eq!(
            dropped,
            Invalidation { base_library: false, material_libraries: vec![], pipelines: vec![] }
        );
    }
}
