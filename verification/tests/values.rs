use bevy_asset::{AssetPath, HandleId};
use bevy_reflect::Uuid;
use dust_pipeline::{
    BuildError, DeferredValue, HitgroupShaders, MaterialSlot, MaterialType,
    PaletteMaterialShaderParams, ShaderStore, SpecializedShader,
};

fn asset(id: u64) -> HandleId {
    HandleId::new(Uuid::from_u128(0x5f3a_9c1e_0b7d_4e2a_8d46_17c2_a90b_33e1), id)
}

fn stage(id: u64) -> SpecializedShader {
    SpecializedShader { shader: asset(id), stage: 0, flags: 0 }
}

#[test]
fn deferred_value_resolves_once() {
    let mut value: DeferredValue<u32> = DeferredValue::Pending;
    assert!(value.is_pending());
    assert!(!value.is_done());
    assert_eq!(value.try_get(), None);
    assert!(value.resolve(Ok(7)));
    assert!(value.is_done());
    assert!(!value.is_pending());
    assert_eq!(value.try_get(), Some(&7));
    assert!(!value.resolve(Ok(8)));
    assert!(!value.resolve(Err(BuildError::Device(-1))));
    assert_eq!(value.try_get(), Some(&7));
}

#[test]
fn deferred_value_keeps_its_error() {
    let mut value: DeferredValue<u32> = DeferredValue::Pending;
    assert!(value.resolve(Err(BuildError::Device(-1000))));
    assert!(!value.is_done());
    assert!(!value.is_pending());
    assert_eq!(value.try_get(), None);
    assert!(!value.resolve(Ok(1)));
    assert!(matches!(value, DeferredValue::Failed(BuildError::Device(-1000))));
}

#[test]
fn shader_store_tracks_loaded_assets() {
    let mut store = ShaderStore::new();
    assert!(!store.contains(asset(5)));
    assert!(store.insert(asset(5)));
    assert!(!store.insert(asset(5)));
    assert!(store.contains(asset(5)));
    assert!(store.contains_all(&vec![stage(5), stage(5)]));
    assert!(!store.contains_all(&vec![stage(5), stage(6)]));
    assert!(store.contains_all(&vec![]));
    assert!(store.remove(asset(5)));
    assert!(!store.remove(asset(5)));
    assert!(!store.contains(asset(5)));
}

#[test]
fn hitgroup_knows_its_shaders() {
    let hitgroup = HitgroupShaders {
        closest_hit: Some(stage(1)),
        intersection: None,
        any_hit: Some(stage(3)),
    };
    assert!(hitgroup.uses_shader(asset(1)));
    assert!(hitgroup.uses_shader(asset(3)));
    assert!(!hitgroup.uses_shader(asset(2)));
    let mut store = ShaderStore::new();
    assert!(!hitgroup.is_loaded(&store));
    store.insert(asset(1));
    assert!(!hitgroup.is_loaded(&store));
    store.insert(asset(3));
    assert!(hitgroup.is_loaded(&store));
    let none = HitgroupShaders { closest_hit: None, intersection: None, any_hit: None };
    assert!(none.is_loaded(&ShaderStore::new()));
    assert!(!none.uses_shader(asset(0)));
}

#[test]
fn material_knows_its_shaders() {
    let material = MaterialSlot {
        ty: MaterialType::Procedural,
        shaders: vec![
            HitgroupShaders { closest_hit: Some(stage(1)), intersection: Some(stage(9)), any_hit: None },
            HitgroupShaders { closest_hit: Some(stage(2)), intersection: Some(stage(9)), any_hit: None },
        ],
    };
    assert!(material.uses_shader(asset(2)));
    assert!(material.uses_shader(asset(9)));
    assert!(!material.uses_shader(asset(3)));
    let mut store = ShaderStore::new();
    store.insert(asset(1));
    store.insert(asset(9));
    assert!(material.is_loaded(&vec![0], &store));
    assert!(!material.is_loaded(&vec![0, 1], &store));
    assert!(!material.is_loaded(&vec![1], &store));
    assert!(material.is_loaded(&vec![], &store));
}

#[test]
fn palette_parameters_are_zero_for_every_ray_type() {
    for ray_type in [0, 1, 7, u32::MAX] {
        assert_eq!(
            PaletteMaterialShaderParams::parameters(ray_type),
            PaletteMaterialShaderParams { geometry_ptr: 0, material_ptr: 0, palette_ptr: 0 }
        );
    }
}

#[test]
fn assets_are_told_apart_by_every_part_of_their_identity() {
    let first_type = Uuid::from_u128(1);
    let second_type = Uuid::from_u128(2);
    let by_path = HandleId::from(AssetPath::from("hit.rchit.spv"));
    let by_other_path = HandleId::from(AssetPath::from("hit.rint.spv"));
    let mut store = ShaderStore::new();
    assert!(store.insert(HandleId::new(first_type, 7)));
    assert!(store.contains(HandleId::new(first_type, 7)));
    assert!(!store.contains(HandleId::new(first_type, 8)));
    assert!(!store.contains(HandleId::new(second_type, 7)));
    assert!(!store.contains(by_path));
    assert!(store.insert(by_path));
    assert!(!store.insert(HandleId::from(AssetPath::from("hit.rchit.spv"))));
    assert!(store.contains(by_path));
    assert!(!store.contains(by_other_path));
    assert!(!store.remove(HandleId::new(second_type, 7)));
    assert!(store.remove(HandleId::new(first_type, 7)));
    assert!(store.contains(by_path));
    assert!(!store.contains(HandleId::new(first_type, 7)));

    let hitgroup = HitgroupShaders {
        closest_hit: Some(SpecializedShader { shader: by_path, stage: 0, flags: 0 }),
        intersection: None,
        any_hit: None,
    };
    assert!(hitgroup.uses_shader(by_path));
    assert!(!hitgroup.uses_shader(by_other_path));
    assert!(!hitgroup.uses_shader(HandleId::new(first_type, 7)));
}
