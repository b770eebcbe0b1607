//! The fixed description of a pipeline family: its layout, its materials and
//! its ray types.

use crate::mask::MAX_MATERIALS;
use crate::shader::{HitgroupShaders, ShaderId, ShaderStore};
use vstd::prelude::*;

verus! {

/// The kind of geometry that a material is drawn on.
#[derive(Clone, Copy, Debug, PartialEq, Eq)]
pub enum MaterialType {
    Triangles,
    Procedural,
}

/// A handle to a pipeline layout that the graphics device owns.
#[derive(Clone, Copy, Debug, PartialEq, Eq)]
pub struct PipelineLayout {
    pub handle: u64,
}

/// The parameters with which every pipeline of a family is created.
#[derive(Clone, Copy, Debug, PartialEq, Eq)]
pub struct PipelineCreateInfo {
    pub flags: u32,
    pub max_pipeline_ray_recursion_depth: u32,
    pub max_pipeline_ray_payload_size: u32,
    pub max_pipeline_ray_hit_attribute_size: u32,
}

/// One material of a pipeline family. Its slot index is its position in
/// the family's list of materials; `shaders` holds one entry per ray type.
#[derive(Debug)]
pub struct MaterialSlot {
    pub ty: MaterialType,
    pub shaders: Vec<HitgroupShaders>,
}

impl MaterialSlot {
    /// Whether the hitgroup of some ray type runs the asset `shader`.
    pub open spec fn references(self, shader: ShaderId) -> bool {
        exists|r: int| 0 <= r < self.shaders@.len() && (#[trigger] self.shaders@[r]).references(shader)
    }

    /// Whether the hitgroups of the ray types in `raytypes` have all their
    /// shader assets in `loaded`.
    pub open spec fn loaded_in(self, raytypes: Seq<u32>, loaded: Set<ShaderId>) -> bool {
        forall|k: int|
            0 <= k < raytypes.len() && (#[trigger] raytypes[k]) < self.shaders@.len()
                ==> self.shaders@[raytypes[k] as int].loaded_in(loaded)
    }

    /// Tests whether the hitgroup of some ray type runs the asset `shader`.
    pub fn uses_shader(&self, shader: ShaderId) -> (used: bool)
        ensures
            used == self.references(shader),
    {
        let mut r: usize = 0;
        while r < self.shaders.len()
            invariant
                r <= self.shaders.len(),
                forall|j: int| 0 <= j < r ==> !(#[trigger] self.shaders@[j]).references(shader),
            decreases self.shaders.len() - r,
        {
            if self.shaders[r].uses_shader(shader) {
                return true;
            }
            r += 1;
        }
        false
    }

    /// Tests whether the hitgroups of the ray types in `raytypes` have all
    /// their shader assets loaded.
    pub fn is_loaded(&self, raytypes: &Vec<u32>, store: &ShaderStore) -> (loaded: bool)
        ensures
            loaded == self.loaded_in(raytypes@, store@),
    {
        let mut k: usize = 0;
        while k < raytypes.len()
            invariant
                k <= raytypes.len(),
                forall|j: int|
                    0 <= j < k && (#[trigger] raytypes@[j]) < self.shaders@.len()
                        ==> self.shaders@[raytypes@[j] as int].loaded_in(store@),
            decreases raytypes.len() - k,
        {
            let raytype = raytypes[k] as usize;
            if raytype < self.shaders.len() && !self.shaders[raytype].is_loaded(store) {
                return false;
            }
            k += 1;
        }
        true
    }
}

/// What all pipeline variants of one family have in common. It is fixed
/// when the family is configured.
#[derive(Debug)]
pub struct RayTracingPipelineCharacteristics {
    pub layout: PipelineLayout,
    pub materials: Vec<MaterialSlot>,
    pub num_raytype: u32,
    pub create_info: PipelineCreateInfo,
}

impl RayTracingPipelineCharacteristics {
    /// At most 64 materials, each with one hitgroup per ray type.
    pub open spec fn wf(self) -> bool {
        &&& self.materials@.len() <= MAX_MATERIALS
        &&& forall|i: int|
            0 <= i < self.materials@.len() ==> (#[trigger] self.materials@[i]).shaders@.len()
                == self.num_raytype
    }

    /// Tests `wf`.
    pub fn is_well_formed(&self) -> (ok: bool)
        ensures
            ok == self.wf(),
    {
        if self.materials.len() > MAX_MATERIALS {
            return false;
        }
        let mut i: usize = 0;
        while i < self.materials.len()
            invariant
                i <= self.materials.len(),
                forall|j: int|
                    0 <= j < i ==> (#[trigger] self.materials@[j]).shaders@.len()
                        == self.num_raytype,
            decreases self.materials.len() - i,
        {
            if self.materials[i].shaders.len() != self.num_raytype as usize {
                return false;
            }
            i += 1;
        }
        true
    }

    /// The number of materials.
    pub fn material_count(&self) -> (count: usize)
        ensures
            count == self.materials@.len(),
    {
        self.materials.len()
    }
}

} // verus!
