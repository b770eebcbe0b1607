//! The parameters that the palette material hands to its shaders.

use vstd::prelude::*;

verus! {

/// Device addresses that the hitgroup shaders of the palette material read
/// from their shader binding table record.
#[derive(Clone, Copy, Debug, PartialEq, Eq)]
pub struct PaletteMaterialShaderParams {
    /// Address of a list of 64-bit masks, one per block.
    pub geometry_ptr: u64,
    /// Address of a list of bytes, one per voxel: its index into the
    /// palette. A voxel is numbered by its block and its place within it.
    pub material_ptr: u64,
    /// Address of a list of 256 colors.
    pub palette_ptr: u64,
}

impl PaletteMaterialShaderParams {
    /// The parameters for rays of type `ray_type`. The addresses are not
    /// known when the parameters are made: all three are zero, whatever the
    /// ray type.
    pub fn parameters(ray_type: u32) -> (params: Self)
        ensures
            params == (PaletteMaterialShaderParams {
                geometry_ptr: 0,
                material_ptr: 0,
                palette_ptr: 0,
            }),
    {
        PaletteMaterialShaderParams { geometry_ptr: 0, material_ptr: 0, palette_ptr: 0 }
    }
}

} // verus!
