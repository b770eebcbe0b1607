//! A cache of specialized ray-tracing pipelines.
//!
//! A renderer activates and deactivates material types at run time. For each
//! set of active materials (a 64-bit activation mask) the manager keeps one
//! pipeline variant. Compiling is slow, so the manager never waits: a query
//! decides what has to be built and hands the requests to its caller, who
//! runs them in the background and reports how each ended. Until the
//! pipeline of the active materials is ready, the pipeline of all materials
//! serves as a fallback. When a shader changes, what was built from it is
//! dropped.
//!
//! - [`mask`]: activation masks as sets of material slots.
//! - [`shader`], [`characteristics`]: the fixed description of a pipeline
//!   family.
//! - [`deferred`], [`sbt`]: values that builds deliver, and compiled objects.
//! - [`hitgroup`]: where the hitgroups of each material lie in a pipeline.
//! - [`model`]: the state of the manager as a mathematical value, and how
//!   each operation changes it.
//! - [`manager`]: the manager itself; its contracts are stated over the model.
//! - [`request`]: what the manager hands to its caller.
//! - [`laws`]: what is proved of the model.
//! - [`palette`]: the shader parameters of the palette material.

pub mod characteristics;
pub mod deferred;
pub mod hitgroup;
pub mod laws;
pub mod manager;
pub mod mask;
pub mod model;
pub mod palette;
pub mod request;
pub mod sbt;
pub mod shader;

pub use characteristics::{
    MaterialSlot, MaterialType, PipelineCreateInfo, PipelineLayout,
    RayTracingPipelineCharacteristics,
};
pub use deferred::{BuildError, DeferredValue};
pub use manager::{
    config_is_valid, ActivationError, RayTracingPipelineManager,
    RayTracingPipelineManagerSpecializedPipeline,
};
pub use model::{BuildStatus, BuildStrategy};
pub use palette::PaletteMaterialShaderParams;
pub use request::{BuildRequest, Invalidation};
pub use sbt::{FinalizedPipeline, PipelineLibrary, SbtHandles};
pub use shader::{HitgroupShaders, ShaderId, ShaderStore, SpecializedShader};
