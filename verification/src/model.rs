//! The manager as a mathematical object: what it holds, and how each
//! operation changes it.

use crate::characteristics::RayTracingPipelineCharacteristics;
use crate::deferred::{BuildError, DeferredValue};
use crate::hitgroup::{active_slots, hitgroup_mapping, hitgroup_span};
use crate::mask::{full_mask, mask_contains, mask_within, MAX_MATERIALS};
use crate::sbt::{FinalizedPipeline, PipelineLibrary};
use crate::shader::{all_loaded, any_runs, ShaderId, SpecializedShader};
use vstd::prelude::*;

verus! {

/// How the pipeline of a mask is put together.
#[derive(Clone, Copy, Debug, PartialEq, Eq)]
pub enum BuildStrategy {
    /// Link a shared base library with one hitgroup library per material.
    LibraryComposition,
    /// Compile the pipeline of each mask in one piece from its shaders.
    Monolithic,
}

/// How far the build of a library or of a pipeline has come.
#[derive(Clone, Copy, Debug, PartialEq, Eq)]
pub enum BuildStatus {
    /// No build was started, or what it made has been dropped.
    Absent,
    Pending,
    Ready,
    Failed,
}

/// The status of the value `value`.
pub open spec fn status_of<T>(value: Option<DeferredValue<T>>) -> BuildStatus {
    match value {
        None => BuildStatus::Absent,
        Some(DeferredValue::Pending) => BuildStatus::Pending,
        Some(DeferredValue::Ready(_)) => BuildStatus::Ready,
        Some(DeferredValue::Failed(_)) => BuildStatus::Failed,
    }
}

/// Work that the manager asks its caller to start in the background.
pub enum BuildRequestView {
    BaseLibrary,
    MaterialLibrary { slot: usize },
    LinkPipeline { mask: u64, libraries: Seq<PipelineLibrary> },
    NativePipeline { mask: u64, slots: Seq<usize> },
}

/// Which cache entry serves the current frame.
pub struct Selection {
    pub mask: u64,
    pub fallback: bool,
}

/// One entry of the cache of specialized pipelines.
pub struct SpecializedPipelineView {
    pub pipeline: DeferredValue<FinalizedPipeline>,
    pub hitgroup_mapping: Map<u32, u32>,
}

/// The library that `value` holds once its build has succeeded.
pub open spec fn ready_library(value: Option<DeferredValue<PipelineLibrary>>) -> PipelineLibrary {
    match value {
        Some(DeferredValue::Ready(library)) => library,
        _ => PipelineLibrary { handle: 0 },
    }
}

/// Whether `value` holds a library whose build has succeeded.
pub open spec fn library_is_ready(value: Option<DeferredValue<PipelineLibrary>>) -> bool {
    value matches Some(DeferredValue::Ready(_))
}

/// The outcome of a pipeline build as the cache records it: a pipeline
/// counts only if its handle table has `span` records.
pub open spec fn checked_outcome(outcome: Result<FinalizedPipeline, BuildError>, span: nat)
    -> Result<FinalizedPipeline, BuildError> {
    match outcome {
        Ok(pipeline) => if pipeline.sbt_handles@.wf() && pipeline.sbt_handles@.hitgroup_count()
            == span {
            Ok(pipeline)
        } else {
            Err(BuildError::HandleTableMismatch)
        },
        Err(error) => Err(error),
    }
}

/// The state of a pipeline manager.
#[verifier::ext_equal]
pub struct ManagerView {
    pub characteristics: RayTracingPipelineCharacteristics,
    pub raytypes: Seq<u32>,
    pub shaders: Seq<SpecializedShader>,
    pub strategy: BuildStrategy,
    pub instance_counts: Seq<nat>,
    pub activation_mask: u64,
    pub base_library: Option<DeferredValue<PipelineLibrary>>,
    pub material_libraries: Seq<Option<DeferredValue<PipelineLibrary>>>,
    pub pipelines: Map<u64, SpecializedPipelineView>,
}

/// Whether a manager can be made of these: the characteristics are well
/// formed, every ray type has its hitgroups, and hitgroup indices fit in
/// 32 bits.
pub open spec fn config_valid(
    characteristics: RayTracingPipelineCharacteristics,
    raytypes: Seq<u32>,
) -> bool {
    &&& characteristics.wf()
    &&& forall|k: int| 0 <= k < raytypes.len() ==> #[trigger] raytypes[k] < characteristics.num_raytype
    &&& raytypes.len() * MAX_MATERIALS <= u32::MAX
}

impl ManagerView {
    /// The state of a new manager: no instance, no library, no pipeline.
    pub open spec fn initial(
        characteristics: RayTracingPipelineCharacteristics,
        raytypes: Seq<u32>,
        shaders: Seq<SpecializedShader>,
        strategy: BuildStrategy,
    ) -> Self {
        ManagerView {
            characteristics,
            raytypes,
            shaders,
            strategy,
            instance_counts: Seq::new(characteristics.materials@.len(), |slot: int| 0nat),
            activation_mask: 0,
            base_library: None,
            material_libraries: Seq::new(characteristics.materials@.len(), |slot: int| None),
            pipelines: Map::empty(),
        }
    }

    pub open spec fn material_count(self) -> nat {
        self.characteristics.materials@.len()
    }

    /// The mask of all materials.
    pub open spec fn full_mask(self) -> u64 {
        full_mask(self.material_count() as int)
    }

    /// What holds of the cache entry of `mask`: the mask names materials
    /// only, the mapping is the one of the mask, and a pipeline that is
    /// ready has one handle record per hitgroup.
    pub open spec fn entry_inv(self, mask: u64) -> bool {
        let entry = self.pipelines[mask];
        let span = hitgroup_span(mask, self.material_count(), self.raytypes.len());
        &&& mask_within(mask, self.material_count() as int)
        &&& entry.hitgroup_mapping == hitgroup_mapping(
            mask,
            self.material_count(),
            self.raytypes.len(),
        )
        &&& entry.pipeline matches DeferredValue::Ready(pipeline) ==> pipeline.sbt_handles@.wf()
            && pipeline.sbt_handles@.hitgroup_count() == span
    }

    /// What holds of every manager: a slot is in the activation mask if and
    /// only if it has a live instance, and every cache entry is as
    /// `entry_inv` says.
    pub open spec fn inv(self) -> bool {
        &&& config_valid(self.characteristics, self.raytypes)
        &&& self.instance_counts.len() == self.material_count()
        &&& self.material_libraries.len() == self.material_count()
        &&& forall|slot: int| #[trigger]
            mask_contains(self.activation_mask, slot) <==> 0 <= slot < self.material_count()
                && self.instance_counts[slot] > 0
        &&& forall|mask: u64| #[trigger] self.pipelines.contains_key(mask) ==> self.entry_inv(mask)
    }

    // Activation

    /// The state after one more instance of the material `slot`.
    pub open spec fn added(self, slot: int) -> Self {
        ManagerView {
            instance_counts: self.instance_counts.update(slot, self.instance_counts[slot] + 1),
            activation_mask: if self.instance_counts[slot] == 0 {
                self.activation_mask | (1u64 << (slot as u64))
            } else {
                self.activation_mask
            },
            ..self
        }
    }

    /// The state after one instance less of the material `slot`.
    pub open spec fn removed(self, slot: int) -> Self {
        ManagerView {
            instance_counts: self.instance_counts.update(
                slot,
                (self.instance_counts[slot] - 1) as nat,
            ),
            activation_mask: if self.instance_counts[slot] == 1 {
                self.activation_mask & !(1u64 << (slot as u64))
            } else {
                self.activation_mask
            },
            ..self
        }
    }

    // Scheduling

    /// Whether `slot` is a material and a member of `mask`.
    pub open spec fn in_mask(self, mask: u64, slot: int) -> bool {
        0 <= slot < self.material_count() && mask_contains(mask, slot)
    }

    /// Whether the hitgroup shaders of `slot`, for the manager's ray types,
    /// are all in `loaded`.
    pub open spec fn slot_loaded(self, slot: int, loaded: Set<ShaderId>) -> bool {
        self.characteristics.materials@[slot].loaded_in(self.raytypes, loaded)
    }

    /// Whether a build of the base library starts: there is none, and its
    /// shaders are loaded.
    pub open spec fn schedules_base(self, loaded: Set<ShaderId>) -> bool {
        self.base_library is None && all_loaded(self.shaders, loaded)
    }

    /// Whether a build of the library of `slot` starts for `mask`: the slot
    /// is in the mask, has no library, and its shaders are loaded.
    pub open spec fn schedules_library(self, mask: u64, slot: int, loaded: Set<ShaderId>) -> bool {
        &&& self.in_mask(mask, slot)
        &&& self.material_libraries[slot] is None
        &&& self.slot_loaded(slot, loaded)
    }

    /// Whether the base library and the library of every slot in `mask`
    /// are ready to be linked.
    pub open spec fn libraries_ready(self, mask: u64) -> bool {
        &&& library_is_ready(self.base_library)
        &&& forall|slot: int| #[trigger]
            self.in_mask(mask, slot) ==> library_is_ready(self.material_libraries[slot])
    }

    /// The state after an attempt to start the build of the base library.
    pub open spec fn base_scheduled(self, loaded: Set<ShaderId>) -> Self {
        ManagerView {
            base_library: if self.schedules_base(loaded) {
                Some(DeferredValue::Pending)
            } else {
                self.base_library
            },
            ..self
        }
    }

    /// The state after an attempt to start the build of the library of
    /// `slot`.
    pub open spec fn library_scheduled(self, slot: int, loaded: Set<ShaderId>) -> Self {
        if self.material_libraries[slot] is None && self.slot_loaded(slot, loaded) {
            ManagerView {
                material_libraries: self.material_libraries.update(
                    slot,
                    Some(DeferredValue::Pending),
                ),
                ..self
            }
        } else {
            self
        }
    }

    /// The requests for the libraries of the slots below `upto`, in
    /// ascending order of the slots.
    pub open spec fn library_requests(self, mask: u64, loaded: Set<ShaderId>, upto: int) -> Seq<
        BuildRequestView,
    >
        decreases upto,
    {
        if upto <= 0 {
            Seq::empty()
        } else if self.schedules_library(mask, upto - 1, loaded) {
            self.library_requests(mask, loaded, upto - 1).push(
                BuildRequestView::MaterialLibrary { slot: (upto - 1) as usize },
            )
        } else {
            self.library_requests(mask, loaded, upto - 1)
        }
    }

    /// The libraries that a pipeline for `mask` is linked from: the base
    /// library, then those of the member slots below `upto` in ascending
    /// order.
    pub open spec fn linked_libraries(self, mask: u64, upto: int) -> Seq<PipelineLibrary>
        decreases upto,
    {
        if upto <= 0 {
            seq![ready_library(self.base_library)]
        } else if self.in_mask(mask, upto - 1) {
            self.linked_libraries(mask, upto - 1).push(
                ready_library(self.material_libraries[upto - 1]),
            )
        } else {
            self.linked_libraries(mask, upto - 1)
        }
    }

    /// A cache entry whose build has just been requested.
    pub open spec fn pending_entry(self, mask: u64) -> SpecializedPipelineView {
        SpecializedPipelineView {
            pipeline: DeferredValue::Pending,
            hitgroup_mapping: hitgroup_mapping(mask, self.material_count(), self.raytypes.len()),
        }
    }

    /// The state after an attempt to compose the pipeline of `mask` from
    /// libraries. Libraries that are missing and can be built are now
    /// pending; if all were ready, the pipeline is.
    pub open spec fn composed(self, mask: u64, loaded: Set<ShaderId>) -> Self {
        ManagerView {
            base_library: if self.schedules_base(loaded) {
                Some(DeferredValue::Pending)
            } else {
                self.base_library
            },
            material_libraries: Seq::new(
                self.material_libraries.len(),
                |slot: int|
                    if self.schedules_library(mask, slot, loaded) {
                        Some(DeferredValue::Pending)
                    } else {
                        self.material_libraries[slot]
                    },
            ),
            pipelines: if self.libraries_ready(mask) {
                self.pipelines.insert(mask, self.pending_entry(mask))
            } else {
                self.pipelines
            },
            ..self
        }
    }

    /// The requests that go with `composed`: the base library, the
    /// material libraries in ascending order, and the link.
    pub open spec fn composition_requests(self, mask: u64, loaded: Set<ShaderId>) -> Seq<
        BuildRequestView,
    > {
        let base = if self.schedules_base(loaded) {
            seq![BuildRequestView::BaseLibrary]
        } else {
            Seq::empty()
        };
        let link = if self.libraries_ready(mask) {
            seq![
                BuildRequestView::LinkPipeline {
                    mask,
                    libraries: self.linked_libraries(mask, self.material_count() as int),
                },
            ]
        } else {
            Seq::empty()
        };
        base + self.library_requests(mask, loaded, self.material_count() as int) + link
    }

    /// Whether every shader of a pipeline for `mask` is loaded.
    pub open spec fn shaders_ready(self, mask: u64, loaded: Set<ShaderId>) -> bool {
        &&& all_loaded(self.shaders, loaded)
        &&& forall|slot: int| #[trigger] self.in_mask(mask, slot) ==> self.slot_loaded(slot, loaded)
    }

    /// The state after an attempt to build the pipeline of `mask` in one
    /// piece: it is pending if all its shaders are loaded.
    pub open spec fn built_natively(self, mask: u64, loaded: Set<ShaderId>) -> Self {
        ManagerView {
            pipelines: if self.shaders_ready(mask, loaded) {
                self.pipelines.insert(mask, self.pending_entry(mask))
            } else {
                self.pipelines
            },
            ..self
        }
    }

    /// The request that goes with `built_natively`.
    pub open spec fn native_requests(self, mask: u64, loaded: Set<ShaderId>) -> Seq<
        BuildRequestView,
    > {
        if self.shaders_ready(mask, loaded) {
            seq![
                BuildRequestView::NativePipeline {
                    mask,
                    slots: active_slots(mask, self.material_count() as int),
                },
            ]
        } else {
            Seq::empty()
        }
    }

    /// The state after an attempt to build the pipeline of `mask`, by the
    /// manager's strategy.
    pub open spec fn scheduled(self, mask: u64, loaded: Set<ShaderId>) -> Self {
        match self.strategy {
            BuildStrategy::LibraryComposition => self.composed(mask, loaded),
            BuildStrategy::Monolithic => self.built_natively(mask, loaded),
        }
    }

    /// The requests that go with `scheduled`.
    pub open spec fn schedule_requests(self, mask: u64, loaded: Set<ShaderId>) -> Seq<
        BuildRequestView,
    > {
        match self.strategy {
            BuildStrategy::LibraryComposition => self.composition_requests(mask, loaded),
            BuildStrategy::Monolithic => self.native_requests(mask, loaded),
        }
    }

    /// The state after the first step of a query: a build for the
    /// activation mask, unless the cache has an entry for it.
    pub open spec fn polled_exact(self, loaded: Set<ShaderId>) -> Self {
        if self.pipelines.contains_key(self.activation_mask) {
            self
        } else {
            self.scheduled(self.activation_mask, loaded)
        }
    }

    /// Whether the second step of a query asks for the pipeline of all
    /// materials: the activation mask is another one, and the cache has no
    /// entry for the full mask.
    pub open spec fn wants_fallback(self) -> bool {
        self.full_mask() != self.activation_mask && !self.pipelines.contains_key(self.full_mask())
    }

    /// The state after a query.
    pub open spec fn polled(self, loaded: Set<ShaderId>) -> Self {
        let first = self.polled_exact(loaded);
        if first.wants_fallback() {
            first.scheduled(self.full_mask(), loaded)
        } else {
            first
        }
    }

    /// The requests that a query hands out, in their order.
    pub open spec fn poll_requests(self, loaded: Set<ShaderId>) -> Seq<BuildRequestView> {
        let first = self.polled_exact(loaded);
        let exact = if self.pipelines.contains_key(self.activation_mask) {
            Seq::empty()
        } else {
            self.schedule_requests(self.activation_mask, loaded)
        };
        if first.wants_fallback() {
            exact + first.schedule_requests(self.full_mask(), loaded)
        } else {
            exact
        }
    }

    /// The status of the pipeline of `mask`.
    pub open spec fn pipeline_status(self, mask: u64) -> BuildStatus {
        if self.pipelines.contains_key(mask) {
            status_of(Some(self.pipelines[mask].pipeline))
        } else {
            BuildStatus::Absent
        }
    }

    /// Whether the cache holds a pipeline for `mask` that is ready.
    pub open spec fn is_ready(self, mask: u64) -> bool {
        self.pipelines.contains_key(mask) && self.pipelines[mask].pipeline is Ready
    }

    /// The entry that serves the frame: that of the activation mask if it
    /// is ready, else that of all materials if it is, else none.
    pub open spec fn selected(self) -> Option<Selection> {
        if self.is_ready(self.activation_mask) {
            Some(Selection { mask: self.activation_mask, fallback: false })
        } else if self.full_mask() != self.activation_mask && self.is_ready(self.full_mask()) {
            Some(Selection { mask: self.full_mask(), fallback: true })
        } else {
            None
        }
    }

    // Completion

    /// The state after the build of the base library ended with `outcome`.
    pub open spec fn base_resolved(self, outcome: Result<PipelineLibrary, BuildError>) -> Self {
        ManagerView {
            base_library: match self.base_library {
                Some(value) => Some(value.resolved(outcome)),
                None => None,
            },
            ..self
        }
    }

    /// The state after the build of the library of `slot` ended with
    /// `outcome`.
    pub open spec fn library_resolved(
        self,
        slot: int,
        outcome: Result<PipelineLibrary, BuildError>,
    ) -> Self {
        if 0 <= slot < self.material_libraries.len() {
            ManagerView {
                material_libraries: self.material_libraries.update(
                    slot,
                    match self.material_libraries[slot] {
                        Some(value) => Some(value.resolved(outcome)),
                        None => None,
                    },
                ),
                ..self
            }
        } else {
            self
        }
    }

    /// The state after the build of the pipeline of `mask` ended with
    /// `outcome`.
    pub open spec fn pipeline_resolved(
        self,
        mask: u64,
        outcome: Result<FinalizedPipeline, BuildError>,
    ) -> Self {
        if self.pipelines.contains_key(mask) {
            let entry = self.pipelines[mask];
            let span = hitgroup_span(mask, self.material_count(), self.raytypes.len());
            ManagerView {
                pipelines: self.pipelines.insert(
                    mask,
                    SpecializedPipelineView {
                        pipeline: entry.pipeline.resolved(checked_outcome(outcome, span)),
                        hitgroup_mapping: entry.hitgroup_mapping,
                    },
                ),
                ..self
            }
        } else {
            self
        }
    }

    // Invalidation

    /// Whether `slot` is a material one of whose hitgroups runs `shader`.
    pub open spec fn slot_affected(self, slot: int, shader: ShaderId) -> bool {
        0 <= slot < self.material_count() && self.characteristics.materials@[slot].references(
            shader,
        )
    }

    /// Whether `mask` has a member that `shader` affects.
    pub open spec fn mask_affected(self, mask: u64, shader: ShaderId) -> bool {
        exists|slot: int| #[trigger] mask_contains(mask, slot) && self.slot_affected(slot, shader)
    }

    /// The state after the asset `shader` has changed. A base shader drops
    /// the base library and the whole cache. A hitgroup shader drops the
    /// libraries of the materials that run it and the cache entries of the
    /// masks that hold one of them.
    pub open spec fn invalidated(self, shader: ShaderId) -> Self {
        let base_hit = any_runs(self.shaders, shader);
        ManagerView {
            base_library: if base_hit {
                None
            } else {
                self.base_library
            },
            material_libraries: Seq::new(
                self.material_libraries.len(),
                |slot: int|
                    if self.slot_affected(slot, shader) {
                        None
                    } else {
                        self.material_libraries[slot]
                    },
            ),
            pipelines: Map::new(
                |mask: u64|
                    self.pipelines.contains_key(mask) && !base_hit && !self.mask_affected(
                        mask,
                        shader,
                    ),
                |mask: u64| self.pipelines[mask],
            ),
            ..self
        }
    }
}

} // verus!
