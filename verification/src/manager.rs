//! The pipeline manager: activation tracking, the cache of specialized
//! pipelines, build scheduling and invalidation.
//!
//! The manager starts no work itself. A query returns the builds to start;
//! the caller runs them in the background and reports each outcome with
//! `base_library_built`, `material_library_built` or `pipeline_built`. An
//! outcome for which nothing is pending is ignored: the build was dropped by
//! an invalidation while it ran.
//!
//! A build that failed is not started again. Its library or cache entry
//! stays failed, and blocks the pipelines that need it, until an
//! invalidation drops it; the next query then starts it anew.

use crate::characteristics::{PipelineLayout, RayTracingPipelineCharacteristics};
use crate::deferred::{BuildError, DeferredValue};
use crate::hitgroup::{active_slot_count, active_slots, build_hitgroup_mapping, hitgroup_span};
use crate::laws::{
    lemma_invalidated_keeps_inv, lemma_masks_within, lemma_poll_keeps_selection,
    lemma_polled_keeps_inv, lemma_resolved_keeps_inv, lemma_scheduled_keeps_inv,
    lemma_selection_resolves,
};
use crate::mask::{
    full_material_mask, lemma_empty_mask, lemma_with_slot, lemma_without_slot, mask_contains,
    mask_has_slot, mask_within, slot_bit, MAX_MATERIALS,
};
use crate::model::{
    config_valid, library_is_ready, ready_library, status_of, BuildRequestView, BuildStatus,
    BuildStrategy, ManagerView, Selection, SpecializedPipelineView,
};
use crate::request::{
    ascending_masks, ascending_slots, lemma_request_views_push, request_views, BuildRequest,
    Invalidation,
};
use crate::sbt::{FinalizedPipeline, PipelineLibrary};
use crate::shader::{
    any_runs, lemma_contains_after_push, same_asset, ShaderId, ShaderStore, SpecializedShader,
};
use std::collections::BTreeMap;
use std::sync::Arc;
use vstd::prelude::*;
use vstd::std_specs::cmp::OrdSpec;
use vstd::std_specs::iter::IteratorSpec;

verus! {

broadcast use {vstd::std_specs::btree::group_btree_axioms, vstd::laws_cmp::group_laws_cmp};

/// What the manager keeps for each material.
struct RayTracingPipelineManagerMaterialInfo {
    instance_count: usize,
    pipeline_library: Option<DeferredValue<PipelineLibrary>>,
}

/// A cache entry: the pipeline of one mask, and where the hitgroups of each
/// material lie in it.
struct RayTracingPipelineManagerSpecializedPipelineDeferred {
    pipeline: DeferredValue<FinalizedPipeline>,
    hitgroup_mapping: BTreeMap<u32, u32>,
}

impl View for RayTracingPipelineManagerSpecializedPipelineDeferred {
    type V = SpecializedPipelineView;

    closed spec fn view(&self) -> SpecializedPipelineView {
        SpecializedPipelineView {
            pipeline: self.pipeline,
            hitgroup_mapping: self.hitgroup_mapping@,
        }
    }
}

/// Why an instance was not counted.
#[derive(Clone, Copy, Debug, PartialEq, Eq)]
pub enum ActivationError {
    /// The family has no material with this slot index.
    UnknownMaterial,
    /// The material has no live instance to take away.
    NoLiveInstance,
    /// The instance count of the material cannot grow further.
    TooManyInstances,
}

/// A pipeline that is ready to be bound, as `get_pipeline` hands it out.
#[derive(Clone, Copy)]
pub struct RayTracingPipelineManagerSpecializedPipeline<'a> {
    pub layout: PipelineLayout,
    pub pipeline: &'a FinalizedPipeline,
    /// The index of the first hitgroup of each material in the pipeline.
    pub hitgroup_mapping: &'a BTreeMap<u32, u32>,
    /// The manager's ray types.
    pub raytypes: &'a Vec<u32>,
    /// Whether this is the pipeline of all materials, handed out because
    /// that of the activation mask is not ready.
    pub fallback: bool,
}

impl<'a> RayTracingPipelineManagerSpecializedPipeline<'a> {
    /// The handle table is well formed and holds the hitgroups of every
    /// material of the mapping, one per ray type.
    pub open spec fn wf(&self) -> bool {
        &&& self.pipeline.sbt_handles@.wf()
        &&& forall|slot: u32| #[trigger]
            self.hitgroup_mapping@.contains_key(slot) ==> self.hitgroup_mapping@[slot]
                + self.raytypes@.len() <= self.pipeline.sbt_handles@.hitgroup_count()
    }

    /// Whether `self` is the entry of `state` that `selection` names.
    pub open spec fn shows(&self, state: ManagerView, selection: Selection) -> bool {
        &&& state.pipelines.contains_key(selection.mask)
        &&& state.pipelines[selection.mask].pipeline == DeferredValue::Ready(*self.pipeline)
        &&& state.pipelines[selection.mask].hitgroup_mapping == self.hitgroup_mapping@
        &&& self.raytypes@ == state.raytypes
        &&& self.layout == state.characteristics.layout
        &&& self.fallback == selection.fallback
    }

    /// Whether the pipeline has hitgroups for the material `material_slot`
    /// and `raytype` is one of the manager's ray types.
    pub open spec fn resolves(&self, material_slot: usize, raytype: u32) -> bool {
        &&& material_slot <= u32::MAX
        &&& self.hitgroup_mapping@.contains_key(material_slot as u32)
        &&& self.raytypes@.contains(raytype)
    }

    /// The index of the hitgroup of `material_slot` and `raytype`: where
    /// the hitgroups of the material begin, plus the position of the ray
    /// type among the manager's ray types.
    pub open spec fn hitgroup_index(&self, material_slot: usize, raytype: u32) -> int {
        self.hitgroup_mapping@[material_slot as u32] + raytype_position(
            self.raytypes@,
            raytype,
            0,
        )
    }

    /// The layout of the pipeline.
    pub fn layout(&self) -> (layout: PipelineLayout)
        ensures
            layout == self.layout,
    {
        self.layout
    }

    /// The pipeline.
    pub fn pipeline(&self) -> (pipeline: &'a FinalizedPipeline)
        ensures
            pipeline == self.pipeline,
    {
        self.pipeline
    }

    /// The position of `raytype` among the manager's ray types.
    fn local_raytype(&self, raytype: u32) -> (position: Option<usize>)
        ensures
            position is Some == self.raytypes@.contains(raytype),
            position matches Some(k) ==> k < self.raytypes@.len() && k == raytype_position(
                self.raytypes@,
                raytype,
                0,
            ),
    {
        let mut k: usize = 0;
        while k < self.raytypes.len()
            invariant
                k <= self.raytypes@.len(),
                forall|j: int| 0 <= j < k ==> self.raytypes@[j] != raytype,
                raytype_position(self.raytypes@, raytype, 0) == raytype_position(
                    self.raytypes@,
                    raytype,
                    k as int,
                ),
            decreases self.raytypes@.len() - k,
        {
            if self.raytypes[k] == raytype {
                return Some(k);
            }
            k += 1;
        }
        None
    }

    /// The shader binding table record of the hitgroup that serves the
    /// material `material_slot` for rays of type `raytype`; `None` where
    /// `resolves` does not hold.
    pub fn try_get_sbt_handle_for_material(&self, material_slot: usize, raytype: u32) -> (record:
        Option<&'a [u8]>)
        requires
            self.wf(),
        ensures
            record is Some == self.resolves(material_slot, raytype),
            record matches Some(bytes) ==> bytes@ == self.pipeline.sbt_handles@.hitgroup(
                self.hitgroup_index(material_slot, raytype),
            ) && bytes@.len() == self.pipeline.sbt_handles@.handle_size,
    {
        if material_slot > u32::MAX as usize {
            return None;
        }
        let material_index = material_slot as u32;
        let local_raytype = match self.local_raytype(raytype) {
            Some(position) => position,
            None => {
                return None;
            },
        };
        let base = match self.hitgroup_mapping.get(&material_index) {
            Some(base) => *base,
            None => {
                return None;
            },
        };
        let records = self.pipeline.sbt_handles.hitgroup_count();
        assert(base + local_raytype < records);
        let hitgroup_index = base as usize + local_raytype;
        Some(self.pipeline.sbt_handles.hitgroup(hitgroup_index))
    }

    /// The shader binding table record of the hitgroup that serves the
    /// material `material_slot` for rays of type `raytype`.
    pub fn get_sbt_handle_for_material(&self, material_slot: usize, raytype: u32) -> (record:
        &'a [u8])
        requires
            self.wf(),
            self.resolves(material_slot, raytype),
        ensures
            record@ == self.pipeline.sbt_handles@.hitgroup(
                self.hitgroup_index(material_slot, raytype),
            ),
            record@.len() == self.pipeline.sbt_handles@.handle_size,
    {
        self.try_get_sbt_handle_for_material(material_slot, raytype).unwrap()
    }
}

/// The position of the first `raytype` in `raytypes` at or after `from`;
/// the length of `raytypes` if there is none.
pub open spec fn raytype_position(raytypes: Seq<u32>, raytype: u32, from: int) -> int
    decreases raytypes.len() - from,
{
    if from >= raytypes.len() {
        raytypes.len() as int
    } else if raytypes[from] == raytype {
        from
    } else {
        raytype_position(raytypes, raytype, from + 1)
    }
}

/// Keeps one ray-tracing pipeline per set of active materials.
pub struct RayTracingPipelineManager {
    raytypes: Vec<u32>,
    pipeline_base_library: Option<DeferredValue<PipelineLibrary>>,
    pipeline_characteristics: Arc<RayTracingPipelineCharacteristics>,
    current_material_flag: u64,
    specialized_pipelines: BTreeMap<u64, RayTracingPipelineManagerSpecializedPipelineDeferred>,
    materials: Vec<RayTracingPipelineManagerMaterialInfo>,
    strategy: BuildStrategy,
    shaders: Vec<SpecializedShader>,
}

impl View for RayTracingPipelineManager {
    type V = ManagerView;

    closed spec fn view(&self) -> ManagerView {
        ManagerView {
            characteristics: *self.pipeline_characteristics,
            raytypes: self.raytypes@,
            shaders: self.shaders@,
            strategy: self.strategy,
            instance_counts: Seq::new(
                self.materials@.len(),
                |slot: int| self.materials@[slot].instance_count as nat,
            ),
            activation_mask: self.current_material_flag,
            base_library: self.pipeline_base_library,
            material_libraries: Seq::new(
                self.materials@.len(),
                |slot: int| self.materials@[slot].pipeline_library,
            ),
            pipelines: Map::new(
                |mask: u64| self.specialized_pipelines@.contains_key(mask),
                |mask: u64| self.specialized_pipelines@[mask]@,
            ),
        }
    }
}

/// Tests whether a manager can be made of `characteristics` and `raytypes`.
pub fn config_is_valid(characteristics: &RayTracingPipelineCharacteristics, raytypes: &Vec<u32>) -> (ok:
    bool)
    ensures
        ok == config_valid(*characteristics, raytypes@),
{
    if !characteristics.is_well_formed() {
        return false;
    }
    if raytypes.len() > (u32::MAX as usize) / MAX_MATERIALS {
        return false;
    }
    let mut k: usize = 0;
    while k < raytypes.len()
        invariant
            k <= raytypes.len(),
            forall|j: int| 0 <= j < k ==> #[trigger] raytypes@[j] < characteristics.num_raytype,
        decreases raytypes.len() - k,
    {
        if raytypes[k] >= characteristics.num_raytype {
            return false;
        }
        k += 1;
    }
    true
}

/// The library in `value`, if its build has succeeded.
fn ready_handle(value: &Option<DeferredValue<PipelineLibrary>>) -> (library: Option<
    PipelineLibrary,
>)
    ensures
        library is Some == library_is_ready(*value),
        library matches Some(l) ==> l == ready_library(*value),
{
    match value {
        Some(deferred) => match deferred.try_get() {
            Some(library) => Some(*library),
            None => None,
        },
        None => None,
    }
}

fn status<T>(value: &Option<DeferredValue<T>>) -> (status: BuildStatus)
    ensures
        status == status_of(*value),
{
    match value {
        None => BuildStatus::Absent,
        Some(DeferredValue::Pending) => BuildStatus::Pending,
        Some(DeferredValue::Ready(_)) => BuildStatus::Ready,
        Some(DeferredValue::Failed(_)) => BuildStatus::Failed,
    }
}

/// Tests whether some shader in `shaders` runs the asset `shader`.
fn runs_any(shaders: &Vec<SpecializedShader>, shader: ShaderId) -> (found: bool)
    ensures
        found == any_runs(shaders@, shader),
{
    let mut k: usize = 0;
    while k < shaders.len()
        invariant
            k <= shaders.len(),
            forall|j: int| 0 <= j < k ==> (#[trigger] shaders@[j]).shader != shader,
        decreases shaders.len() - k,
    {
        if same_asset(shaders[k].shader, shader) {
            return true;
        }
        k += 1;
    }
    false
}

/// Whether `mask` has a member whose flag in `affected` is set.
spec fn touches_spec(mask: u64, affected: Seq<bool>) -> bool {
    exists|slot: int| 0 <= slot < affected.len() && #[trigger] mask_contains(mask, slot) && affected[slot]
}

fn touches(mask: u64, affected: &Vec<bool>) -> (hit: bool)
    ensures
        hit == touches_spec(mask, affected@),
{
    let mut slot: usize = 0;
    while slot < affected.len()
        invariant
            slot <= affected.len(),
            forall|j: int| 0 <= j < slot ==> !(#[trigger] mask_contains(mask, j) && affected@[j]),
        decreases affected.len() - slot,
    {
        if affected[slot] && mask_has_slot(mask, slot) {
            return true;
        }
        slot += 1;
    }
    false
}

/// The keys of an ordered map come out in ascending order.
proof fn lemma_increasing_keys(keys: Seq<&u64>)
    requires
        vstd::std_specs::btree::increasing_seq(keys),
    ensures
        ascending_masks(keys.unref()),
{
    assert(vstd::laws_cmp::obeys_cmp::<&u64>());
    assert forall|i: int, j: int| 0 <= i < j < keys.len() implies *keys[i] < *keys[j] by {
        assert(OrdSpec::cmp_spec(&keys[i], &keys[j]) is Less);
    }
}

impl RayTracingPipelineManager {
    /// The invariant of the manager, stated of its model.
    pub open spec fn wf(&self) -> bool {
        self@.inv()
    }

    /// The layout that all pipelines of the family share.
    pub fn layout(&self) -> (layout: PipelineLayout)
        ensures
            layout == self@.characteristics.layout,
    {
        self.pipeline_characteristics.layout
    }

    /// A manager for the family `pipeline_characteristics` and the ray
    /// types `raytypes`. Its base stages are the ray generation shader,
    /// then the miss shaders, then the callable shaders.
    pub fn new(
        pipeline_characteristics: Arc<RayTracingPipelineCharacteristics>,
        raytypes: Vec<u32>,
        raygen_shader: SpecializedShader,
        miss_shaders: Vec<SpecializedShader>,
        callable_shaders: Vec<SpecializedShader>,
        strategy: BuildStrategy,
    ) -> (manager: Self)
        requires
            config_valid(*pipeline_characteristics, raytypes@),
        ensures
            manager.wf(),
            manager@ == ManagerView::initial(
                *pipeline_characteristics,
                raytypes@,
                seq![raygen_shader] + miss_shaders@ + callable_shaders@,
                strategy,
            ),
    {
        let count = pipeline_characteristics.material_count();
        let mut materials: Vec<RayTracingPipelineManagerMaterialInfo> = Vec::new();
        let mut slot: usize = 0;
        while slot < count
            invariant
                slot <= count,
                materials@.len() == slot,
                forall|j: int|
                    0 <= j < slot ==> (#[trigger] materials@[j]).instance_count == 0
                        && materials@[j].pipeline_library is None,
            decreases count - slot,
        {
            materials.push(
                RayTracingPipelineManagerMaterialInfo { instance_count: 0, pipeline_library: None },
            );
            slot += 1;
        }
        let mut shaders: Vec<SpecializedShader> = Vec::new();
        shaders.push(raygen_shader);
        let mut k: usize = 0;
        while k < miss_shaders.len()
            invariant
                k <= miss_shaders.len(),
                shaders@ == seq![raygen_shader] + miss_shaders@.take(k as int),
            decreases miss_shaders.len() - k,
        {
            shaders.push(miss_shaders[k]);
            k += 1;
        }
        assert(miss_shaders@.take(k as int) == miss_shaders@);
        let mut k: usize = 0;
        while k < callable_shaders.len()
            invariant
                k <= callable_shaders.len(),
                shaders@ == seq![raygen_shader] + miss_shaders@ + callable_shaders@.take(k as int),
            decreases callable_shaders.len() - k,
        {
            shaders.push(callable_shaders[k]);
            k += 1;
        }
        assert(callable_shaders@.take(k as int) == callable_shaders@);
        let manager = RayTracingPipelineManager {
            raytypes,
            pipeline_base_library: None,
            pipeline_characteristics,
            current_material_flag: 0,
            specialized_pipelines: BTreeMap::new(),
            materials,
            strategy,
            shaders,
        };
        proof {
            lemma_empty_mask();
            assert(manager@ =~= ManagerView::initial(
                *pipeline_characteristics,
                raytypes@,
                seq![raygen_shader] + miss_shaders@ + callable_shaders@,
                strategy,
            ));
        }
        manager
    }

    /// The mask of the materials that have a live instance.
    pub fn activation_mask(&self) -> (mask: u64)
        ensures
            mask == self@.activation_mask,
    {
        self.current_material_flag
    }

    /// The number of materials of the family.
    pub fn material_count(&self) -> (count: usize)
        ensures
            count == self@.material_count(),
    {
        self.pipeline_characteristics.material_count()
    }

    /// The number of live instances of the material `slot`.
    pub fn instance_count(&self, slot: usize) -> (count: usize)
        requires
            self.wf(),
            slot < self@.material_count(),
        ensures
            count == self@.instance_counts[slot as int],
    {
        self.materials[slot].instance_count
    }

    /// The manager's ray types.
    pub fn raytypes(&self) -> (raytypes: &Vec<u32>)
        ensures
            raytypes@ == self@.raytypes,
    {
        &self.raytypes
    }

    /// The base stages: the ray generation shader, the miss shaders and
    /// the callable shaders.
    pub fn shaders(&self) -> (shaders: &Vec<SpecializedShader>)
        ensures
            shaders@ == self@.shaders,
    {
        &self.shaders
    }

    /// The description of the pipeline family.
    pub fn characteristics(&self) -> (characteristics: &RayTracingPipelineCharacteristics)
        ensures
            *characteristics == self@.characteristics,
    {
        &self.pipeline_characteristics
    }

    /// How pipelines are put together.
    pub fn strategy(&self) -> (strategy: BuildStrategy)
        ensures
            strategy == self@.strategy,
    {
        self.strategy
    }

    /// How far the build of the base library has come.
    pub fn base_library_status(&self) -> (status: BuildStatus)
        ensures
            status == status_of(self@.base_library),
    {
        status(&self.pipeline_base_library)
    }

    /// How far the build of the library of the material `slot` has come.
    pub fn material_library_status(&self, slot: usize) -> (status: BuildStatus)
        requires
            self.wf(),
            slot < self@.material_count(),
        ensures
            status == status_of(self@.material_libraries[slot as int]),
    {
        status(&self.materials[slot].pipeline_library)
    }

    /// How far the build of the pipeline of `mask` has come.
    pub fn pipeline_status(&self, mask: u64) -> (status: BuildStatus)
        ensures
            status == self@.pipeline_status(mask),
    {
        match self.specialized_pipelines.get(&mask) {
            Some(entry) => match &entry.pipeline {
                DeferredValue::Pending => BuildStatus::Pending,
                DeferredValue::Ready(_) => BuildStatus::Ready,
                DeferredValue::Failed(_) => BuildStatus::Failed,
            },
            None => BuildStatus::Absent,
        }
    }

    /// The number of hitgroups of a pipeline built for `mask`: one per
    /// member slot and ray type.
    pub fn hitgroup_span(&self, mask: u64) -> (span: usize)
        requires
            self.wf(),
        ensures
            span == hitgroup_span(mask, self@.material_count(), self@.raytypes.len()),
    {
        let raytypes = self.raytypes.len();
        let active = active_slot_count(mask, self.materials.len());
        proof {
            assert(raytypes * active <= raytypes * MAX_MATERIALS) by (nonlinear_arith)
                requires
                    active <= MAX_MATERIALS,
            ;
        }
        raytypes * active
    }

    /// Counts one more instance of the material `slot`. The first instance
    /// puts the slot into the activation mask.
    pub fn material_instance_added(&mut self, slot: usize)
        requires
            old(self).wf(),
            slot < old(self)@.material_count(),
            old(self)@.instance_counts[slot as int] < usize::MAX,
        ensures
            final(self).wf(),
            final(self)@ == old(self)@.added(slot as int),
    {
        if self.materials[slot].instance_count == 0 {
            self.current_material_flag = self.current_material_flag | slot_bit(slot);
        }
        self.materials[slot].instance_count += 1;
        proof {
            lemma_with_slot(old(self).current_material_flag, slot as int);
            assert(self@ =~= old(self)@.added(slot as int));
        }
    }

    /// Counts one instance less of the material `slot`. The last instance
    /// takes the slot out of the activation mask.
    pub fn material_instance_removed(&mut self, slot: usize)
        requires
            old(self).wf(),
            slot < old(self)@.material_count(),
            old(self)@.instance_counts[slot as int] > 0,
        ensures
            final(self).wf(),
            final(self)@ == old(self)@.removed(slot as int),
    {
        self.materials[slot].instance_count -= 1;
        if self.materials[slot].instance_count == 0 {
            self.current_material_flag = self.current_material_flag & !slot_bit(slot);
        }
        proof {
            lemma_without_slot(old(self).current_material_flag, slot as int);
            assert(self@ =~= old(self)@.removed(slot as int));
        }
    }

    /// Starts the build of the base library if its shaders are loaded.
    fn build_base_pipeline_library(
        &mut self,
        shader_store: &ShaderStore,
        requests: &mut Vec<BuildRequest>,
    )
        requires
            old(self)@.base_library is None,
        ensures
            final(self)@ == old(self)@.base_scheduled(shader_store@),
            request_views(final(requests)@) == request_views(old(requests)@) + (if old(
                self,
            )@.schedules_base(shader_store@) {
                seq![BuildRequestView::BaseLibrary]
            } else {
                Seq::empty()
            }),
    {
        if !shader_store.contains_all(&self.shaders) {
            assert(request_views(requests@) =~= request_views(requests@) + Seq::empty());
            return ;
        }
        self.pipeline_base_library = Some(DeferredValue::Pending);
        proof {
            lemma_request_views_push(requests@, BuildRequest::BaseLibrary);
            assert(request_views(requests@).push(BuildRequestView::BaseLibrary) =~= request_views(
                requests@,
            ) + seq![BuildRequestView::BaseLibrary]);
            assert(self@ =~= old(self)@.base_scheduled(shader_store@));
        }
        requests.push(BuildRequest::BaseLibrary);
    }

    /// Starts the build of the library of the material `material_index` if
    /// its hitgroup shaders are loaded.
    fn build_material_pipeline_library(
        &mut self,
        material_index: usize,
        shader_store: &ShaderStore,
        requests: &mut Vec<BuildRequest>,
    )
        requires
            material_index < old(self)@.material_libraries.len(),
            old(self)@.material_libraries.len() == old(self)@.material_count(),
            old(self)@.material_libraries[material_index as int] is None,
        ensures
            final(self)@ == old(self)@.library_scheduled(material_index as int, shader_store@),
            request_views(final(requests)@) == request_views(old(requests)@) + (if old(
                self,
            )@.slot_loaded(material_index as int, shader_store@) {
                seq![BuildRequestView::MaterialLibrary { slot: material_index }]
            } else {
                Seq::empty()
            }),
    {
        if !self.pipeline_characteristics.materials[material_index].is_loaded(
            &self.raytypes,
            shader_store,
        ) {
            assert(request_views(requests@) =~= request_views(requests@) + Seq::empty());
            return ;
        }
        self.materials[material_index].pipeline_library = Some(DeferredValue::Pending);
        proof {
            let request = BuildRequest::MaterialLibrary { slot: material_index };
            lemma_request_views_push(requests@, request);
            assert(request_views(requests@).push(request@) =~= request_views(requests@)
                + seq![request@]);
            assert(self@ =~= old(self)@.library_scheduled(material_index as int, shader_store@));
        }
        requests.push(BuildRequest::MaterialLibrary { slot: material_index });
    }

    /// Composes the pipeline of `material_flag` from libraries. Starts the
    /// builds of the libraries that are missing; once the base library and
    /// the library of every member slot are ready, starts the link and
    /// gives the mask its cache entry.
    fn build_specialized_pipeline_with_libs(
        &mut self,
        material_flag: u64,
        shader_store: &ShaderStore,
        requests: &mut Vec<BuildRequest>,
    )
        requires
            old(self).wf(),
        ensures
            final(self)@ == old(self)@.composed(material_flag, shader_store@),
            request_views(final(requests)@) == request_views(old(requests)@) + old(
                self,
            )@.composition_requests(material_flag, shader_store@),
    {
        let ghost before = self@;
        let ghost loaded = shader_store@;
        let ghost issued = request_views(requests@);
        let count = self.materials.len();
        let mut libs: Vec<PipelineLibrary> = Vec::new();
        let mut ready = true;
        match ready_handle(&self.pipeline_base_library) {
            Some(library) => {
                libs.push(library);
                assert(request_views(requests@) =~= issued + Seq::empty());
            },
            None => {
                ready = false;
                if self.pipeline_base_library.is_none() {
                    self.build_base_pipeline_library(shader_store, requests);
                } else {
                    assert(request_views(requests@) =~= issued + Seq::empty());
                }
            },
        }
        let ghost base_part = if before.schedules_base(loaded) {
            seq![BuildRequestView::BaseLibrary]
        } else {
            Seq::empty()
        };
        assert(self@ =~= before.base_scheduled(loaded));
        assert(request_views(requests@) =~= issued + base_part + before.library_requests(
            material_flag,
            loaded,
            0,
        ));
        let mut slot: usize = 0;
        while slot < count
            invariant
                slot <= count,
                count == before.material_count(),
                before.inv(),
                loaded == shader_store@,
                self@ == (ManagerView {
                    material_libraries: Seq::new(
                        before.material_libraries.len(),
                        |j: int|
                            if j < slot && before.schedules_library(material_flag, j, loaded) {
                                Some(DeferredValue::Pending)
                            } else {
                                before.material_libraries[j]
                            },
                    ),
                    ..before.base_scheduled(loaded)
                }),
                request_views(requests@) == issued + base_part + before.library_requests(
                    material_flag,
                    loaded,
                    slot as int,
                ),
                ready == (library_is_ready(before.base_library) && forall|j: int|
                    0 <= j < slot && #[trigger] before.in_mask(material_flag, j)
                        ==> library_is_ready(before.material_libraries[j])),
                ready ==> libs@ == before.linked_libraries(material_flag, slot as int),
            decreases count - slot,
        {
            let ghost so_far = self@;
            let ghost sent = request_views(requests@);
            assert(so_far.material_libraries[slot as int] == before.material_libraries[slot as int]);
            assert(self.materials@[slot as int].pipeline_library
                == so_far.material_libraries[slot as int]);
            assert(before.in_mask(material_flag, slot as int) == mask_contains(
                material_flag,
                slot as int,
            ));
            if mask_has_slot(material_flag, slot) {
                match ready_handle(&self.materials[slot].pipeline_library) {
                    Some(library) => {
                        libs.push(library);
                    },
                    None => {
                        ready = false;
                        if self.materials[slot].pipeline_library.is_none() {
                            self.build_material_pipeline_library(slot, shader_store, requests);
                        }
                    },
                }
            }
            proof {
                let step = if before.schedules_library(material_flag, slot as int, loaded) {
                    seq![BuildRequestView::MaterialLibrary { slot }]
                } else {
                    Seq::empty()
                };
                assert(so_far.slot_loaded(slot as int, loaded) == before.slot_loaded(
                    slot as int,
                    loaded,
                ));
                assert(sent + Seq::<BuildRequestView>::empty() =~= sent);
                assert(request_views(requests@) =~= sent + step);
                assert(before.library_requests(material_flag, loaded, slot + 1)
                    =~= before.library_requests(material_flag, loaded, slot as int) + step);
                assert(request_views(requests@) =~= issued + base_part + before.library_requests(
                    material_flag,
                    loaded,
                    slot + 1,
                ));
                assert(self@ =~= (ManagerView {
                    material_libraries: Seq::new(
                        before.material_libraries.len(),
                        |j: int|
                            if j < slot + 1 && before.schedules_library(material_flag, j, loaded) {
                                Some(DeferredValue::Pending)
                            } else {
                                before.material_libraries[j]
                            },
                    ),
                    ..before.base_scheduled(loaded)
                }));
            }
            slot += 1;
        }
        assert(ready == before.libraries_ready(material_flag));
        if !ready {
            proof {
                assert(self@ =~= before.composed(material_flag, loaded));
                assert(request_views(requests@) =~= issued + before.composition_requests(
                    material_flag,
                    loaded,
                ));
            }
            return ;
        }
        let hitgroup_mapping = build_hitgroup_mapping(material_flag, count, self.raytypes.len());
        let request = BuildRequest::LinkPipeline { mask: material_flag, libraries: libs };
        proof {
            lemma_request_views_push(requests@, request);
            assert(request_views(requests@.push(request)) =~= issued
                + before.composition_requests(material_flag, loaded));
        }
        requests.push(request);
        self.specialized_pipelines.insert(
            material_flag,
            RayTracingPipelineManagerSpecializedPipelineDeferred {
                pipeline: DeferredValue::Pending,
                hitgroup_mapping,
            },
        );
        assert(self@ =~= before.composed(material_flag, loaded));
    }

    /// Builds the pipeline of `material_flag` in one piece. Once the base
    /// shaders and the hitgroup shaders of every member slot are loaded,
    /// starts the build and gives the mask its cache entry.
    fn build_specialized_pipeline_native(
        &mut self,
        material_flag: u64,
        shader_store: &ShaderStore,
        requests: &mut Vec<BuildRequest>,
    )
        requires
            old(self).wf(),
        ensures
            final(self)@ == old(self)@.built_natively(material_flag, shader_store@),
            request_views(final(requests)@) == request_views(old(requests)@) + old(
                self,
            )@.native_requests(material_flag, shader_store@),
    {
        let ghost before = self@;
        let ghost loaded = shader_store@;
        let ghost issued = request_views(requests@);
        proof {
            assert(issued + Seq::<BuildRequestView>::empty() =~= issued);
        }
        if !shader_store.contains_all(&self.shaders) {
            return ;
        }
        let count = self.materials.len();
        let mut slots: Vec<usize> = Vec::new();
        let mut slot: usize = 0;
        while slot < count
            invariant
                slot <= count,
                count == before.material_count(),
                before.inv(),
                self@ == before,
                loaded == shader_store@,
                requests@ == old(requests)@,
                issued + Seq::<BuildRequestView>::empty() == issued,
                issued == request_views(requests@),
                slots@ == active_slots(material_flag, slot as int),
                forall|j: int|
                    0 <= j < slot && #[trigger] before.in_mask(material_flag, j)
                        ==> before.slot_loaded(j, loaded),
            decreases count - slot,
        {
            if mask_has_slot(material_flag, slot) {
                if !self.pipeline_characteristics.materials[slot].is_loaded(
                    &self.raytypes,
                    shader_store,
                ) {
                    assert(before.in_mask(material_flag, slot as int));
                    return ;
                }
                slots.push(slot);
            }
            slot += 1;
        }
        assert(before.shaders_ready(material_flag, loaded));
        let hitgroup_mapping = build_hitgroup_mapping(material_flag, count, self.raytypes.len());
        let request = BuildRequest::NativePipeline { mask: material_flag, slots };
        proof {
            lemma_request_views_push(requests@, request);
            assert(request_views(requests@.push(request)) =~= issued + before.native_requests(
                material_flag,
                loaded,
            ));
        }
        requests.push(request);
        self.specialized_pipelines.insert(
            material_flag,
            RayTracingPipelineManagerSpecializedPipelineDeferred {
                pipeline: DeferredValue::Pending,
                hitgroup_mapping,
            },
        );
        assert(self@ =~= before.built_natively(material_flag, loaded));
    }

    /// Attempts to build the pipeline of `material_flag`, by the manager's
    /// strategy.
    fn build_specialized_pipeline(
        &mut self,
        material_flag: u64,
        shader_store: &ShaderStore,
        requests: &mut Vec<BuildRequest>,
    )
        requires
            old(self).wf(),
            mask_within(material_flag, old(self)@.material_count() as int),
        ensures
            final(self).wf(),
            final(self)@ == old(self)@.scheduled(material_flag, shader_store@),
            request_views(final(requests)@) == request_views(old(requests)@) + old(
                self,
            )@.schedule_requests(material_flag, shader_store@),
    {
        proof {
            lemma_scheduled_keeps_inv(self@, material_flag, shader_store@);
        }
        match self.strategy {
            BuildStrategy::LibraryComposition => {
                self.build_specialized_pipeline_with_libs(material_flag, shader_store, requests)
            },
            BuildStrategy::Monolithic => {
                self.build_specialized_pipeline_native(material_flag, shader_store, requests)
            },
        }
    }

    /// The mask of all materials of the family.
    pub fn full_material_mask(&self) -> (mask: u64)
        requires
            self.wf(),
        ensures
            mask == self@.full_mask(),
    {
        full_material_mask(self.pipeline_characteristics.material_count())
    }

    /// Chooses the pipeline for the current frame, and starts what is
    /// missing. Never waits.
    ///
    /// Unless the cache has an entry for the activation mask, a build for
    /// it is attempted; then, unless the activation mask is the full mask
    /// or the cache has an entry for that, one for the full mask. The
    /// requests come back for the caller to start. The pipeline of the
    /// activation mask is returned if it is ready; else that of the full
    /// mask, as a fallback, if it is; else nothing.
    pub fn get_pipeline(&mut self, shader_store: &ShaderStore) -> (result: (
        Vec<BuildRequest>,
        Option<RayTracingPipelineManagerSpecializedPipeline<'_>>,
    ))
        requires
            old(self).wf(),
        ensures
            final(self).wf(),
            final(self)@ == old(self)@.polled(shader_store@),
            request_views(result.0@) == old(self)@.poll_requests(shader_store@),
            final(self)@.selected() == old(self)@.selected(),
            match old(self)@.selected() {
                Some(selection) => result.1 matches Some(chosen) && chosen.wf() && chosen.shows(
                    final(self)@,
                    selection,
                ),
                None => result.1 is None,
            },
    {
        let ghost before = self@;
        let ghost loaded = shader_store@;
        let mut requests: Vec<BuildRequest> = Vec::new();
        let full_material_mask = self.full_material_mask();
        let current = self.current_material_flag;
        proof {
            lemma_masks_within(before);
            lemma_polled_keeps_inv(before, loaded);
            lemma_poll_keeps_selection(before, loaded);
            assert(request_views(requests@) =~= Seq::empty());
        }
        if !self.specialized_pipelines.contains_key(&current) {
            self.build_specialized_pipeline(current, shader_store, &mut requests);
            assert(request_views(requests@) =~= before.schedule_requests(current, loaded));
        }
        assert(self@ == before.polled_exact(loaded));
        let ghost first = request_views(requests@);
        if full_material_mask != current && !self.specialized_pipelines.contains_key(
            &full_material_mask,
        ) {
            self.build_specialized_pipeline(full_material_mask, shader_store, &mut requests);
        }
        assert(self@ == before.polled(loaded));
        assert(request_views(requests@) == before.poll_requests(loaded));
        let layout = self.pipeline_characteristics.layout;
        proof {
            lemma_selection_resolves(self@);
        }
        match self.specialized_pipelines.get(&current) {
            Some(entry) => {
                match entry.pipeline.try_get() {
                    Some(pipeline) => {
                        return (
                            requests,
                            Some(
                                RayTracingPipelineManagerSpecializedPipeline {
                                    layout,
                                    pipeline,
                                    hitgroup_mapping: &entry.hitgroup_mapping,
                                    raytypes: &self.raytypes,
                                    fallback: false,
                                },
                            ),
                        );
                    },
                    None => {},
                }
            },
            None => {},
        }
        if full_material_mask != current {
            match self.specialized_pipelines.get(&full_material_mask) {
                Some(entry) => {
                    match entry.pipeline.try_get() {
                        Some(pipeline) => {
                            return (
                                requests,
                                Some(
                                    RayTracingPipelineManagerSpecializedPipeline {
                                        layout,
                                        pipeline,
                                        hitgroup_mapping: &entry.hitgroup_mapping,
                                        raytypes: &self.raytypes,
                                        fallback: true,
                                    },
                                ),
                            );
                        },
                        None => {},
                    }
                },
                None => {},
            }
        }
        (requests, None)
    }

    /// Records how the build of the base library ended. The outcome is
    /// taken if that build is pending; if not (the library was dropped
    /// meanwhile) nothing changes, and the result says so.
    pub fn base_library_built(&mut self, outcome: Result<PipelineLibrary, BuildError>) -> (taken:
        bool)
        requires
            old(self).wf(),
        ensures
            final(self).wf(),
            final(self)@ == old(self)@.base_resolved(outcome),
            taken == (old(self)@.base_library matches Some(DeferredValue::Pending)),
    {
        proof {
            lemma_resolved_keeps_inv(self@, 0, 0, outcome, Err(BuildError::HandleTableMismatch));
        }
        let taken = match &mut self.pipeline_base_library {
            Some(value) => value.resolve(outcome),
            None => false,
        };
        assert(self@ =~= old(self)@.base_resolved(outcome));
        taken
    }

    /// Records how the build of the library of the material `slot` ended.
    /// The outcome is taken if that build is pending; if not, nothing
    /// changes, and the result says so.
    pub fn material_library_built(
        &mut self,
        slot: usize,
        outcome: Result<PipelineLibrary, BuildError>,
    ) -> (taken: bool)
        requires
            old(self).wf(),
        ensures
            final(self).wf(),
            final(self)@ == old(self)@.library_resolved(slot as int, outcome),
            taken == (slot < old(self)@.material_count() && old(self)@.material_libraries[slot as int]
                matches Some(DeferredValue::Pending)),
    {
        proof {
            lemma_resolved_keeps_inv(
                self@,
                slot as int,
                0,
                outcome,
                Err(BuildError::HandleTableMismatch),
            );
        }
        if slot >= self.materials.len() {
            return false;
        }
        let taken = match &mut self.materials[slot].pipeline_library {
            Some(value) => value.resolve(outcome),
            None => false,
        };
        assert(self@ =~= old(self)@.library_resolved(slot as int, outcome));
        taken
    }

    /// Records how the build of the pipeline of `mask` ended. The outcome
    /// is taken if the cache has a pending entry for `mask`; if not,
    /// nothing changes, and the result says so. A pipeline whose handle
    /// table does not hold one record per hitgroup counts as failed.
    pub fn pipeline_built(&mut self, mask: u64, outcome: Result<FinalizedPipeline, BuildError>) -> (taken:
        bool)
        requires
            old(self).wf(),
        ensures
            final(self).wf(),
            final(self)@ == old(self)@.pipeline_resolved(mask, outcome),
            taken == (old(self)@.pipelines.contains_key(mask) && old(self)@.pipelines[mask].pipeline
                is Pending),
    {
        let ghost before = self@;
        proof {
            lemma_resolved_keeps_inv(self@, 0, mask, Err(BuildError::HandleTableMismatch), outcome);
        }
        let span = self.hitgroup_span(mask);
        match self.specialized_pipelines.remove(&mask) {
            None => {
                assert(self@ =~= before);
                false
            },
            Some(entry) => {
                let mut entry = entry;
                let checked = match outcome {
                    Ok(pipeline) => {
                        if pipeline.sbt_handles.hitgroup_count() == span {
                            Ok(pipeline)
                        } else {
                            Err(BuildError::HandleTableMismatch)
                        }
                    },
                    Err(error) => Err(error),
                };
                let taken = entry.pipeline.resolve(checked);
                self.specialized_pipelines.insert(mask, entry);
                assert(self@ =~= before.pipeline_resolved(mask, outcome));
                taken
            },
        }
    }

    /// Counts one more instance of the material `slot`, if there is such
    /// a material and the count can grow.
    pub fn try_material_instance_added(&mut self, slot: usize) -> (result: Result<
        (),
        ActivationError,
    >)
        requires
            old(self).wf(),
        ensures
            final(self).wf(),
            match result {
                Ok(_) => slot < old(self)@.material_count() && old(self)@.instance_counts[slot as int]
                    < usize::MAX && final(self)@ == old(self)@.added(slot as int),
                Err(ActivationError::UnknownMaterial) => slot >= old(self)@.material_count()
                    && final(self)@ == old(self)@,
                Err(ActivationError::TooManyInstances) => slot < old(self)@.material_count() && old(
                    self,
                )@.instance_counts[slot as int] == usize::MAX && final(self)@ == old(self)@,
                Err(ActivationError::NoLiveInstance) => false,
            },
    {
        if slot >= self.materials.len() {
            return Err(ActivationError::UnknownMaterial);
        }
        if self.materials[slot].instance_count == usize::MAX {
            return Err(ActivationError::TooManyInstances);
        }
        self.material_instance_added(slot);
        Ok(())
    }

    /// Counts one instance less of the material `slot`, if there is such
    /// a material and it has a live instance.
    pub fn try_material_instance_removed(&mut self, slot: usize) -> (result: Result<
        (),
        ActivationError,
    >)
        requires
            old(self).wf(),
        ensures
            final(self).wf(),
            match result {
                Ok(_) => slot < old(self)@.material_count() && old(self)@.instance_counts[slot as int]
                    > 0 && final(self)@ == old(self)@.removed(slot as int),
                Err(ActivationError::UnknownMaterial) => slot >= old(self)@.material_count()
                    && final(self)@ == old(self)@,
                Err(ActivationError::NoLiveInstance) => slot < old(self)@.material_count() && old(
                    self,
                )@.instance_counts[slot as int] == 0 && final(self)@ == old(self)@,
                Err(ActivationError::TooManyInstances) => false,
            },
    {
        if slot >= self.materials.len() {
            return Err(ActivationError::UnknownMaterial);
        }
        if self.materials[slot].instance_count == 0 {
            return Err(ActivationError::NoLiveInstance);
        }
        self.material_instance_removed(slot);
        Ok(())
    }

    /// The masks that have a cache entry, ascending.
    fn cached_masks(&self) -> (masks: Vec<u64>)
        ensures
            ascending_masks(masks@),
            forall|mask: u64| masks@.contains(mask) <==> self@.pipelines.contains_key(mask),
    {
        let mut masks: Vec<u64> = Vec::new();
        let ghost keys = self.specialized_pipelines.keys().remaining();
        assert(keys.unref().to_set() == self.specialized_pipelines@.dom());
        for mask in it: self.specialized_pipelines.keys()
            invariant
                it.seq() == keys,
                masks@ == keys.take(it.index() as int).unref(),
        {
            masks.push(*mask);
        }
        proof {
            assert(masks@ == keys.unref());
            lemma_increasing_keys(keys);
            assert forall|mask: u64| masks@.contains(mask) <==> self@.pipelines.contains_key(
                mask,
            ) by {
                assert(masks@.to_set().contains(mask) == masks@.contains(mask));
            }
        }
        masks
    }

    /// Drops what the change of the shader asset `shader` has made stale,
    /// and says what was dropped.
    ///
    /// If `shader` is one of the base stages, the base library and every
    /// cache entry go. The library of each material one of whose hitgroups
    /// runs `shader` goes, and with it every cache entry whose mask holds
    /// that material. Everything else stays as it is.
    pub fn shader_updated(&mut self, shader: ShaderId) -> (dropped: Invalidation)
        requires
            old(self).wf(),
        ensures
            final(self).wf(),
            final(self)@ == old(self)@.invalidated(shader),
            dropped.reports(old(self)@, shader),
    {
        let ghost before = self@;
        proof {
            lemma_invalidated_keeps_inv(before, shader);
        }
        let mut dropped = Invalidation {
            base_library: false,
            material_libraries: Vec::new(),
            pipelines: Vec::new(),
        };
        let base_hit = runs_any(&self.shaders, shader);
        if base_hit {
            dropped.base_library = self.pipeline_base_library.is_some();
            self.pipeline_base_library = None;
        }
        let count = self.materials.len();
        let mut affected: Vec<bool> = Vec::new();
        let mut slot: usize = 0;
        while slot < count
            invariant
                slot <= count,
                count == before.material_count(),
                before.inv(),
                affected@.len() == slot,
                forall|j: int|
                    0 <= j < slot ==> affected@[j] == #[trigger] before.slot_affected(j, shader),
                self@ == (ManagerView {
                    base_library: before.invalidated(shader).base_library,
                    material_libraries: Seq::new(
                        before.material_libraries.len(),
                        |j: int|
                            if j < slot && before.slot_affected(j, shader) {
                                None
                            } else {
                                before.material_libraries[j]
                            },
                    ),
                    ..before
                }),
                dropped.base_library == (base_hit && before.base_library is Some),
                dropped.pipelines@.len() == 0,
                ascending_slots(dropped.material_libraries@),
                forall|j: int|
                    0 <= j < dropped.material_libraries@.len()
                        ==> dropped.material_libraries@[j] < slot,
                forall|s: usize| #[trigger]
                    dropped.material_libraries@.contains(s) <==> s < slot && before.slot_affected(
                        s as int,
                        shader,
                    ) && before.material_libraries[s as int] is Some,
            decreases count - slot,
        {
            let ghost listed = dropped.material_libraries@;
            let hit = self.pipeline_characteristics.materials[slot].uses_shader(shader);
            let ghost so_far = self@;
            assert(so_far.material_libraries.len() == count);
            assert(so_far.material_libraries[slot as int] == before.material_libraries[slot as int]);
            assert(self.materials@[slot as int].pipeline_library
                == so_far.material_libraries[slot as int]);
            assert(hit == before.slot_affected(slot as int, shader));
            affected.push(hit);
            if hit {
                if self.materials[slot].pipeline_library.is_some() {
                    proof {
                        lemma_contains_after_push(listed, slot);
                    }
                    dropped.material_libraries.push(slot);
                }
                self.materials[slot].pipeline_library = None;
            }
            assert forall|s: usize| #[trigger]
                dropped.material_libraries@.contains(s) <==> s < slot + 1 && before.slot_affected(
                    s as int,
                    shader,
                ) && before.material_libraries[s as int] is Some by {
                assert(listed.contains(s) <==> s < slot && before.slot_affected(s as int, shader)
                    && before.material_libraries[s as int] is Some);
                if dropped.material_libraries@ != listed {
                    assert(listed.push(slot).contains(s) <==> listed.contains(s) || s == slot);
                }
            }
            slot += 1;
            let ghost expected = ManagerView {
                base_library: before.invalidated(shader).base_library,
                material_libraries: Seq::new(
                    before.material_libraries.len(),
                    |j: int|
                        if j < slot && before.slot_affected(j, shader) {
                            None
                        } else {
                            before.material_libraries[j]
                        },
                ),
                ..before
            };
            assert forall|j: int| 0 <= j < count implies #[trigger] self@.material_libraries[j]
                == expected.material_libraries[j] by {
                assert(so_far.material_libraries[j] == (if j < slot - 1 && before.slot_affected(
                    j,
                    shader,
                ) {
                    None
                } else {
                    before.material_libraries[j]
                }));
            }
            assert(self@ =~= expected);
        }
        let ghost midway = self@;
        let ghost slots_listed = dropped.material_libraries@;
        let masks = self.cached_masks();
        let mut k: usize = 0;
        while k < masks.len()
            invariant
                k <= masks@.len(),
                before.inv(),
                count == before.material_count(),
                affected@.len() == count,
                forall|j: int|
                    0 <= j < count ==> affected@[j] == #[trigger] before.slot_affected(j, shader),
                base_hit == any_runs(before.shaders, shader),
                ascending_masks(masks@),
                forall|mask: u64| masks@.contains(mask) <==> before.pipelines.contains_key(mask),
                self@ == (ManagerView {
                    pipelines: Map::new(
                        |mask: u64|
                            before.pipelines.contains_key(mask) && !(masks@.take(
                                k as int,
                            ).contains(mask) && (base_hit || before.mask_affected(mask, shader))),
                        |mask: u64| before.pipelines[mask],
                    ),
                    ..midway
                }),
                dropped.base_library == (base_hit && before.base_library is Some),
                dropped.material_libraries@ == slots_listed,
                ascending_masks(dropped.pipelines@),
                forall|j: int|
                    0 <= j < dropped.pipelines@.len() && k < masks@.len() ==> dropped.pipelines@[j]
                        < masks@[k as int],
                forall|mask: u64| #[trigger]
                    dropped.pipelines@.contains(mask) <==> masks@.take(k as int).contains(mask) && (
                    base_hit || before.mask_affected(mask, shader)),
            decreases masks@.len() - k,
        {
            let mask = masks[k];
            let ghost listed = dropped.pipelines@;
            let ghost seen = masks@.take(k as int);
            let ghost so_far = self@;
            assert(masks@.take(k + 1) =~= seen.push(mask));
            assert(masks@.contains(mask));
            assert(!seen.contains(mask));
            let stale = base_hit || touches(mask, &affected);
            proof {
                if before.mask_affected(mask, shader) {
                    let s = choose|s: int| #[trigger]
                        mask_contains(mask, s) && before.slot_affected(s, shader);
                    assert(mask_contains(mask, s) && affected@[s]);
                }
                if touches_spec(mask, affected@) {
                    let s = choose|s: int|
                        0 <= s < affected@.len() && #[trigger] mask_contains(mask, s)
                            && affected@[s];
                    assert(before.slot_affected(s, shader));
                }
                assert(stale == (base_hit || before.mask_affected(mask, shader)));
                lemma_contains_after_push(seen, mask);
            }
            if stale {
                proof {
                    lemma_contains_after_push(listed, mask);
                }
                self.specialized_pipelines.remove(&mask);
                dropped.pipelines.push(mask);
            }
            assert forall|m: u64| #[trigger]
                dropped.pipelines@.contains(m) <==> masks@.take(k + 1).contains(m) && (base_hit
                    || before.mask_affected(m, shader)) by {
                assert(listed.contains(m) <==> seen.contains(m) && (base_hit
                    || before.mask_affected(m, shader)));
                assert(seen.push(mask).contains(m) <==> seen.contains(m) || m == mask);
                if stale {
                    assert(listed.push(mask).contains(m) <==> listed.contains(m) || m == mask);
                }
            }
            k += 1;
            proof {
                let expected = ManagerView {
                    pipelines: Map::new(
                        |m: u64|
                            before.pipelines.contains_key(m) && !(masks@.take(k as int).contains(m)
                                && (base_hit || before.mask_affected(m, shader))),
                        |m: u64| before.pipelines[m],
                    ),
                    ..midway
                };
                assert forall|m: u64| #[trigger]
                    self@.pipelines.contains_key(m) == expected.pipelines.contains_key(m) by {
                    assert(so_far.pipelines.contains_key(m) == (before.pipelines.contains_key(m)
                        && !(seen.contains(m) && (base_hit || before.mask_affected(m, shader)))));
                    assert(seen.push(mask).contains(m) <==> seen.contains(m) || m == mask);
                }
                assert forall|m: u64| #[trigger]
                    self@.pipelines.contains_key(m) implies self@.pipelines[m]
                    == expected.pipelines[m] by {
                    assert(so_far.pipelines.contains_key(m));
                    assert(so_far.pipelines[m] == before.pipelines[m]);
                }
                assert(self@.pipelines =~= expected.pipelines);
                assert(self@.instance_counts =~= expected.instance_counts);
                assert(self@.material_libraries =~= expected.material_libraries);
                assert(self@ =~= expected);
            }
        }
        proof {
            assert(masks@.take(k as int) =~= masks@);
            assert(self@ =~= before.invalidated(shader));
        }
        dropped
    }
}

} // verus!
