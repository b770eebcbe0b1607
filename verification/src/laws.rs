//! What holds of the model: every operation keeps the invariant, and the
//! properties that relate several operations.

use crate::deferred::BuildError;
use crate::hitgroup::{
    hitgroup_base, hitgroup_span, lemma_active_below_gap, lemma_hitgroup_base_bound,
    lemma_hitgroup_range_within_span, lemma_hitgroup_ranges_contiguous,
    lemma_hitgroup_ranges_ordered, lemma_hitgroup_ranges_start,
};
use crate::mask::{
    active_below, lemma_full_mask, lemma_with_slot, lemma_without_slot, mask_contains,
    mask_within, MAX_MATERIALS,
};
use crate::model::{
    library_is_ready, BuildRequestView, BuildStrategy, ManagerView, Selection,
    SpecializedPipelineView,
};
use crate::sbt::{lemma_hitgroup_record, FinalizedPipeline, PipelineLibrary};
use crate::shader::{any_runs, ShaderId};
use vstd::prelude::*;

verus! {

/// Counting an instance keeps the invariant.
pub proof fn lemma_added_keeps_inv(state: ManagerView, slot: int)
    requires
        state.inv(),
        0 <= slot < state.material_count(),
    ensures
        state.added(slot).inv(),
{
    lemma_with_slot(state.activation_mask, slot);
    let next = state.added(slot);
    assert forall|mask: u64| #[trigger] next.pipelines.contains_key(mask) implies next.entry_inv(
        mask,
    ) by {
        assert(state.entry_inv(mask));
    }
}

/// Discounting an instance keeps the invariant.
pub proof fn lemma_removed_keeps_inv(state: ManagerView, slot: int)
    requires
        state.inv(),
        0 <= slot < state.material_count(),
        state.instance_counts[slot] > 0,
    ensures
        state.removed(slot).inv(),
{
    lemma_without_slot(state.activation_mask, slot);
    let next = state.removed(slot);
    assert forall|mask: u64| #[trigger] next.pipelines.contains_key(mask) implies next.entry_inv(
        mask,
    ) by {
        assert(state.entry_inv(mask));
    }
}

/// The activation mask and the full mask name materials only.
pub proof fn lemma_masks_within(state: ManagerView)
    requires
        state.inv(),
    ensures
        mask_within(state.activation_mask, state.material_count() as int),
        mask_within(state.full_mask(), state.material_count() as int),
{
    lemma_full_mask(state.material_count() as int);
}

/// An attempt to build the pipeline of a mask keeps the invariant.
pub proof fn lemma_scheduled_keeps_inv(state: ManagerView, mask: u64, loaded: Set<ShaderId>)
    requires
        state.inv(),
        mask_within(mask, state.material_count() as int),
    ensures
        state.scheduled(mask, loaded).inv(),
        state.composed(mask, loaded).inv(),
        state.built_natively(mask, loaded).inv(),
{
    let composed = state.composed(mask, loaded);
    assert forall|m: u64| #[trigger] composed.pipelines.contains_key(m) implies composed.entry_inv(
        m,
    ) by {
        if m != mask || !state.libraries_ready(mask) {
            assert(state.entry_inv(m));
        }
    }
    let native = state.built_natively(mask, loaded);
    assert forall|m: u64| #[trigger] native.pipelines.contains_key(m) implies native.entry_inv(
        m,
    ) by {
        if m != mask || !state.shaders_ready(mask, loaded) {
            assert(state.entry_inv(m));
        }
    }
}

/// A query keeps the invariant.
pub proof fn lemma_polled_keeps_inv(state: ManagerView, loaded: Set<ShaderId>)
    requires
        state.inv(),
    ensures
        state.polled_exact(loaded).inv(),
        state.polled(loaded).inv(),
{
    lemma_masks_within(state);
    lemma_scheduled_keeps_inv(state, state.activation_mask, loaded);
    let first = state.polled_exact(loaded);
    lemma_scheduled_keeps_inv(first, state.full_mask(), loaded);
}

/// The end of a build keeps the invariant.
pub proof fn lemma_resolved_keeps_inv(
    state: ManagerView,
    slot: int,
    mask: u64,
    library: Result<PipelineLibrary, BuildError>,
    pipeline: Result<FinalizedPipeline, BuildError>,
)
    requires
        state.inv(),
    ensures
        state.base_resolved(library).inv(),
        state.library_resolved(slot, library).inv(),
        state.pipeline_resolved(mask, pipeline).inv(),
{
    let a = state.base_resolved(library);
    assert forall|m: u64| #[trigger] a.pipelines.contains_key(m) implies a.entry_inv(m) by {
        assert(state.entry_inv(m));
    }
    let b = state.library_resolved(slot, library);
    assert forall|m: u64| #[trigger] b.pipelines.contains_key(m) implies b.entry_inv(m) by {
        assert(state.entry_inv(m));
    }
    let c = state.pipeline_resolved(mask, pipeline);
    assert forall|m: u64| #[trigger] c.pipelines.contains_key(m) implies c.entry_inv(m) by {
        assert(state.pipelines.contains_key(m));
        assert(state.entry_inv(m));
    }
}

/// An invalidation keeps the invariant.
pub proof fn lemma_invalidated_keeps_inv(state: ManagerView, shader: ShaderId)
    requires
        state.inv(),
    ensures
        state.invalidated(shader).inv(),
{
    let next = state.invalidated(shader);
    assert forall|m: u64| #[trigger] next.pipelines.contains_key(m) implies next.entry_inv(m) by {
        assert(state.pipelines.contains_key(m));
        assert(state.entry_inv(m));
    }
}

/// A query starts builds and completes none: it selects what was selected
/// before it.
pub proof fn lemma_poll_keeps_selection(state: ManagerView, loaded: Set<ShaderId>)
    requires
        state.inv(),
    ensures
        state.polled(loaded).selected() == state.selected(),
        forall|mask: u64| state.polled(loaded).is_ready(mask) == state.is_ready(mask),
        forall|mask: u64| #[trigger]
            state.is_ready(mask) ==> state.polled(loaded).pipelines[mask] == state.pipelines[mask],
{
}

/// A query takes nothing out of the cache and leaves every entry of it as
/// it was: a build that failed stays failed, one that is pending stays
/// pending.
pub proof fn lemma_poll_keeps_entries(state: ManagerView, loaded: Set<ShaderId>, mask: u64)
    requires
        state.inv(),
        state.pipelines.contains_key(mask),
    ensures
        state.polled(loaded).pipelines.contains_key(mask),
        state.polled(loaded).pipelines[mask] == state.pipelines[mask],
{
}

/// In the entry that a state selects, every material of the mapping has
/// one handle record per ray type.
pub proof fn lemma_selection_resolves(state: ManagerView)
    requires
        state.inv(),
    ensures
        forall|mask: u64, slot: u32| #[trigger]
            state.is_ready(mask) && #[trigger] state.pipelines[mask].hitgroup_mapping.contains_key(
                slot,
            ) ==> state.pipelines[mask].hitgroup_mapping[slot] + state.raytypes.len()
                <= state.pipelines[mask].pipeline->Ready_0.sbt_handles@.hitgroup_count(),
{
    assert forall|mask: u64, slot: u32| #[trigger]
        state.is_ready(mask) && #[trigger] state.pipelines[mask].hitgroup_mapping.contains_key(
            slot,
        ) implies state.pipelines[mask].hitgroup_mapping[slot] + state.raytypes.len()
        <= state.pipelines[mask].pipeline->Ready_0.sbt_handles@.hitgroup_count() by {
        assert(state.entry_inv(mask));
        lemma_hitgroup_range_within_span(
            mask,
            state.material_count(),
            state.raytypes.len(),
            slot as int,
        );
        lemma_hitgroup_base_fits(mask, state.raytypes.len(), slot as int);
    }
}

proof fn lemma_hitgroup_base_fits(mask: u64, raytypes: nat, slot: int)
    requires
        0 <= slot < MAX_MATERIALS,
        raytypes * MAX_MATERIALS <= u32::MAX,
    ensures
        hitgroup_base(mask, slot, raytypes) <= u32::MAX,
{
    lemma_hitgroup_base_bound(mask, raytypes, slot);
}

// Activation

/// One call of the activation tracker.
pub enum ActivationOp {
    Added { slot: int },
    Removed { slot: int },
}

/// The state after the calls `ops`, made in their order from `state`.
pub open spec fn replay(state: ManagerView, ops: Seq<ActivationOp>) -> ManagerView
    decreases ops.len(),
{
    if ops.len() == 0 {
        state
    } else {
        let earlier = replay(state, ops.drop_last());
        match ops.last() {
            ActivationOp::Added { slot } => earlier.added(slot),
            ActivationOp::Removed { slot } => earlier.removed(slot),
        }
    }
}

/// Whether the calls `ops` may be made in their order from `state`: each
/// names a material, and each removal finds a live instance.
pub open spec fn replayable(state: ManagerView, ops: Seq<ActivationOp>) -> bool
    decreases ops.len(),
{
    if ops.len() == 0 {
        true
    } else {
        let earlier = replay(state, ops.drop_last());
        &&& replayable(state, ops.drop_last())
        &&& match ops.last() {
            ActivationOp::Added { slot } => 0 <= slot < state.material_count(),
            ActivationOp::Removed { slot } => 0 <= slot < state.material_count()
                && earlier.instance_counts[slot] > 0,
        }
    }
}

/// The additions of `slot` in `ops` minus its removals.
pub open spec fn net_instances(ops: Seq<ActivationOp>, slot: int) -> int
    decreases ops.len(),
{
    if ops.len() == 0 {
        0
    } else {
        net_instances(ops.drop_last(), slot) + match ops.last() {
            ActivationOp::Added { slot: s } => if s == slot {
                1int
            } else {
                0int
            },
            ActivationOp::Removed { slot: s } => if s == slot {
                -1int
            } else {
                0int
            },
        }
    }
}

/// After any sequence of additions and removals, the count of each
/// material is what it was plus its additions minus its removals, and the
/// material is in the activation mask if and only if that count is
/// positive.
pub proof fn lemma_activation_follows_counts(state: ManagerView, ops: Seq<ActivationOp>)
    requires
        state.inv(),
        replayable(state, ops),
    ensures
        replay(state, ops).inv(),
        replay(state, ops).characteristics == state.characteristics,
        forall|slot: int|
            0 <= slot < state.material_count() ==> #[trigger] replay(
                state,
                ops,
            ).instance_counts[slot] == state.instance_counts[slot] + net_instances(ops, slot),
        forall|slot: int|
            0 <= slot < state.material_count() ==> (#[trigger] mask_contains(
                replay(state, ops).activation_mask,
                slot,
            ) <==> state.instance_counts[slot] + net_instances(ops, slot) > 0),
    decreases ops.len(),
{
    if ops.len() > 0 {
        lemma_activation_follows_counts(state, ops.drop_last());
        let earlier = replay(state, ops.drop_last());
        match ops.last() {
            ActivationOp::Added { slot } => {
                lemma_added_keeps_inv(earlier, slot);
            },
            ActivationOp::Removed { slot } => {
                lemma_removed_keeps_inv(earlier, slot);
            },
        }
    }
}

/// From a new manager, a material is in the activation mask if and only
/// if it was added more often than it was removed.
pub proof fn lemma_activation_from_start(state: ManagerView, ops: Seq<ActivationOp>, slot: int)
    requires
        state.inv(),
        state == ManagerView::initial(
            state.characteristics,
            state.raytypes,
            state.shaders,
            state.strategy,
        ),
        replayable(state, ops),
    ensures
        mask_contains(replay(state, ops).activation_mask, slot) <==> 0 <= slot
            < state.material_count() && net_instances(ops, slot) > 0,
{
    lemma_activation_follows_counts(state, ops);
}

// Queries

/// Whether nothing is left to start for `mask`: no build of the base
/// library and none of the library of a member slot would start.
pub open spec fn settled(state: ManagerView, mask: u64, loaded: Set<ShaderId>) -> bool {
    &&& !state.schedules_base(loaded)
    &&& forall|slot: int| !#[trigger] state.schedules_library(mask, slot, loaded)
}

proof fn lemma_no_library_requests(state: ManagerView, mask: u64, loaded: Set<ShaderId>, upto: int)
    requires
        forall|slot: int| !#[trigger] state.schedules_library(mask, slot, loaded),
    ensures
        state.library_requests(mask, loaded, upto) == Seq::<BuildRequestView>::empty(),
    decreases upto,
{
    if upto > 0 {
        lemma_no_library_requests(state, mask, loaded, upto - 1);
    }
}

/// After an attempt to compose the pipeline of `mask`, and after a further
/// attempt for `other`, nothing is left to start for either mask, and no
/// library has become ready.
proof fn lemma_composed_twice(state: ManagerView, mask: u64, other: u64, loaded: Set<ShaderId>)
    requires
        state.inv(),
    ensures
        ({
            let once = state.composed(mask, loaded);
            let then = once.composed(other, loaded);
            &&& settled(once, mask, loaded)
            &&& settled(then, mask, loaded)
            &&& settled(then, other, loaded)
            &&& once.libraries_ready(mask) == state.libraries_ready(mask)
            &&& once.libraries_ready(other) == state.libraries_ready(other)
            &&& then.libraries_ready(mask) == state.libraries_ready(mask)
            &&& then.libraries_ready(other) == state.libraries_ready(other)
        }),
{
    let once = state.composed(mask, loaded);
    let then = once.composed(other, loaded);
    assert forall|slot: int| !#[trigger] once.schedules_library(mask, slot, loaded) by {
        assert(once.slot_loaded(slot, loaded) == state.slot_loaded(slot, loaded));
        if once.in_mask(mask, slot) {
            assert(state.in_mask(mask, slot));
        }
    }
    assert forall|slot: int| !#[trigger] then.schedules_library(mask, slot, loaded) by {
        assert(then.slot_loaded(slot, loaded) == state.slot_loaded(slot, loaded));
        if then.in_mask(mask, slot) {
            assert(state.in_mask(mask, slot));
            assert(once.in_mask(mask, slot));
            assert(!once.schedules_library(mask, slot, loaded));
        }
    }
    assert forall|slot: int| !#[trigger] then.schedules_library(other, slot, loaded) by {
        assert(then.slot_loaded(slot, loaded) == once.slot_loaded(slot, loaded));
        if then.in_mask(other, slot) {
            assert(once.in_mask(other, slot));
        }
    }
    lemma_ready_unchanged(state, mask, mask, loaded);
    lemma_ready_unchanged(state, mask, other, loaded);
    lemma_ready_unchanged(once, other, mask, loaded);
    lemma_ready_unchanged(once, other, other, loaded);
}

/// Starting builds makes no library ready.
proof fn lemma_ready_unchanged(state: ManagerView, built: u64, mask: u64, loaded: Set<ShaderId>)
    requires
        state.material_libraries.len() == state.material_count(),
    ensures
        state.composed(built, loaded).libraries_ready(mask) == state.libraries_ready(mask),
{
    let next = state.composed(built, loaded);
    if state.libraries_ready(mask) {
        assert forall|slot: int| #[trigger] next.in_mask(mask, slot) implies library_is_ready(
            next.material_libraries[slot],
        ) by {
            assert(state.in_mask(mask, slot));
        }
    }
    if next.libraries_ready(mask) {
        assert forall|slot: int| #[trigger] state.in_mask(mask, slot) implies library_is_ready(
            state.material_libraries[slot],
        ) by {
            assert(next.in_mask(mask, slot));
        }
    }
}

/// Where nothing is left to start for `mask` and its libraries are not all
/// ready, an attempt to compose its pipeline changes nothing and asks for
/// nothing.
proof fn lemma_settled_composition(state: ManagerView, mask: u64, loaded: Set<ShaderId>)
    requires
        settled(state, mask, loaded),
        !state.libraries_ready(mask),
    ensures
        state.composed(mask, loaded) == state,
        state.composition_requests(mask, loaded) == Seq::<BuildRequestView>::empty(),
{
    lemma_no_library_requests(state, mask, loaded, state.material_count() as int);
    assert(state.composed(mask, loaded) =~= state);
    assert(state.composition_requests(mask, loaded) =~= Seq::<BuildRequestView>::empty());
}

/// A query, made again with the same shaders loaded and no build ended in
/// between, changes nothing, asks for nothing, and selects what the first
/// one selected.
pub proof fn lemma_poll_idempotent(state: ManagerView, loaded: Set<ShaderId>)
    requires
        state.inv(),
    ensures
        state.polled(loaded).polled(loaded) == state.polled(loaded),
        state.polled(loaded).poll_requests(loaded) == Seq::<BuildRequestView>::empty(),
        state.polled(loaded).selected() == state.selected(),
{
    lemma_poll_keeps_selection(state, loaded);
    lemma_polled_keeps_inv(state, loaded);
    let current = state.activation_mask;
    let full = state.full_mask();
    let first = state.polled_exact(loaded);
    let after = state.polled(loaded);
    let empty = Seq::<BuildRequestView>::empty();
    match state.strategy {
        BuildStrategy::LibraryComposition => {
            lemma_composed_twice(state, current, full, loaded);
            lemma_composed_twice(state, current, current, loaded);
            lemma_composed_twice(first, full, current, loaded);
            lemma_composed_twice(first, full, full, loaded);
            if !after.pipelines.contains_key(current) {
                lemma_settled_composition(after, current, loaded);
            }
            let again = after.polled_exact(loaded);
            assert(again == after);
            if after.wants_fallback() {
                lemma_settled_composition(after, full, loaded);
            }
        },
        BuildStrategy::Monolithic => {
            let again = after.polled_exact(loaded);
            if !after.pipelines.contains_key(current) {
                assert(after.shaders_ready(current, loaded) == state.shaders_ready(
                    current,
                    loaded,
                )) by {
                    lemma_shaders_ready_same(state, after, current, loaded);
                }
                assert(after.built_natively(current, loaded) =~= after);
            }
            assert(again == after);
            if after.wants_fallback() {
                assert(after.shaders_ready(full, loaded) == first.shaders_ready(full, loaded)) by {
                    lemma_shaders_ready_same(first, after, full, loaded);
                }
                assert(after.built_natively(full, loaded) =~= after);
            }
        },
    }
    assert(after.polled(loaded) == after);
    assert(after.poll_requests(loaded) =~= empty);
}

/// Whether the shaders of a mask are loaded depends on the configuration
/// alone.
proof fn lemma_shaders_ready_same(a: ManagerView, b: ManagerView, mask: u64, loaded: Set<ShaderId>)
    requires
        a.characteristics == b.characteristics,
        a.raytypes == b.raytypes,
        a.shaders == b.shaders,
    ensures
        a.shaders_ready(mask, loaded) == b.shaders_ready(mask, loaded),
{
    if a.shaders_ready(mask, loaded) {
        assert forall|slot: int| #[trigger] b.in_mask(mask, slot) implies b.slot_loaded(
            slot,
            loaded,
        ) by {
            assert(a.in_mask(mask, slot));
        }
    }
    if b.shaders_ready(mask, loaded) {
        assert forall|slot: int| #[trigger] a.in_mask(mask, slot) implies a.slot_loaded(
            slot,
            loaded,
        ) by {
            assert(b.in_mask(mask, slot));
        }
    }
}

// Hitgroup ranges

/// In every cache entry the mapping holds the members of the mask; their
/// ranges, each as wide as there are ray types, come in the order of the
/// slots without overlap and end within the pipeline's hitgroups.
pub proof fn lemma_entry_ranges_ordered(state: ManagerView, mask: u64, first: int, second: int)
    requires
        state.inv(),
        state.pipelines.contains_key(mask),
        mask_contains(mask, first),
        mask_contains(mask, second),
        first < second,
    ensures
        ({
            let mapping = state.pipelines[mask].hitgroup_mapping;
            &&& mapping.contains_key(first as u32)
            &&& mapping.contains_key(second as u32)
            &&& mapping[first as u32] + state.raytypes.len() <= mapping[second as u32]
            &&& mapping[second as u32] + state.raytypes.len() <= hitgroup_span(
                mask,
                state.material_count(),
                state.raytypes.len(),
            )
        }),
{
    assert(state.entry_inv(mask));
    let raytypes = state.raytypes.len();
    lemma_hitgroup_base_bound(mask, raytypes, first);
    lemma_hitgroup_base_bound(mask, raytypes, second);
    lemma_hitgroup_ranges_ordered(mask, raytypes, first, second);
    lemma_hitgroup_range_within_span(mask, state.material_count(), raytypes, second);
}

/// In every cache entry the range of a member of the mask begins where
/// the range of the member before it ends.
pub proof fn lemma_entry_ranges_contiguous(state: ManagerView, mask: u64, first: int, second: int)
    requires
        state.inv(),
        state.pipelines.contains_key(mask),
        mask_contains(mask, first),
        mask_contains(mask, second),
        first < second,
        forall|slot: int| first < slot < second ==> !mask_contains(mask, slot),
    ensures
        ({
            let mapping = state.pipelines[mask].hitgroup_mapping;
            mapping[second as u32] == mapping[first as u32] + state.raytypes.len()
        }),
{
    assert(state.entry_inv(mask));
    let raytypes = state.raytypes.len();
    lemma_hitgroup_base_bound(mask, raytypes, first);
    lemma_hitgroup_base_bound(mask, raytypes, second);
    lemma_hitgroup_ranges_contiguous(mask, raytypes, first, second);
}

/// In every cache entry the range of the least member of the mask begins
/// at 0, and the range of the greatest member ends where the hitgroups of
/// the pipeline end.
pub proof fn lemma_entry_ranges_span(state: ManagerView, mask: u64, least: int, greatest: int)
    requires
        state.inv(),
        state.pipelines.contains_key(mask),
        mask_contains(mask, least),
        mask_contains(mask, greatest),
        forall|slot: int| #[trigger] mask_contains(mask, slot) ==> least <= slot <= greatest,
    ensures
        ({
            let mapping = state.pipelines[mask].hitgroup_mapping;
            &&& mapping[least as u32] == 0
            &&& mapping[greatest as u32] + state.raytypes.len() == hitgroup_span(
                mask,
                state.material_count(),
                state.raytypes.len(),
            )
        }),
{
    assert(state.entry_inv(mask));
    let raytypes = state.raytypes.len();
    lemma_hitgroup_base_bound(mask, raytypes, least);
    lemma_hitgroup_base_bound(mask, raytypes, greatest);
    lemma_hitgroup_ranges_start(mask, raytypes, least);
    lemma_active_below_gap(mask, greatest + 1, state.material_count() as int);
    assert(raytypes * (active_below(mask, greatest) + 1) == raytypes * active_below(
        mask,
        greatest,
    ) + raytypes) by (nonlinear_arith);
}

/// The mapping of a mask is the same whichever strategy built its entry.
pub proof fn lemma_strategies_agree(
    composing: ManagerView,
    monolithic: ManagerView,
    mask: u64,
    loaded: Set<ShaderId>,
)
    requires
        composing.inv(),
        monolithic.inv(),
        composing.material_count() == monolithic.material_count(),
        composing.raytypes.len() == monolithic.raytypes.len(),
        composing.libraries_ready(mask),
        monolithic.shaders_ready(mask, loaded),
    ensures
        composing.composed(mask, loaded).pipelines[mask] == monolithic.built_natively(
            mask,
            loaded,
        ).pipelines[mask],
{
}

// Fallback

/// Where the pipeline of the activation mask is not ready and that of all
/// materials is, the latter is selected as a fallback, and it has a handle
/// record for every active material and every ray type of the manager.
pub proof fn lemma_fallback_resolves(state: ManagerView, slot: int, position: int)
    requires
        state.inv(),
        !state.is_ready(state.activation_mask),
        state.is_ready(state.full_mask()),
        mask_contains(state.activation_mask, slot),
        0 <= position < state.raytypes.len(),
    ensures
        state.selected() == Some(Selection { mask: state.full_mask(), fallback: true }),
        ({
            let entry = state.pipelines[state.full_mask()];
            let table = entry.pipeline->Ready_0.sbt_handles@;
            let index = entry.hitgroup_mapping[slot as u32] + position;
            &&& entry.hitgroup_mapping.contains_key(slot as u32)
            &&& index < table.hitgroup_count()
            &&& table.hitgroup(index).len() == table.handle_size
        }),
{
    let full = state.full_mask();
    lemma_full_mask(state.material_count() as int);
    assert(state.entry_inv(full));
    assert(state.pipelines[full].hitgroup_mapping.contains_key(slot as u32));
    lemma_selection_resolves(state);
    let entry = state.pipelines[full];
    let table = entry.pipeline->Ready_0.sbt_handles@;
    lemma_hitgroup_record(table, entry.hitgroup_mapping[slot as u32] + position);
}

// Invalidation

/// After the change of a shader that only the material `slot` runs, the
/// cache has lost the entries of the masks that hold `slot` and no other,
/// and those that stay are as they were; the library of `slot` is gone,
/// and every other library is as it was.
pub proof fn lemma_invalidation_is_local(state: ManagerView, shader: ShaderId, slot: int)
    requires
        state.inv(),
        !any_runs(state.shaders, shader),
        state.slot_affected(slot, shader),
        forall|other: int| other != slot ==> !state.slot_affected(other, shader),
    ensures
        ({
            let next = state.invalidated(shader);
            &&& forall|mask: u64| #[trigger]
                next.pipelines.contains_key(mask) <==> state.pipelines.contains_key(mask)
                    && !mask_contains(mask, slot)
            &&& forall|mask: u64| #[trigger]
                next.pipelines.contains_key(mask) ==> next.pipelines[mask] == state.pipelines[mask]
            &&& next.base_library == state.base_library
            &&& next.material_libraries[slot] is None
            &&& forall|other: int|
                0 <= other < state.material_count() && other != slot
                    ==> #[trigger] next.material_libraries[other] == state.material_libraries[other]
        }),
{
    let next = state.invalidated(shader);
    assert forall|mask: u64| #[trigger]
        next.pipelines.contains_key(mask) <==> state.pipelines.contains_key(mask) && !mask_contains(
            mask,
            slot,
        ) by {
        if state.mask_affected(mask, shader) {
            let s = choose|s: int| #[trigger]
                mask_contains(mask, s) && state.slot_affected(s, shader);
            assert(s == slot);
        }
        if mask_contains(mask, slot) {
            assert(state.mask_affected(mask, shader));
        }
    }
}

/// After the change of a base shader the base library is gone and the
/// cache is empty, whatever it held: nothing is selected.
pub proof fn lemma_base_invalidation_clears(state: ManagerView, shader: ShaderId)
    requires
        state.inv(),
        any_runs(state.shaders, shader),
    ensures
        state.invalidated(shader).base_library is None,
        state.invalidated(shader).pipelines == Map::<u64, SpecializedPipelineView>::empty(),
        state.invalidated(shader).selected() is None,
{
    assert(state.invalidated(shader).pipelines =~= Map::<u64, SpecializedPipelineView>::empty());
}

} // verus!
