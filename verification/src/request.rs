//! What the manager hands to its caller: builds to start, and what an
//! invalidation dropped.

use crate::model::{BuildRequestView, ManagerView};
use crate::sbt::PipelineLibrary;
use crate::shader::{any_runs, ShaderId};
use vstd::prelude::*;

verus! {

/// Work for the caller to start in the background. When it ends, the
/// caller reports the outcome to the manager.
#[derive(Debug, PartialEq, Eq)]
pub enum BuildRequest {
    /// Compile the base stages into the shared base library.
    BaseLibrary,
    /// Compile the hitgroups of the material `slot` into its library.
    MaterialLibrary { slot: usize },
    /// Link `libraries` into the pipeline of `mask`.
    LinkPipeline { mask: u64, libraries: Vec<PipelineLibrary> },
    /// Compile the pipeline of `mask` in one piece: the base stages, then
    /// the hitgroups of `slots` in this order.
    NativePipeline { mask: u64, slots: Vec<usize> },
}

impl View for BuildRequest {
    type V = BuildRequestView;

    open spec fn view(&self) -> BuildRequestView {
        match *self {
            BuildRequest::BaseLibrary => BuildRequestView::BaseLibrary,
            BuildRequest::MaterialLibrary { slot } => BuildRequestView::MaterialLibrary { slot },
            BuildRequest::LinkPipeline { mask, libraries } => BuildRequestView::LinkPipeline {
                mask,
                libraries: libraries@,
            },
            BuildRequest::NativePipeline { mask, slots } => BuildRequestView::NativePipeline {
                mask,
                slots: slots@,
            },
        }
    }
}

/// The requests in `requests`, each as a mathematical value.
pub open spec fn request_views(requests: Seq<BuildRequest>) -> Seq<BuildRequestView> {
    requests.map_values(|request: BuildRequest| request@)
}

/// Appending a request appends its view.
pub proof fn lemma_request_views_push(requests: Seq<BuildRequest>, request: BuildRequest)
    ensures
        request_views(requests.push(request)) == request_views(requests).push(request@),
{
    assert(request_views(requests.push(request)) =~= request_views(requests).push(request@));
}

/// Whether the slots in `slots` ascend strictly.
pub open spec fn ascending_slots(slots: Seq<usize>) -> bool {
    forall|i: int, j: int| 0 <= i < j < slots.len() ==> slots[i] < slots[j]
}

/// Whether the masks in `masks` ascend strictly.
pub open spec fn ascending_masks(masks: Seq<u64>) -> bool {
    forall|i: int, j: int| 0 <= i < j < masks.len() ==> masks[i] < masks[j]
}

/// What an invalidation dropped. Whatever the caller keeps for these
/// builds, finished or under way, is stale: it is to be disposed of once
/// the device no longer uses it.
#[derive(Debug, PartialEq, Eq)]
pub struct Invalidation {
    /// Whether the base library was dropped.
    pub base_library: bool,
    /// The slots whose material library was dropped, ascending.
    pub material_libraries: Vec<usize>,
    /// The masks whose cache entry was dropped, ascending.
    pub pipelines: Vec<u64>,
}

impl Invalidation {
    /// Whether `self` lists what the change of `shader` dropped from
    /// `before`: each library and each cache entry that was there and is
    /// gone, once, in ascending order.
    pub open spec fn reports(self, before: ManagerView, shader: ShaderId) -> bool {
        &&& self.base_library == (any_runs(before.shaders, shader) && before.base_library is Some)
        &&& ascending_slots(self.material_libraries@)
        &&& forall|slot: usize|
            self.material_libraries@.contains(slot) <==> before.slot_affected(slot as int, shader)
                && before.material_libraries[slot as int] is Some
        &&& ascending_masks(self.pipelines@)
        &&& forall|mask: u64|
            self.pipelines@.contains(mask) <==> before.pipelines.contains_key(mask)
                && !before.invalidated(shader).pipelines.contains_key(mask)
    }
}

} // verus!
