//! Shader descriptions and the record of which shader assets are loaded.

use bevy_asset::HandleId;
use vstd::prelude::*;

verus! {

/// The identity of an asset, as the asset server hands it out. Nothing is
/// known of what it holds: two identities can be compared, no more.
#[verifier::external_type_specification]
#[verifier::external_body]
pub struct ExHandleId(bevy_asset::HandleId);

/// The identity of a shader asset.
pub type ShaderId = HandleId;

/// Tests whether two identities name the same asset.
///
/// Not proved: this calls `HandleId::eq`, the `PartialEq` that `bevy_asset`
/// derives for `HandleId`, which compares the variant and each field of it.
/// The contract says that it holds of two identities exactly when they are
/// one and the same value.
#[verifier::external_body]
pub(crate) fn same_asset(first: ShaderId, second: ShaderId) -> (same: bool)
    ensures
        same == (first == second),
{
    first == second
}

/// One shader stage of a pipeline: the asset that holds its code, the stage
/// it runs at and its creation flags.
#[derive(Clone, Copy, Debug, PartialEq, Eq)]
pub struct SpecializedShader {
    pub shader: ShaderId,
    pub stage: u32,
    pub flags: u32,
}

/// The shaders that serve one material for one ray type.
#[derive(Clone, Copy, Debug, PartialEq, Eq)]
pub struct HitgroupShaders {
    pub closest_hit: Option<SpecializedShader>,
    pub intersection: Option<SpecializedShader>,
    pub any_hit: Option<SpecializedShader>,
}

/// Whether `stage` is present and runs the asset `shader`.
pub open spec fn stage_is(stage: Option<SpecializedShader>, shader: ShaderId) -> bool {
    stage matches Some(s) && s.shader == shader
}

/// Whether `stage` is absent or its asset is in `loaded`.
pub open spec fn stage_loaded(stage: Option<SpecializedShader>, loaded: Set<ShaderId>) -> bool {
    stage matches Some(s) ==> loaded.contains(s.shader)
}

impl HitgroupShaders {
    /// Whether one of the three stages runs the asset `shader`.
    pub open spec fn references(self, shader: ShaderId) -> bool {
        stage_is(self.closest_hit, shader) || stage_is(self.intersection, shader) || stage_is(
            self.any_hit,
            shader,
        )
    }

    /// Whether the asset of every stage that is present is in `loaded`.
    pub open spec fn loaded_in(self, loaded: Set<ShaderId>) -> bool {
        stage_loaded(self.closest_hit, loaded) && stage_loaded(self.intersection, loaded)
            && stage_loaded(self.any_hit, loaded)
    }

    /// Tests whether one of the three stages runs the asset `shader`.
    pub fn uses_shader(&self, shader: ShaderId) -> (used: bool)
        ensures
            used == self.references(shader),
    {
        stage_uses(&self.closest_hit, shader) || stage_uses(&self.intersection, shader)
            || stage_uses(&self.any_hit, shader)
    }

    /// Tests whether the asset of every stage that is present is loaded.
    pub fn is_loaded(&self, store: &ShaderStore) -> (loaded: bool)
        ensures
            loaded == self.loaded_in(store@),
    {
        stage_available(&self.closest_hit, store) && stage_available(&self.intersection, store)
            && stage_available(&self.any_hit, store)
    }
}

fn stage_uses(stage: &Option<SpecializedShader>, shader: ShaderId) -> (used: bool)
    ensures
        used == stage_is(*stage, shader),
{
    match stage {
        Some(s) => same_asset(s.shader, shader),
        None => false,
    }
}

fn stage_available(stage: &Option<SpecializedShader>, store: &ShaderStore) -> (loaded: bool)
    ensures
        loaded == stage_loaded(*stage, store@),
{
    match stage {
        Some(s) => store.contains(s.shader),
        None => true,
    }
}

/// Whether the asset of every shader in `shaders` is in `loaded`.
pub open spec fn all_loaded(shaders: Seq<SpecializedShader>, loaded: Set<ShaderId>) -> bool {
    forall|k: int| 0 <= k < shaders.len() ==> loaded.contains(#[trigger] shaders[k].shader)
}

/// Whether some shader in `shaders` runs the asset `shader`.
pub open spec fn any_runs(shaders: Seq<SpecializedShader>, shader: ShaderId) -> bool {
    exists|k: int| 0 <= k < shaders.len() && #[trigger] shaders[k].shader == shader
}

/// The shader assets whose code is loaded at present.
pub struct ShaderStore {
    loaded: Vec<ShaderId>,
}

impl View for ShaderStore {
    type V = Set<ShaderId>;

    closed spec fn view(&self) -> Set<ShaderId> {
        self.loaded@.to_set()
    }
}

impl ShaderStore {
    /// A store in which nothing is loaded.
    pub fn new() -> (store: Self)
        ensures
            store@ == Set::<ShaderId>::empty(),
    {
        let store = ShaderStore { loaded: Vec::new() };
        assert(store@ =~= Set::<ShaderId>::empty());
        store
    }

    /// Records that `shader` is loaded; says whether that is news.
    pub fn insert(&mut self, shader: ShaderId) -> (added: bool)
        ensures
            final(self)@ == old(self)@.insert(shader),
            added == !old(self)@.contains(shader),
    {
        if self.contains(shader) {
            assert(self@ =~= old(self)@.insert(shader));
            false
        } else {
            self.loaded.push(shader);
            proof {
                lemma_contains_after_push(old(self).loaded@, shader);
                assert(self@ =~= old(self)@.insert(shader));
            }
            true
        }
    }

    /// Records that `shader` is no longer loaded; says whether it was.
    pub fn remove(&mut self, shader: ShaderId) -> (removed: bool)
        ensures
            final(self)@ == old(self)@.remove(shader),
            removed == old(self)@.contains(shader),
    {
        let mut kept: Vec<ShaderId> = Vec::new();
        let mut removed = false;
        let mut k: usize = 0;
        while k < self.loaded.len()
            invariant
                k <= self.loaded@.len(),
                self.loaded@ == old(self).loaded@,
                forall|other: ShaderId| #[trigger]
                    kept@.contains(other) <==> other != shader && self.loaded@.take(
                        k as int,
                    ).contains(other),
                removed == self.loaded@.take(k as int).contains(shader),
            decreases self.loaded@.len() - k,
        {
            let ghost seen = self.loaded@.take(k as int);
            let ghost held = kept@;
            let item = self.loaded[k];
            proof {
                assert(self.loaded@.take(k + 1) =~= seen.push(item));
                lemma_contains_after_push(seen, item);
                lemma_contains_after_push(held, item);
            }
            if same_asset(item, shader) {
                removed = true;
            } else {
                kept.push(item);
            }
            assert forall|other: ShaderId| #[trigger]
                kept@.contains(other) <==> other != shader && seen.push(item).contains(other) by {
                assert(held.contains(other) <==> other != shader && seen.contains(other));
                assert(seen.push(item).contains(other) <==> seen.contains(other) || other == item);
                assert(held.push(item).contains(other) <==> held.contains(other) || other == item);
            }
            k += 1;
        }
        proof {
            assert(self.loaded@.take(k as int) =~= self.loaded@);
            assert(kept@.to_set() =~= old(self)@.remove(shader));
        }
        self.loaded = kept;
        removed
    }

    /// Tests whether `shader` is loaded.
    pub fn contains(&self, shader: ShaderId) -> (present: bool)
        ensures
            present == self@.contains(shader),
    {
        let mut k: usize = 0;
        while k < self.loaded.len()
            invariant
                k <= self.loaded@.len(),
                forall|j: int| 0 <= j < k ==> self.loaded@[j] != shader,
            decreases self.loaded@.len() - k,
        {
            if same_asset(self.loaded[k], shader) {
                return true;
            }
            k += 1;
        }
        false
    }

    /// Tests whether every shader in `shaders` is loaded.
    pub fn contains_all(&self, shaders: &Vec<SpecializedShader>) -> (loaded: bool)
        ensures
            loaded == all_loaded(shaders@, self@),
    {
        let mut k: usize = 0;
        while k < shaders.len()
            invariant
                k <= shaders.len(),
                forall|j: int| 0 <= j < k ==> self@.contains(#[trigger] shaders@[j].shader),
            decreases shaders.len() - k,
        {
            if !self.contains(shaders[k].shader) {
                return false;
            }
            k += 1;
        }
        true
    }
}

/// What a sequence holds after a push: what it held, and the new item.
pub proof fn lemma_contains_after_push<T>(s: Seq<T>, item: T)
    ensures
        forall|other: T| s.push(item).contains(other) <==> s.contains(other) || other == item,
{
    assert forall|other: T| s.push(item).contains(other) <==> s.contains(other) || other
        == item by {
        if s.contains(other) {
            let i = choose|i: int| 0 <= i < s.len() && s[i] == other;
            assert(s.push(item)[i] == other);
        }
        if other == item {
            assert(s.push(item)[s.len() as int] == other);
        }
        if s.push(item).contains(other) {
            let i = choose|i: int| 0 <= i < s.push(item).len() && s.push(item)[i] == other;
            if i < s.len() {
                assert(s[i] == other);
            }
        }
    }
}

} // verus!
