//! Draw-collection counters and material-slot to submesh pairing rules.
use vstd::prelude::*;

use crate::shared::{MeshMaterialSlot, RasterPrimitiveTopology, StaticMeshRenderer};

verus! {

/// CPU arrangement counters captured while preparing one view's draw list.
#[derive(Clone, Copy, Debug, Default, PartialEq, Eq, Structural)]
pub struct WorldMeshDrawArrangementStats {
    /// Nontransparent bins emitted before strict transparent sorting.
    pub nontransparent_bins: usize,
    /// Draws emitted through nontransparent phase bins.
    pub nontransparent_binned_draws: usize,
    /// Draws that kept strict transparent/grab ordering.
    pub strict_sorted_draws: usize,
}

/// CPU visibility-broadphase counters gathered before per-renderer draw expansion.
#[derive(Clone, Copy, Debug, Default, PartialEq, Eq, Structural)]
pub struct WorldMeshVisibilityStats {
    /// Renderer runs with finite world bounds in the queried spaces.
    pub indexed_runs: usize,
    /// Renderer runs kept on the conservative fallback path because they cannot be indexed.
    pub fallback_runs: usize,
    /// Renderer runs returned to per-run draw collection after broadphase filtering.
    pub candidate_runs: usize,
    /// Raw spatial candidate marks emitted by queried spaces before duplicate suppression.
    pub raw_candidate_marks: usize,
    /// Spatial candidate marks skipped because the renderer run was already marked.
    pub duplicate_candidate_marks: usize,
    /// Renderer runs rejected by the broadphase before per-run draw collection.
    pub broadphase_culled_runs: usize,
    /// Material-slot draw rows rejected by the broadphase before per-run draw collection.
    pub broadphase_culled_draws: usize,
    /// Renderer runs visited through the linear fallback path instead of a BVH traversal.
    pub linear_fallback_runs: usize,
}

impl WorldMeshVisibilityStats {
    /// All counters zero.
    pub open spec fn spec_zero() -> Self {
        WorldMeshVisibilityStats {
            indexed_runs: 0,
            fallback_runs: 0,
            candidate_runs: 0,
            raw_candidate_marks: 0,
            duplicate_candidate_marks: 0,
            broadphase_culled_runs: 0,
            broadphase_culled_draws: 0,
            linear_fallback_runs: 0,
        }
    }

    /// Builds a zeroed counter set.
    pub fn zero() -> (r: Self)
        ensures
            r == Self::spec_zero(),
    {
        WorldMeshVisibilityStats {
            indexed_runs: 0,
            fallback_runs: 0,
            candidate_runs: 0,
            raw_candidate_marks: 0,
            duplicate_candidate_marks: 0,
            broadphase_culled_runs: 0,
            broadphase_culled_draws: 0,
            linear_fallback_runs: 0,
        }
    }
}

/// Per-slot ordering marker for Unity-style material stacking.
#[derive(Clone, Copy, Debug, PartialEq, Eq, Structural, Hash, PartialOrd, Ord)]
pub struct MaterialStackOrder {
    /// First material slot that participates in the stack for this renderer.
    pub first_stacked_slot_index: usize,
}

/// Stack marker: present only when there are more material slots than submeshes and the slot is
/// at or after the last submesh, in which case the stack starts at the last submesh's slot.
pub open spec fn spec_from_slot_counts(material_slot_index: int, material_slot_count: int, submesh_count: int) -> Option<MaterialStackOrder> {
    if submesh_count == 0 || material_slot_count <= submesh_count || material_slot_index < submesh_count - 1 {
        None
    } else {
        Some(MaterialStackOrder { first_stacked_slot_index: (submesh_count - 1) as usize })
    }
}

impl MaterialStackOrder {
    /// Returns stack metadata for one material slot when the renderer has more material slots than submeshes.
    pub fn from_slot_counts(material_slot_index: usize, material_slot_count: usize, submesh_count: usize) -> (r: Option<Self>)
        ensures
            r == spec_from_slot_counts(material_slot_index as int, material_slot_count as int, submesh_count as int),
    {
        if submesh_count == 0 || material_slot_count <= submesh_count {
            return None;
        }
        let first_stacked_slot_index = submesh_count - 1;
        if material_slot_index >= first_stacked_slot_index {
            Some(MaterialStackOrder { first_stacked_slot_index })
        } else {
            None
        }
    }
}

/// Index of the submesh a material slot draws: its own index, or the last submesh for extra slots.
pub open spec fn stacked_index(material_slot_index: int, len: int) -> int {
    if material_slot_index < len - 1 {
        material_slot_index
    } else {
        len - 1
    }
}

/// Returns the submesh index range that should be drawn for one renderer material slot.
///
/// Extra material slots beyond the last submesh redraw that last submesh; `None` when the mesh has
/// no submeshes.
pub fn stacked_material_submesh_range(material_slot_index: usize, submeshes: &[(u32, u32)]) -> (r: Option<(u32, u32)>)
    ensures
        submeshes@.len() == 0 ==> r.is_none(),
        submeshes@.len() > 0 ==> r == Some(submeshes@[stacked_index(material_slot_index as int, submeshes@.len() as int)]),
{
    if submeshes.len() == 0 {
        return None;
    }
    let last = submeshes.len() - 1;
    let index = if material_slot_index < last { material_slot_index } else { last };
    Some(submeshes[index])
}

/// Returns the primitive topology for one renderer material slot with the same stacking rule,
/// falling back to triangle lists when no topology is known.
pub fn stacked_material_submesh_topology(material_slot_index: usize, topologies: &[RasterPrimitiveTopology]) -> (r: RasterPrimitiveTopology)
    ensures
        topologies@.len() == 0 ==> r == RasterPrimitiveTopology::TriangleList,
        topologies@.len() > 0 ==> r == topologies@[stacked_index(material_slot_index as int, topologies@.len() as int)],
{
    if topologies.len() == 0 {
        return RasterPrimitiveTopology::TriangleList;
    }
    let last = topologies.len() - 1;
    let index = if material_slot_index < last { material_slot_index } else { last };
    topologies[index]
}

/// Material slots that can produce draws: none for shadow-only renderers, the explicit slots when
/// present, otherwise the primary material when it is set.
pub open spec fn spec_resolved_material_slot_count(renderer: StaticMeshRenderer) -> int {
    if !renderer.spec_emits_visible_color_draws() {
        0
    } else if renderer.material_slots@.len() == 0 {
        if renderer.primary_material_asset_id.is_some() { 1 } else { 0 }
    } else {
        renderer.material_slots@.len() as int
    }
}

/// Counts material slots that can produce draws for `renderer` without allocating a fallback slot.
pub fn resolved_material_slot_count(renderer: &StaticMeshRenderer) -> (r: usize)
    ensures
        r == spec_resolved_material_slot_count(*renderer),
{
    if !renderer.emits_visible_color_draws() {
        return 0;
    }
    if renderer.material_slots.len() == 0 {
        if renderer.primary_material_asset_id.is_some() { 1 } else { 0 }
    } else {
        renderer.material_slots.len()
    }
}

/// The renderer's explicit material slots, or the single primary slot, or nothing.
pub open spec fn spec_resolved_material_slots(renderer: StaticMeshRenderer) -> Seq<MeshMaterialSlot> {
    if renderer.material_slots@.len() == 0 {
        match renderer.primary_material_asset_id {
            Some(material_asset_id) => seq![MeshMaterialSlot { material_asset_id, property_block_id: renderer.primary_property_block_id }],
            None => Seq::empty(),
        }
    } else {
        renderer.material_slots@
    }
}

/// Resolves the material slot list, falling back to the primary material when no explicit slots exist.
pub fn resolved_material_slots(renderer: &StaticMeshRenderer) -> (r: Vec<MeshMaterialSlot>)
    ensures
        r@ == spec_resolved_material_slots(*renderer),
{
    if renderer.material_slots.len() == 0 {
        match renderer.primary_material_asset_id {
            Some(material_asset_id) => {
                let mut v = Vec::new();
                v.push(MeshMaterialSlot { material_asset_id, property_block_id: renderer.primary_property_block_id });
                v
            },
            None => Vec::new(),
        }
    } else {
        let mut out: Vec<MeshMaterialSlot> = Vec::new();
        let mut i: usize = 0;
        while i < renderer.material_slots.len()
            invariant
                i <= renderer.material_slots@.len(),
                out@ == renderer.material_slots@.subrange(0, i as int),
            decreases renderer.material_slots@.len() - i,
        {
            out.push(renderer.material_slots[i]);
            i += 1;
            proof {
                assert(out@ =~= renderer.material_slots@.subrange(0, i as int));
            }
        }
        proof {
            assert(out@ =~= renderer.material_slots@);
        }
        out
    }
}

/// Non-resolved slots are never drawn: the resolved slot count equals the resolved slot list's
/// length for renderers that draw color, and is zero for shadow-only renderers.
pub proof fn lemma_resolved_slot_count_matches_slots(renderer: StaticMeshRenderer)
    ensures
        renderer.spec_emits_visible_color_draws() ==> spec_resolved_material_slot_count(renderer)
            == spec_resolved_material_slots(renderer).len(),
        !renderer.spec_emits_visible_color_draws() ==> spec_resolved_material_slot_count(renderer) == 0,
{
}

} // verus!
