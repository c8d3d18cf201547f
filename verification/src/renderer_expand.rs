//! Expansion of one scene mesh renderer row into prepared draw rows: one row per material slot
//! mapped onto a submesh range, after the renderer, mesh and material-override guards.
use vstd::prelude::*;

use crate::material_slots::{
    resolved_material_slots, spec_from_slot_counts, spec_resolved_material_slots, stacked_index,
    stacked_material_submesh_range, MaterialStackOrder,
};
use crate::prepared::FramePreparedDraw;
use crate::shared::{MeshMaterialSlot, MeshRendererInstanceId, RenderSpaceId, StaticMeshRenderer};

verus! {

/// What expanding one renderer row reads of its resident mesh and of the scene around it.
#[derive(Clone, Debug)]
pub struct RenderableExpansion {
    /// Submesh index ranges `(first_index, index_count)` of the resident mesh.
    pub submeshes: Vec<(u32, u32)>,
    /// Whether the skinned mesh deforms into world space through the skin cache.
    pub world_space_deformed: bool,
    /// Whether the mesh has active blendshape weights this frame.
    pub blendshape_deformed: bool,
    /// Whether active blendshape tangent deltas run for tangent-reading materials.
    pub tangent_blendshape_deform_active: bool,
    /// Whether the renderer's scene node lies in the overlay layer.
    pub node_in_overlay_layer: bool,
    /// Whether the renderer's scene node lies in the hidden layer.
    pub node_in_hidden_layer: bool,
    /// Material override of each slot for the render context (`None` where the slot has none;
    /// slots past the end have none).
    pub material_overrides: Vec<Option<i32>>,
}

/// Material override of slot `slot_index`, if any.
pub open spec fn slot_override(overrides: Seq<Option<i32>>, slot_index: int) -> Option<i32> {
    if 0 <= slot_index < overrides.len() {
        overrides[slot_index]
    } else {
        None
    }
}

/// Material a slot resolves to: its override when present, else the slot's own material.
pub open spec fn slot_material(overrides: Seq<Option<i32>>, slot_index: int, slot: MeshMaterialSlot) -> i32 {
    match slot_override(overrides, slot_index) {
        Some(id) => id,
        None => slot.material_asset_id,
    }
}

/// Identity of the renderer row being expanded.
pub struct ExpandedRendererId {
    /// Render space that owns the renderer.
    pub space_id: RenderSpaceId,
    /// Dense index of the renderer in its table.
    pub renderable_index: usize,
    /// Whether the renderer sits in the skinned table.
    pub skinned: bool,
}

/// The row emitted for slot `slot_index` (drawing submesh range `range`) of a renderer.
pub open spec fn slot_row(
    id: ExpandedRendererId,
    renderer: StaticMeshRenderer,
    e: RenderableExpansion,
    slot_count: int,
    slot_index: int,
    slot: MeshMaterialSlot,
    range: (u32, u32),
) -> FramePreparedDraw {
    FramePreparedDraw {
        space_id: id.space_id,
        renderable_index: id.renderable_index,
        instance_id: renderer.instance_id,
        renderer_ordinal: 0,
        node_id: renderer.node_id,
        mesh_asset_id: renderer.mesh_asset_id,
        is_overlay: renderer.node_id >= 0 && e.node_in_overlay_layer,
        is_hidden: renderer.node_id >= 0 && e.node_in_hidden_layer,
        sorting_order: renderer.sorting_order,
        shadow_cast_mode: renderer.shadow_cast_mode,
        skinned: id.skinned,
        world_space_deformed: e.world_space_deformed,
        blendshape_deformed: e.blendshape_deformed,
        tangent_blendshape_deform_active: e.tangent_blendshape_deform_active,
        slot_index: slot_index as usize,
        material_stack_order: spec_from_slot_counts(slot_index, slot_count, e.submeshes@.len() as int),
        first_index: range.0,
        index_count: range.1,
        material_asset_id: slot_material(e.material_overrides@, slot_index, slot),
        property_block_id: slot.property_block_id,
    }
}

/// Rows emitted by the first `k` material slots: each slot draws its stacked submesh range and
/// is skipped when that range is empty or its resolved material is negative.
pub open spec fn expanded_slot_rows(
    id: ExpandedRendererId,
    renderer: StaticMeshRenderer,
    e: RenderableExpansion,
    k: int,
) -> Seq<FramePreparedDraw>
    decreases k,
{
    let slots = spec_resolved_material_slots(renderer);
    if k <= 0 || e.submeshes@.len() == 0 {
        Seq::empty()
    } else {
        let prev = expanded_slot_rows(id, renderer, e, k - 1);
        let slot_index = k - 1;
        let range = e.submeshes@[stacked_index(slot_index, e.submeshes@.len() as int)];
        if range.1 == 0 || slot_material(e.material_overrides@, slot_index, slots[slot_index]) < 0 {
            prev
        } else {
            prev.push(slot_row(id, renderer, e, slots.len() as int, slot_index, slots[slot_index], range))
        }
    }
}

/// Every row a renderer expands to.
pub open spec fn expanded_rows(id: ExpandedRendererId, renderer: StaticMeshRenderer, e: RenderableExpansion) -> Seq<FramePreparedDraw> {
    expanded_slot_rows(id, renderer, e, spec_resolved_material_slots(renderer).len() as int)
}

/// Whether a renderer row passes the expansion guards: it draws color, has a mesh and a node, its
/// mesh is resident and has at least one submesh.
pub open spec fn renderer_expands(renderer: StaticMeshRenderer, e: Option<RenderableExpansion>) -> bool {
    &&& renderer.spec_emits_visible_color_draws()
    &&& renderer.mesh_asset_id >= 0
    &&& renderer.node_id >= 0
    &&& e is Some
    &&& e.unwrap().submeshes@.len() > 0
}

/// Rows a renderer row contributes: its expanded rows when it passes the guards, else none.
pub open spec fn renderer_rows(id: ExpandedRendererId, renderer: StaticMeshRenderer, e: Option<RenderableExpansion>) -> Seq<FramePreparedDraw> {
    if renderer_expands(renderer, e) {
        expanded_rows(id, renderer, e.unwrap())
    } else {
        Seq::empty()
    }
}

/// Every row a renderer expands to draws one of its material slots with that slot's material as
/// the render context resolves it: the slot's override when the context sets one, otherwise the
/// slot's own material. The row never carries a negative material, draws the slot's stacked
/// submesh range, which has indices, and carries the renderer node's overlay and hidden layer
/// flags (none for a detached renderer). Conversely, every slot whose range has indices and whose
/// resolved material is not negative gets a row, and the rows follow slot order.
pub proof fn lemma_expanded_rows_resolve_slots(id: ExpandedRendererId, renderer: StaticMeshRenderer, e: RenderableExpansion)
    requires
        spec_resolved_material_slots(renderer).len() <= usize::MAX,
    ensures
        forall|j: int| 0 <= j < expanded_rows(id, renderer, e).len() ==> {
            let r = #[trigger] expanded_rows(id, renderer, e)[j];
            let slots = spec_resolved_material_slots(renderer);
            let overrides = e.material_overrides@;
            let n_sub = e.submeshes@.len() as int;
            let i = r.slot_index as int;
            &&& 0 <= i < slots.len()
            &&& (i < overrides.len() && overrides[i] is Some ==> r.material_asset_id == overrides[i].unwrap())
            &&& (!(i < overrides.len() && overrides[i] is Some) ==> r.material_asset_id == slots[i].material_asset_id)
            &&& r.material_asset_id >= 0
            &&& r.property_block_id == slots[i].property_block_id
            &&& r.index_count > 0
            &&& n_sub > 0
            &&& (r.first_index, r.index_count) == e.submeshes@[if i < n_sub - 1 { i } else { n_sub - 1 }]
            &&& r.is_overlay == (renderer.node_id >= 0 && e.node_in_overlay_layer)
            &&& r.is_hidden == (renderer.node_id >= 0 && e.node_in_hidden_layer)
            &&& r.node_id == renderer.node_id
            &&& r.mesh_asset_id == renderer.mesh_asset_id
            &&& r.instance_id == renderer.instance_id
            &&& r.space_id == id.space_id
            &&& r.renderable_index == id.renderable_index
            &&& r.skinned == id.skinned
        },
        forall|a: int, b: int| 0 <= a < b < expanded_rows(id, renderer, e).len()
            ==> #[trigger] expanded_rows(id, renderer, e)[a].slot_index < #[trigger] expanded_rows(id, renderer, e)[b].slot_index,
        forall|i: int|
            0 <= i < spec_resolved_material_slots(renderer).len() && e.submeshes@.len() > 0
                && e.submeshes@[if i < e.submeshes@.len() - 1 { i } else { e.submeshes@.len() - 1 }].1 > 0
                && (if i < e.material_overrides@.len() && e.material_overrides@[i] is Some {
                    e.material_overrides@[i].unwrap()
                } else {
                    spec_resolved_material_slots(renderer)[i].material_asset_id
                }) >= 0
                ==> exists|j: int|
                0 <= j < expanded_rows(id, renderer, e).len() && (#[trigger] expanded_rows(id, renderer, e)[j]).slot_index == i,
{
    let n = spec_resolved_material_slots(renderer).len() as int;
    lemma_expanded_slot_rows_each(id, renderer, e, n);
    lemma_expanded_slot_rows_cover(id, renderer, e, n);
    let rows = expanded_rows(id, renderer, e);
    assert forall|j: int| 0 <= j < rows.len() implies row_draws_resolved_slot(id, renderer, e, #[trigger] rows[j], n) by {}
    assert forall|i: int|
        0 <= i < n && e.submeshes@.len() > 0
            && e.submeshes@[if i < e.submeshes@.len() - 1 { i } else { e.submeshes@.len() - 1 }].1 > 0
            && (if i < e.material_overrides@.len() && e.material_overrides@[i] is Some {
                e.material_overrides@[i].unwrap()
            } else {
                spec_resolved_material_slots(renderer)[i].material_asset_id
            }) >= 0
            implies exists|j: int| 0 <= j < rows.len() && (#[trigger] rows[j]).slot_index == i by {
        assert(resolved_slot_material(e.material_overrides@, spec_resolved_material_slots(renderer), i) >= 0);
    }
}

/// Material slot `i` resolves to: its override when the context sets one, else its own material.
pub open spec fn resolved_slot_material(overrides: Seq<Option<i32>>, slots: Seq<MeshMaterialSlot>, i: int) -> i32 {
    if i < overrides.len() && overrides[i] is Some {
        overrides[i].unwrap()
    } else {
        slots[i].material_asset_id
    }
}

/// What a row drawing one of the first `k` slots of a renderer carries.
pub open spec fn row_draws_resolved_slot(
    id: ExpandedRendererId,
    renderer: StaticMeshRenderer,
    e: RenderableExpansion,
    r: FramePreparedDraw,
    k: int,
) -> bool {
    let slots = spec_resolved_material_slots(renderer);
    let overrides = e.material_overrides@;
    let n_sub = e.submeshes@.len() as int;
    let i = r.slot_index as int;
    &&& 0 <= i < k
    &&& (i < overrides.len() && overrides[i] is Some ==> r.material_asset_id == overrides[i].unwrap())
    &&& (!(i < overrides.len() && overrides[i] is Some) ==> r.material_asset_id == slots[i].material_asset_id)
    &&& r.material_asset_id >= 0
    &&& r.property_block_id == slots[i].property_block_id
    &&& r.index_count > 0
    &&& n_sub > 0
    &&& (r.first_index, r.index_count) == e.submeshes@[if i < n_sub - 1 { i } else { n_sub - 1 }]
    &&& r.is_overlay == (renderer.node_id >= 0 && e.node_in_overlay_layer)
    &&& r.is_hidden == (renderer.node_id >= 0 && e.node_in_hidden_layer)
    &&& r.node_id == renderer.node_id
    &&& r.mesh_asset_id == renderer.mesh_asset_id
    &&& r.instance_id == renderer.instance_id
    &&& r.space_id == id.space_id
    &&& r.renderable_index == id.renderable_index
    &&& r.skinned == id.skinned
}

/// The row of slot `i` (pushed by the expansion) carries the slot's resolved material and the
/// renderer's layer flags.
proof fn lemma_slot_row_resolves(
    id: ExpandedRendererId,
    renderer: StaticMeshRenderer,
    e: RenderableExpansion,
    i: int,
)
    requires
        0 <= i < spec_resolved_material_slots(renderer).len() <= usize::MAX,
        e.submeshes@.len() > 0,
        e.submeshes@[stacked_index(i, e.submeshes@.len() as int)].1 > 0,
        slot_material(e.material_overrides@, i, spec_resolved_material_slots(renderer)[i]) >= 0,
    ensures
        row_draws_resolved_slot(
            id,
            renderer,
            e,
            slot_row(
                id,
                renderer,
                e,
                spec_resolved_material_slots(renderer).len() as int,
                i,
                spec_resolved_material_slots(renderer)[i],
                e.submeshes@[stacked_index(i, e.submeshes@.len() as int)],
            ),
            i + 1,
        ),
{
}

/// Prefix form of the per-row law over the first `k` slots.
proof fn lemma_expanded_slot_rows_each(id: ExpandedRendererId, renderer: StaticMeshRenderer, e: RenderableExpansion, k: int)
    requires
        0 <= k <= spec_resolved_material_slots(renderer).len() <= usize::MAX,
    ensures
        forall|j: int| 0 <= j < expanded_slot_rows(id, renderer, e, k).len()
            ==> row_draws_resolved_slot(id, renderer, e, #[trigger] expanded_slot_rows(id, renderer, e, k)[j], k),
        forall|a: int, b: int| 0 <= a < b < expanded_slot_rows(id, renderer, e, k).len()
            ==> #[trigger] expanded_slot_rows(id, renderer, e, k)[a].slot_index < #[trigger] expanded_slot_rows(id, renderer, e, k)[b].slot_index,
    decreases k,
{
    let slots = spec_resolved_material_slots(renderer);
    let n_sub = e.submeshes@.len() as int;
    if k > 0 && n_sub > 0 {
        lemma_expanded_slot_rows_each(id, renderer, e, k - 1);
        let prev = expanded_slot_rows(id, renderer, e, k - 1);
        let rows = expanded_slot_rows(id, renderer, e, k);
        let i = k - 1;
        let range = e.submeshes@[stacked_index(i, n_sub)];
        if range.1 == 0 || slot_material(e.material_overrides@, i, slots[i]) < 0 {
            assert(rows == prev);
        } else {
            let row = slot_row(id, renderer, e, slots.len() as int, i, slots[i], range);
            assert(rows == prev.push(row));
            lemma_slot_row_resolves(id, renderer, e, i);
            assert forall|j: int| 0 <= j < rows.len() implies row_draws_resolved_slot(id, renderer, e, #[trigger] rows[j], k) by {
                if j < prev.len() {
                    assert(rows[j] == prev[j]);
                    assert(row_draws_resolved_slot(id, renderer, e, prev[j], k - 1));
                } else {
                    assert(rows[j] == row);
                }
            }
            assert forall|a: int, b: int| 0 <= a < b < rows.len() implies #[trigger] rows[a].slot_index < #[trigger] rows[b].slot_index by {
                assert(rows[a] == prev[a]);
                assert(row_draws_resolved_slot(id, renderer, e, prev[a], k - 1));
                if b < prev.len() {
                    assert(rows[b] == prev[b]);
                } else {
                    assert(rows[b] == row);
                }
            }
        }
    }
}

/// Prefix form of the coverage law over the first `k` slots.
proof fn lemma_expanded_slot_rows_cover(id: ExpandedRendererId, renderer: StaticMeshRenderer, e: RenderableExpansion, k: int)
    requires
        0 <= k <= spec_resolved_material_slots(renderer).len() <= usize::MAX,
    ensures
        forall|i: int|
            0 <= i < k && e.submeshes@.len() > 0
                && e.submeshes@[if i < e.submeshes@.len() - 1 { i } else { e.submeshes@.len() - 1 }].1 > 0
                && resolved_slot_material(e.material_overrides@, spec_resolved_material_slots(renderer), i) >= 0
                ==> exists|j: int|
                0 <= j < expanded_slot_rows(id, renderer, e, k).len() && (#[trigger] expanded_slot_rows(id, renderer, e, k)[j]).slot_index == i,
    decreases k,
{
    let slots = spec_resolved_material_slots(renderer);
    let n_sub = e.submeshes@.len() as int;
    if k > 0 && n_sub > 0 {
        lemma_expanded_slot_rows_cover(id, renderer, e, k - 1);
        let prev = expanded_slot_rows(id, renderer, e, k - 1);
        let rows = expanded_slot_rows(id, renderer, e, k);
        let i = k - 1;
        let range = e.submeshes@[stacked_index(i, n_sub)];
        assert(slot_material(e.material_overrides@, i, slots[i]) == resolved_slot_material(e.material_overrides@, slots, i));
        if range.1 == 0 || slot_material(e.material_overrides@, i, slots[i]) < 0 {
            assert(rows == prev);
        } else {
            let row = slot_row(id, renderer, e, slots.len() as int, i, slots[i], range);
            assert(rows == prev.push(row));
            assert forall|x: int|
                0 <= x < k && n_sub > 0
                    && e.submeshes@[if x < n_sub - 1 { x } else { n_sub - 1 }].1 > 0
                    && resolved_slot_material(e.material_overrides@, slots, x) >= 0
                    implies exists|j: int| 0 <= j < rows.len() && (#[trigger] rows[j]).slot_index == x by {
                if x == i {
                    assert(rows[prev.len() as int] == row);
                } else {
                    let j = choose|j: int| 0 <= j < prev.len() && (#[trigger] prev[j]).slot_index == x;
                    assert(rows[j] == prev[j]);
                }
            }
        }
    }
}

/// Material override of one slot.
fn material_override_of(overrides: &[Option<i32>], slot_index: usize) -> (r: Option<i32>)
    ensures
        r == slot_override(overrides@, slot_index as int),
{
    if slot_index < overrides.len() {
        overrides[slot_index]
    } else {
        None
    }
}

/// Expands one renderer's material slots mapped onto submesh ranges into prepared rows.
pub fn expand_renderer_slots(
    out: &mut Vec<FramePreparedDraw>,
    id: &ExpandedRendererId,
    renderer: &StaticMeshRenderer,
    expansion: &RenderableExpansion,
)
    ensures
        final(out)@ == old(out)@ + expanded_rows(*id, *renderer, *expansion),
        forall|j: int| old(out)@.len() <= j < final(out)@.len() ==> row_draws_resolved_slot(
            *id,
            *renderer,
            *expansion,
            #[trigger] final(out)@[j],
            spec_resolved_material_slots(*renderer).len() as int,
        ),
{
    let slots = resolved_material_slots(renderer);
    let ghost base = out@;
    if slots.len() == 0 || expansion.submeshes.len() == 0 {
        proof {
            assert(expanded_slot_rows(*id, *renderer, *expansion, slots@.len() as int) =~= Seq::<FramePreparedDraw>::empty());
            assert(base + Seq::<FramePreparedDraw>::empty() =~= base);
        }
        return;
    }
    let is_overlay = renderer.node_id >= 0 && expansion.node_in_overlay_layer;
    let is_hidden = renderer.node_id >= 0 && expansion.node_in_hidden_layer;
    let slot_count = slots.len();
    let submesh_count = expansion.submeshes.len();
    let mut slot_index: usize = 0;
    proof {
        assert(base + expanded_slot_rows(*id, *renderer, *expansion, 0) =~= base);
    }
    while slot_index < slot_count
        invariant
            slot_count == slots@.len(),
            slots@ == spec_resolved_material_slots(*renderer),
            submesh_count == expansion.submeshes@.len() > 0,
            slot_index <= slot_count,
            is_overlay == (renderer.node_id >= 0 && expansion.node_in_overlay_layer),
            is_hidden == (renderer.node_id >= 0 && expansion.node_in_hidden_layer),
            out@ == base + expanded_slot_rows(*id, *renderer, *expansion, slot_index as int),
        decreases slot_count - slot_index,
    {
        let slot = slots[slot_index];
        let range = stacked_material_submesh_range(slot_index, expansion.submeshes.as_slice());
        let (first_index, index_count) = match range {
            Some(r) => r,
            None => (0u32, 0u32),
        };
        let material_asset_id = match material_override_of(expansion.material_overrides.as_slice(), slot_index) {
            Some(overridden) => overridden,
            None => slot.material_asset_id,
        };
        if index_count != 0 && material_asset_id >= 0 {
            out.push(FramePreparedDraw {
                space_id: id.space_id,
                renderable_index: id.renderable_index,
                instance_id: renderer.instance_id,
                renderer_ordinal: 0,
                node_id: renderer.node_id,
                mesh_asset_id: renderer.mesh_asset_id,
                is_overlay,
                is_hidden,
                sorting_order: renderer.sorting_order,
                shadow_cast_mode: renderer.shadow_cast_mode,
                skinned: id.skinned,
                world_space_deformed: expansion.world_space_deformed,
                blendshape_deformed: expansion.blendshape_deformed,
                tangent_blendshape_deform_active: expansion.tangent_blendshape_deform_active,
                slot_index,
                material_stack_order: MaterialStackOrder::from_slot_counts(slot_index, slot_count, submesh_count),
                first_index,
                index_count,
                material_asset_id,
                property_block_id: slot.property_block_id,
            });
        }
        proof {
            let next = expanded_slot_rows(*id, *renderer, *expansion, slot_index + 1);
            let prev = expanded_slot_rows(*id, *renderer, *expansion, slot_index as int);
            if index_count != 0 && material_asset_id >= 0 {
                assert(next == prev.push(slot_row(*id, *renderer, *expansion, slot_count as int, slot_index as int, slot, (first_index, index_count))));
                assert(base + next =~= (base + prev).push(slot_row(*id, *renderer, *expansion, slot_count as int, slot_index as int, slot, (first_index, index_count))));
            } else {
                assert(next == prev);
            }
        }
        slot_index += 1;
    }
    proof {
        lemma_expanded_slot_rows_each(*id, *renderer, *expansion, slot_count as int);
        assert forall|j: int| base.len() <= j < out@.len() implies row_draws_resolved_slot(
            *id,
            *renderer,
            *expansion,
            #[trigger] out@[j],
            slot_count as int,
        ) by {
            assert(out@[j] == expanded_slot_rows(*id, *renderer, *expansion, slot_count as int)[j - base.len()]);
        }
    }
}

/// Runs the per-renderer guards and emits rows for every valid material slot; `expansion` is
/// `None` when the renderer's mesh is not resident.
pub fn try_expand_one_renderer(
    out: &mut Vec<FramePreparedDraw>,
    id: &ExpandedRendererId,
    renderer: &StaticMeshRenderer,
    expansion: Option<&RenderableExpansion>,
)
    ensures
        final(out)@ == old(out)@ + renderer_rows(*id, *renderer, match expansion { Some(e) => Some(*e), None => None }),
        forall|j: int| old(out)@.len() <= j < final(out)@.len() ==> expansion is Some && row_draws_resolved_slot(
            *id,
            *renderer,
            *expansion.unwrap(),
            #[trigger] final(out)@[j],
            spec_resolved_material_slots(*renderer).len() as int,
        ),
{
    let ghost e = match expansion { Some(e) => Some(*e), None => None };
    if !renderer.emits_visible_color_draws() || renderer.mesh_asset_id < 0 || renderer.node_id < 0 {
        proof {
            assert(old(out)@ + renderer_rows(*id, *renderer, e) =~= old(out)@);
        }
        return;
    }
    let expansion = match expansion {
        Some(expansion) => expansion,
        None => {
            proof {
                assert(old(out)@ + renderer_rows(*id, *renderer, e) =~= old(out)@);
            }
            return;
        },
    };
    if expansion.submeshes.len() == 0 {
        proof {
            assert(old(out)@ + renderer_rows(*id, *renderer, e) =~= old(out)@);
        }
        return;
    }
    expand_renderer_slots(out, id, renderer, expansion);
}

} // verus!
