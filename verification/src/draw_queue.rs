//! Queueing of one view's world-mesh draws: the render spaces the view walks, the capacity hint
//! of the queued list, the per-renderer slot plan of the scene walk, and the merge of the
//! per-chunk collection output in chunk order with dense collection order and summed counters.
use vstd::prelude::*;

use crate::collect_plan::{estimate_active_renderable_count, planned_slot_hint};
use crate::frame_maintenance::{scene_space, scene_space_of};
use crate::layer_policy::ViewLayerPolicy;
use crate::material_slots::{
    resolved_material_slots, spec_from_slot_counts, spec_resolved_material_slots, stacked_index,
    stacked_material_submesh_range, MaterialStackOrder,
};
use crate::prepared::FramePreparedDraw;
use crate::retained_refresh::SceneSpaceRenderers;
use crate::shared::{LayerType, MeshMaterialSlot, RenderSpaceId, StaticMeshRenderer};

verus! {

/// The entries of `ids[0..k)` equal to `id`, in order.
pub open spec fn ids_matching(ids: Seq<RenderSpaceId>, id: RenderSpaceId, k: int) -> Seq<RenderSpaceId>
    decreases k,
{
    if k <= 0 {
        Seq::empty()
    } else if ids[k - 1] == id {
        ids_matching(ids, id, k - 1).push(ids[k - 1])
    } else {
        ids_matching(ids, id, k - 1)
    }
}

/// Render spaces a view walks: with a prepared snapshot, its active spaces (only the filtered one
/// when the view is scoped to a space); without one, the scene's spaces, or only the filtered
/// space when the scene has it and it is active.
pub open spec fn spec_queue_space_ids(
    prepared_active: Option<Seq<RenderSpaceId>>,
    filter: Option<RenderSpaceId>,
    scene_ids: Seq<RenderSpaceId>,
    scene: Seq<SceneSpaceRenderers>,
) -> Seq<RenderSpaceId> {
    match prepared_active {
        Some(active) => match filter {
            Some(id) => ids_matching(active, id, active.len() as int),
            None => active,
        },
        None => match filter {
            Some(id) => match scene_space_of(scene, id.0) {
                Some(s) => if s.active { seq![id] } else { Seq::empty() },
                None => Seq::empty(),
            },
            None => scene_ids,
        },
    }
}

/// The entries of `ids` equal to `id`.
fn collect_matching_ids(ids: &[RenderSpaceId], id: RenderSpaceId) -> (r: Vec<RenderSpaceId>)
    ensures
        r@ == ids_matching(ids@, id, ids@.len() as int),
{
    let mut r: Vec<RenderSpaceId> = Vec::new();
    let mut i: usize = 0;
    while i < ids.len()
        invariant
            i <= ids@.len(),
            r@ == ids_matching(ids@, id, i as int),
        decreases ids@.len() - i,
    {
        if ids[i].0 == id.0 {
            r.push(ids[i]);
        }
        i += 1;
    }
    r
}

/// The ids of `ids`, in order.
fn copy_ids(ids: &[RenderSpaceId]) -> (r: Vec<RenderSpaceId>)
    ensures
        r@ == ids@,
{
    let mut r: Vec<RenderSpaceId> = Vec::new();
    let mut i: usize = 0;
    while i < ids.len()
        invariant
            i <= ids@.len(),
            r@ == ids@.take(i as int),
        decreases ids@.len() - i,
    {
        r.push(ids[i]);
        proof {
            assert(ids@.take(i + 1) =~= ids@.take(i as int).push(ids@[i as int]));
        }
        i += 1;
    }
    proof {
        assert(ids@.take(ids@.len() as int) =~= ids@);
    }
    r
}

/// Resolves the render spaces one view walks.
pub fn resolve_queue_space_ids(
    prepared_active: Option<&[RenderSpaceId]>,
    filter: Option<RenderSpaceId>,
    scene_ids: &[RenderSpaceId],
    scene: &[SceneSpaceRenderers],
) -> (ids: Vec<RenderSpaceId>)
    ensures
        ids@ == spec_queue_space_ids(
            match prepared_active {
                Some(a) => Some(a@),
                None => None,
            },
            filter,
            scene_ids@,
            scene@,
        ),
{
    match prepared_active {
        Some(active) => match filter {
            Some(id) => collect_matching_ids(active, id),
            None => copy_ids(active),
        },
        None => match filter {
            Some(id) => match scene_space(scene, id.0) {
                Some(s) => {
                    let mut r: Vec<RenderSpaceId> = Vec::new();
                    if s.active {
                        r.push(id);
                    }
                    proof {
                        if s.active {
                            assert(r@ =~= seq![id]);
                        }
                    }
                    r
                },
                None => Vec::new(),
            },
            None => copy_ids(scene_ids),
        },
    }
}

/// Number of rows of `draws[0..k)` in space `id`.
pub open spec fn count_space_draws(draws: Seq<FramePreparedDraw>, id: RenderSpaceId, k: int) -> nat
    decreases k,
{
    if k <= 0 {
        0
    } else {
        count_space_draws(draws, id, k - 1) + if draws[k - 1].space_id == id { 1nat } else { 0nat }
    }
}

/// Capacity hint of the queued draw list: the prepared rows (of the filtered space when scoped),
/// or the scene-walk slot estimate of the walked spaces.
pub open spec fn spec_queue_capacity_hint(
    prepared_draws: Option<Seq<FramePreparedDraw>>,
    filter: Option<RenderSpaceId>,
    space_ids: Seq<RenderSpaceId>,
    scene: Seq<SceneSpaceRenderers>,
) -> int {
    match prepared_draws {
        Some(draws) => match filter {
            Some(id) => count_space_draws(draws, id, draws.len() as int) as int,
            None => draws.len() as int,
        },
        None => planned_slot_hint(space_ids, scene, space_ids.len() as int),
    }
}

/// Counts the prepared rows of one space.
fn count_draws_in_space(draws: &[FramePreparedDraw], id: RenderSpaceId) -> (r: usize)
    ensures
        r == count_space_draws(draws@, id, draws@.len() as int),
{
    let mut count: usize = 0;
    let mut i: usize = 0;
    while i < draws.len()
        invariant
            i <= draws@.len(),
            count == count_space_draws(draws@, id, i as int),
            count <= i,
        decreases draws@.len() - i,
    {
        if draws[i].space_id.0 == id.0 {
            count += 1;
        }
        i += 1;
    }
    count
}

/// Computes the capacity hint of one view's queued draw list.
pub fn queue_capacity_hint(
    prepared_draws: Option<&[FramePreparedDraw]>,
    filter: Option<RenderSpaceId>,
    space_ids: &[RenderSpaceId],
    scene: &[SceneSpaceRenderers],
) -> (r: usize)
    ensures
        r == spec_queue_capacity_hint(
            match prepared_draws {
                Some(d) => Some(d@),
                None => None,
            },
            filter,
            space_ids@,
            scene@,
        ),
{
    match prepared_draws {
        Some(draws) => match filter {
            Some(id) => count_draws_in_space(draws, id),
            None => draws.len(),
        },
        None => estimate_active_renderable_count(space_ids, scene),
    }
}

/// One planned draw of a renderer material slot mapped onto its submesh range.
#[derive(Clone, Copy, Debug, PartialEq, Eq, Structural)]
pub struct SlotDrawPlan {
    /// Material slot index.
    pub slot_index: usize,
    /// The material slot (or the primary-material fallback slot).
    pub slot: MeshMaterialSlot,
    /// Material-stack marker when the slot reuses the final submesh.
    pub material_stack_order: Option<MaterialStackOrder>,
    /// First index of the submesh range.
    pub first_index: u32,
    /// Index count of the submesh range.
    pub index_count: u32,
    /// Overlay flag the view emits for the renderer.
    pub is_overlay: bool,
}

/// Special layer the view sees for a renderer: its node's layer, none when detached.
pub open spec fn view_special_layer(renderer: StaticMeshRenderer, special_layer: Option<LayerType>) -> Option<LayerType> {
    if renderer.node_id >= 0 {
        special_layer
    } else {
        None
    }
}

/// Plans of the first `k` slots: each slot draws its stacked submesh range, and slots whose range
/// has no indices draw nothing.
pub open spec fn planned_slot_rows(
    renderer: StaticMeshRenderer,
    submeshes: Seq<(u32, u32)>,
    is_overlay: bool,
    k: int,
) -> Seq<SlotDrawPlan>
    decreases k,
{
    let slots = spec_resolved_material_slots(renderer);
    if k <= 0 {
        Seq::empty()
    } else {
        let prev = planned_slot_rows(renderer, submeshes, is_overlay, k - 1);
        let range = submeshes[stacked_index(k - 1, submeshes.len() as int)];
        if range.1 > 0 {
            prev.push(SlotDrawPlan {
                slot_index: (k - 1) as usize,
                slot: slots[k - 1],
                material_stack_order: spec_from_slot_counts(k - 1, slots.len() as int, submeshes.len() as int),
                first_index: range.0,
                index_count: range.1,
                is_overlay,
            })
        } else {
            prev
        }
    }
}

/// The slots of a renderer that go on to produce draws in one view: none when the renderer fails
/// the view's filters or its special layer is hidden from the view, or when it has no material
/// slot (explicit or primary) or no submesh; otherwise each slot with indices to draw.
pub open spec fn planned_slots(
    renderer: StaticMeshRenderer,
    submeshes: Seq<(u32, u32)>,
    passes_filters: bool,
    special_layer: Option<LayerType>,
    policy: ViewLayerPolicy,
    has_selective_roots: bool,
) -> Seq<SlotDrawPlan> {
    let layer = view_special_layer(renderer, special_layer);
    let slots = spec_resolved_material_slots(renderer);
    if !passes_filters || !policy.spec_shows_special_layer(layer, has_selective_roots) || submeshes.len() == 0
        || slots.len() == 0 {
        Seq::empty()
    } else {
        planned_slot_rows(
            renderer,
            submeshes,
            layer == Some(LayerType::Overlay) && !(policy is Camera),
            slots.len() as int,
        )
    }
}

/// Plans which material slots of one scene-walk renderer produce draws in a view, with each
/// slot's submesh range, stack marker and overlay flag. `passes_filters` is the view's transform
/// filter and the renderer's transform-scale gate; the material resolution, culling and draw
/// evaluation of each planned slot stay with the caller.
pub fn renderer_slot_plan(
    renderer: &StaticMeshRenderer,
    submeshes: &[(u32, u32)],
    passes_filters: bool,
    special_layer: Option<LayerType>,
    policy: ViewLayerPolicy,
    has_selective_roots: bool,
) -> (plan: Vec<SlotDrawPlan>)
    ensures
        plan@ == planned_slots(*renderer, submeshes@, passes_filters, special_layer, policy, has_selective_roots),
{
    let mut plan: Vec<SlotDrawPlan> = Vec::new();
    if !passes_filters {
        return plan;
    }
    let layer = if renderer.node_id >= 0 { special_layer } else { None };
    if !policy.shows_special_layer(layer, has_selective_roots) {
        return plan;
    }
    let slots = resolved_material_slots(renderer);
    let n_sub = submeshes.len();
    let n_slot = slots.len();
    if n_sub == 0 || n_slot == 0 {
        return plan;
    }
    let in_overlay = match layer {
        Some(LayerType::Overlay) => true,
        _ => false,
    };
    let is_overlay = policy.effective_overlay(in_overlay);
    let mut k: usize = 0;
    while k < n_slot
        invariant
            k <= n_slot,
            n_slot == slots@.len(),
            n_sub == submeshes@.len(),
            n_sub > 0,
            slots@ == spec_resolved_material_slots(*renderer),
            is_overlay == (layer == Some(LayerType::Overlay) && !(policy is Camera)),
            plan@ == planned_slot_rows(*renderer, submeshes@, is_overlay, k as int),
        decreases n_slot - k,
    {
        match stacked_material_submesh_range(k, submeshes) {
            Some(range) => {
                if range.1 > 0 {
                    plan.push(SlotDrawPlan {
                        slot_index: k,
                        slot: slots[k],
                        material_stack_order: MaterialStackOrder::from_slot_counts(k, n_slot, n_sub),
                        first_index: range.0,
                        index_count: range.1,
                        is_overlay,
                    });
                }
            },
            None => {},
        }
        k += 1;
    }
    plan
}

/// Whether a resolved slot can become a draw item: it has indices to draw and a material. The
/// batch-key lookup and the float sort keys of the item stay with the caller.
pub fn draw_candidate_admitted(index_count: u32, material_asset_id: i32) -> (r: bool)
    ensures
        r == (index_count > 0 && material_asset_id >= 0),
{
    index_count != 0 && material_asset_id >= 0
}

/// Draw candidates one collection chunk produced, with its culling counters.
pub struct CollectedChunk<T> {
    /// Candidates in the chunk's deterministic order.
    pub items: Vec<T>,
    /// Candidates before CPU culling.
    pub draws_pre_cull: usize,
    /// Candidates rejected by CPU frustum culling.
    pub draws_culled: usize,
    /// Candidates rejected by temporal Hi-Z culling.
    pub draws_hi_z_culled: usize,
}

/// One queued candidate with its stable collection order.
pub struct QueuedDraw<T> {
    /// Dense index in scene collection order.
    pub collect_order: usize,
    /// The candidate.
    pub item: T,
}

/// Draw candidates queued for one view before phase arrangement.
pub struct QueuedWorldMeshDraws<T> {
    /// Candidates in scene collection order.
    pub items: Vec<QueuedDraw<T>>,
    /// Candidates before CPU culling.
    pub draws_pre_cull: usize,
    /// Candidates rejected by CPU frustum culling.
    pub draws_culled: usize,
    /// Candidates rejected by temporal Hi-Z culling.
    pub draws_hi_z_culled: usize,
}

/// The candidates of `chunks`, chunk after chunk.
pub open spec fn chunk_items<T>(chunks: Seq<CollectedChunk<T>>) -> Seq<T> {
    chunks.map_values(|c: CollectedChunk<T>| c.items@).flatten()
}

/// Sum of the pre-cull counters of `chunks[0..k)`.
pub open spec fn sum_pre_cull<T>(chunks: Seq<CollectedChunk<T>>, k: int) -> nat
    decreases k,
{
    if k <= 0 { 0 } else { sum_pre_cull(chunks, k - 1) + chunks[k - 1].draws_pre_cull as nat }
}

/// Sum of the frustum-culled counters of `chunks[0..k)`.
pub open spec fn sum_culled<T>(chunks: Seq<CollectedChunk<T>>, k: int) -> nat
    decreases k,
{
    if k <= 0 { 0 } else { sum_culled(chunks, k - 1) + chunks[k - 1].draws_culled as nat }
}

/// Sum of the Hi-Z-culled counters of `chunks[0..k)`.
pub open spec fn sum_hi_z_culled<T>(chunks: Seq<CollectedChunk<T>>, k: int) -> nat
    decreases k,
{
    if k <= 0 { 0 } else { sum_hi_z_culled(chunks, k - 1) + chunks[k - 1].draws_hi_z_culled as nat }
}

/// Prefix sums grow with the prefix.
proof fn lemma_sums_monotone<T>(chunks: Seq<CollectedChunk<T>>, j: int, k: int)
    requires
        0 <= j <= k,
    ensures
        sum_pre_cull(chunks, j) <= sum_pre_cull(chunks, k),
        sum_culled(chunks, j) <= sum_culled(chunks, k),
        sum_hi_z_culled(chunks, j) <= sum_hi_z_culled(chunks, k),
    decreases k - j,
{
    if j < k {
        lemma_sums_monotone(chunks, j, k - 1);
    }
}

/// `queued` holds `items` in order, each tagged with its own index.
pub open spec fn queued_in_order<T>(queued: Seq<QueuedDraw<T>>, items: Seq<T>) -> bool {
    &&& queued.len() == items.len()
    &&& forall|i: int| 0 <= i < queued.len() ==> (#[trigger] queued[i]).item == items[i] && queued[i].collect_order == i
}

/// Merges per-chunk collection output in chunk order, assigns each candidate its dense
/// collection order and sums the culling counters.
pub fn merge_collected_chunks<T>(chunks: Vec<CollectedChunk<T>>) -> (q: QueuedWorldMeshDraws<T>)
    requires
        sum_pre_cull(chunks@, chunks@.len() as int) <= usize::MAX,
        sum_culled(chunks@, chunks@.len() as int) <= usize::MAX,
        sum_hi_z_culled(chunks@, chunks@.len() as int) <= usize::MAX,
    ensures
        queued_in_order(q.items@, chunk_items(chunks@)),
        q.draws_pre_cull == sum_pre_cull(chunks@, chunks@.len() as int),
        q.draws_culled == sum_culled(chunks@, chunks@.len() as int),
        q.draws_hi_z_culled == sum_hi_z_culled(chunks@, chunks@.len() as int),
{
    let ghost all = chunks@;
    let mut out: Vec<QueuedDraw<T>> = Vec::new();
    let mut pre_cull: usize = 0;
    let mut culled: usize = 0;
    let mut hi_z_culled: usize = 0;
    proof {
        assert(all.take(0).map_values(|c: CollectedChunk<T>| c.items@) =~= Seq::<Seq<T>>::empty());
    }
    for chunk in it: chunks.into_iter()
        invariant
            it.seq() == all,
            sum_pre_cull(all, all.len() as int) <= usize::MAX,
            sum_culled(all, all.len() as int) <= usize::MAX,
            sum_hi_z_culled(all, all.len() as int) <= usize::MAX,
            queued_in_order(out@, chunk_items(all.take(it.index() as int))),
            pre_cull == sum_pre_cull(all, it.index() as int),
            culled == sum_culled(all, it.index() as int),
            hi_z_culled == sum_hi_z_culled(all, it.index() as int),
    {
        let ghost k = it.index() as int;
        let ghost prefix = chunk_items(all.take(k));
        proof {
            lemma_sums_monotone(all, k + 1, all.len() as int);
        }
        let CollectedChunk { items, draws_pre_cull, draws_culled, draws_hi_z_culled } = chunk;
        pre_cull = pre_cull + draws_pre_cull;
        culled = culled + draws_culled;
        hi_z_culled = hi_z_culled + draws_hi_z_culled;
        let ghost chunk_seq = items@;
        for item in it2: items.into_iter()
            invariant
                it2.seq() == chunk_seq,
                queued_in_order(out@, prefix + chunk_seq.take(it2.index() as int)),
        {
            let ghost j = it2.index() as int;
            let order = out.len();
            out.push(QueuedDraw { collect_order: order, item });
            proof {
                assert(prefix + chunk_seq.take(j + 1) =~= (prefix + chunk_seq.take(j)).push(item));
            }
        }
        proof {
            assert(chunk_seq.take(chunk_seq.len() as int) =~= chunk_seq);
            assert(all.take(k + 1) =~= all.take(k).push(all[k]));
            assert(all.take(k + 1).map_values(|c: CollectedChunk<T>| c.items@) =~= all.take(k).map_values(
                |c: CollectedChunk<T>| c.items@,
            ).push(chunk_seq));
            all.take(k).map_values(|c: CollectedChunk<T>| c.items@).lemma_flatten_push(chunk_seq);
        }
    }
    proof {
        assert(all.take(all.len() as int) =~= all);
    }
    QueuedWorldMeshDraws { items: out, draws_pre_cull: pre_cull, draws_culled: culled, draws_hi_z_culled: hi_z_culled }
}

} // verus!
