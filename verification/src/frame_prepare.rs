//! The per-frame preparation pass of the render-world cache: consume mesh-pool and context
//! changes, expand deferred dirties, refresh dirty retained records, and rebuild the prepared
//! snapshot when anything it holds changed.
use vstd::prelude::*;

use crate::collections::{id_set_contents, renderer_dirty_contents, IdSet};
use crate::dirty_expansion::{mesh_asset_step, transform_step, SceneSpaceTable, TransformDirtyExpansionStats};
use crate::frame_maintenance::{
    dirty_bounds_refreshed, dirty_renderers_refreshed, dirty_spaces_refreshed, sum_outcomes,
    dirty_space_outcome, bounds_outcome, present_groups, bounds_refit_spaces,
};
use crate::maintenance::RenderWorldMaintenanceStats;
use crate::prepared::FramePreparedDraw;
use crate::render_world::{
    space_id_set, spec_mark_all_scene_spaces_dirty, spec_note_mesh_pool_delta, MeshPoolMutationDelta,
    RenderWorld, RenderWorldDirtyModel, RenderingContext,
};
use crate::retained_refresh::{sat_sum, RefreshOutcome, SceneSpaceRenderers};
use crate::shared::RenderSpaceId;
use crate::snapshot_rebuild::{snapshot_rebuilt, SnapshotRebuildStats};

verus! {

/// What one frame's preparation reads of the scene and its assets.
pub struct SceneFrameInputs {
    /// Render space ids in the scene's order.
    pub space_ids: Vec<RenderSpaceId>,
    /// Node parent tables of the live spaces, for transform-root expansion.
    pub nodes: SceneSpaceTable,
    /// Renderer tables of the live spaces, for retained-record refresh.
    pub renderers: Vec<SceneSpaceRenderers>,
    /// Generated particle rows of each space that has particle render buffers.
    pub particles: Vec<(RenderSpaceId, Vec<FramePreparedDraw>)>,
}

/// Whether the prepared snapshot cannot serve `render_context`.
pub open spec fn context_changed(pre: RenderWorld, render_context: RenderingContext) -> bool {
    !(pre.prepared.context_invariant || pre.prepared.render_context == render_context)
}

/// Dirty state once the context change and the mesh-pool delta are consumed.
pub open spec fn delta_noted(pre: RenderWorld, delta: MeshPoolMutationDelta, render_context: RenderingContext) -> RenderWorldDirtyModel {
    spec_note_mesh_pool_delta(
        RenderWorldDirtyModel {
            full_rebuild_requested: pre@.full_rebuild_requested || context_changed(pre, render_context),
            ..pre@
        },
        delta,
    )
}

/// `post` is `pre` after the frame's first phase: a context change requests a full rebuild, the
/// mesh-pool delta is consumed, a requested full rebuild marks every scene space dirty, and the
/// deferred transform-root and mesh-asset dirties are expanded (`ts` are the transform totals).
pub open spec fn frame_begun(
    pre: RenderWorld,
    post: RenderWorld,
    scene: SceneFrameInputs,
    delta: MeshPoolMutationDelta,
    render_context: RenderingContext,
    ts: TransformDirtyExpansionStats,
) -> bool {
    let noted = delta_noted(pre, delta, render_context);
    let full = noted.full_rebuild_requested;
    exists|marked: RenderWorld, mid: RenderWorld| {
        &&& marked@ == (if full {
            spec_mark_all_scene_spaces_dirty(noted, space_id_set(scene.space_ids@, scene.space_ids@.len() as int))
        } else {
            noted
        })
        &&& marked.storage_kept(&pre)
        &&& marked.wf()
        &&& #[trigger] transform_step(marked, scene.nodes, mid, ts)
        &&& mesh_asset_step(mid, post)
    }
}

/// Maintenance counters gathered by the first phase.
pub open spec fn begun_stats(
    pre: RenderWorld,
    post: RenderWorld,
    delta: MeshPoolMutationDelta,
    render_context: RenderingContext,
    ts: TransformDirtyExpansionStats,
) -> RenderWorldMaintenanceStats {
    let noted = delta_noted(pre, delta, render_context);
    RenderWorldMaintenanceStats {
        context_invariant_count: if pre.context_invariant { 1 } else { 0 },
        mesh_asset_invalidation_count: if delta.current_generation == pre.mesh_pool_generation || delta.requires_full_rebuild {
            0
        } else {
            delta.changed_assets@.len() as usize
        },
        full_world_rebuild_count: if noted.full_rebuild_requested { 1 } else { 0 },
        transform_root_dirty_count: ts.root_count,
        transform_root_scanned_node_count: ts.scanned_node_count,
        transform_root_expanded_renderer_count: ts.expanded_renderer_count,
        transform_root_full_space_count: ts.full_space_root_count,
        topology_dirty_count: post.pending_topology_dirty_count,
        material_dirty_count: post.pending_material_dirty_count,
        transform_only_dirty_count: post.pending_transform_only_dirty_count,
        mesh_asset_dirty_renderer_count: post.pending_mesh_asset_dirty_renderer_count,
        dirty_renderer_count: post@.dirty_renderers.len() as usize,
        bounds_dirty_renderer_count: post@.dirty_bounds.len() as usize,
        ..RenderWorldMaintenanceStats::spec_zero()
    }
}

/// The full-space refresh step: nothing without dirty spaces, else the refresh of every dirty
/// space (`o` sums the per-space outcomes).
pub open spec fn spaces_phase(pre: RenderWorld, post: RenderWorld, scene: Seq<SceneSpaceRenderers>, o: RefreshOutcome) -> bool {
    if pre@.dirty_spaces == Set::<i32>::empty() {
        post == pre && o == crate::retained_refresh::no_outcome()
    } else {
        exists|order: Seq<i32>| {
            &&& #[trigger] dirty_spaces_refreshed(pre, post, scene, order)
            &&& o == sum_outcomes(order.map_values(|id: i32| dirty_space_outcome(post, scene, id)), order.len() as int)
        }
    }
}

/// The renderer-row refresh step: nothing without dirty rows, else their refresh.
pub open spec fn renderers_phase(pre: RenderWorld, post: RenderWorld, scene: Seq<SceneSpaceRenderers>, o: RefreshOutcome) -> bool {
    if pre@.dirty_renderers == Set::<(i32, bool, usize)>::empty() {
        post == pre && o == crate::retained_refresh::no_outcome()
    } else {
        exists|groups: Seq<(RenderSpaceId, crate::retained_refresh::DirtyRendererSet)>, outs: Seq<RefreshOutcome>| {
            &&& #[trigger] dirty_renderers_refreshed(pre, post, scene, groups, outs)
            &&& o == sum_outcomes(outs, outs.len() as int)
        }
    }
}

/// The bounds refresh step: nothing without bounds-dirty rows, else their bounds refresh, with
/// the spaces needing a spatial refit.
pub open spec fn bounds_phase(pre: RenderWorld, post: RenderWorld, scene: Seq<SceneSpaceRenderers>, o: RefreshOutcome, refit: Seq<RenderSpaceId>) -> bool {
    if pre@.dirty_bounds == Set::<(i32, bool, usize)>::empty() {
        post == pre && o == crate::retained_refresh::no_outcome() && refit.len() == 0
    } else {
        exists|groups: Seq<(RenderSpaceId, crate::retained_refresh::DirtyRendererSet)>| {
            let present = present_groups(groups, scene, groups.len() as int);
            &&& #[trigger] dirty_bounds_refreshed(pre, post, scene, groups)
            &&& o == sum_outcomes(present.map_values(|id: i32| bounds_outcome(pre@.dirty_bounds, scene, id)), present.len() as int)
            &&& refit == bounds_refit_spaces(pre@.dirty_bounds, scene, present, present.len() as int)
        }
    }
}

/// The three refresh steps in order: `pre` to `w1` (spaces), `w1` to `w2` (renderer rows), `w2`
/// to `post` (bounds).
pub open spec fn records_refresh_chain(
    pre: RenderWorld,
    w1: RenderWorld,
    w2: RenderWorld,
    post: RenderWorld,
    scene: Seq<SceneSpaceRenderers>,
    o1: RefreshOutcome,
    o2: RefreshOutcome,
    o3: RefreshOutcome,
    refit: Seq<RenderSpaceId>,
) -> bool {
    &&& spaces_phase(pre, w1, scene, o1)
    &&& renderers_phase(w1, w2, scene, o2)
    &&& bounds_phase(w2, post, scene, o3, refit)
}

/// Counters after the refresh steps with outcomes `o1` (spaces), `o2` (renderer rows) and `o3`
/// (bounds), all sums saturating.
pub open spec fn refreshed_stats(
    stats: RenderWorldMaintenanceStats,
    o1: RefreshOutcome,
    o2: RefreshOutcome,
    o3: RefreshOutcome,
    particle_dirty: bool,
) -> RenderWorldMaintenanceStats {
    RenderWorldMaintenanceStats {
        full_space_rebuild_count: sat_sum(stats.full_space_rebuild_count as int, o1.full_space_count as int) as usize,
        refreshed_renderer_count: sat_sum(
            sat_sum(stats.refreshed_renderer_count as int, o1.renderer_count as int),
            o2.renderer_count as int,
        ) as usize,
        refreshed_template_count: sat_sum(
            sat_sum(stats.refreshed_template_count as int, o1.template_count as int),
            o2.template_count as int,
        ) as usize,
        bounds_refreshed_renderer_count: sat_sum(stats.bounds_refreshed_renderer_count as int, o3.renderer_count as int) as usize,
        spatial_refit_count: sat_sum(stats.spatial_refit_count as int, o3.spatial_refit_count as int) as usize,
        particle_snapshot_rebuild_count: if particle_dirty { 1 } else { stats.particle_snapshot_rebuild_count },
        ..stats
    }
}

/// Render spaces whose snapshot rows a partial rebuild must not reuse: the dirty spaces and the
/// spaces of dirty renderer rows.
pub open spec fn snapshot_dirty_space_set(m: RenderWorldDirtyModel) -> Set<i32> {
    m.dirty_spaces.union(Set::new(|id: i32| exists|k: (i32, bool, usize)| m.dirty_renderers.contains(k) && k.0 == id))
}

/// Retained templates of the first `k` stored spaces, saturating.
pub open spec fn stored_template_total(store: Seq<crate::retained::RenderWorldSpace>, k: int) -> int
    decreases k,
{
    if k <= 0 {
        0
    } else {
        sat_sum(stored_template_total(store, k - 1), store[k - 1].spec_retained_template_count() as int)
    }
}

/// `post` is `pre` after one frame's preparation against `scene`, the mesh-pool `delta` and
/// `render_context`, with `refit` the spaces needing a spatial bounds refit: the first phase
/// ([`frame_begun`]), the refresh steps ([`records_refresh_chain`]), then a snapshot rebuild
/// when dirty spaces existed, a full rebuild or context change was due, renderer rows were
/// refreshed, or particle rows changed (partial unless a full rebuild, a context change or
/// particle churn forces a full one); finally the request flags and pending counters reset and
/// the frame's counters are recorded.
pub open spec fn frame_prepared(
    pre: RenderWorld,
    post: RenderWorld,
    scene: SceneFrameInputs,
    delta: MeshPoolMutationDelta,
    render_context: RenderingContext,
    refit: Seq<RenderSpaceId>,
) -> bool {
    exists|mid1: RenderWorld, ts: TransformDirtyExpansionStats, w1: RenderWorld, w2: RenderWorld, mid2: RenderWorld,
        o1: RefreshOutcome, o2: RefreshOutcome, o3: RefreshOutcome, chunk_tasks: nat, snap: SnapshotRebuildStats|
        #[trigger] frame_steps(pre, mid1, ts, w1, w2, mid2, post, scene, delta, render_context, refit, o1, o2, o3, chunk_tasks, snap)
}

/// The steps of [`frame_prepared`] with their intermediate states and outcomes.
pub open spec fn frame_steps(
    pre: RenderWorld,
    mid1: RenderWorld,
    ts: TransformDirtyExpansionStats,
    w1: RenderWorld,
    w2: RenderWorld,
    mid2: RenderWorld,
    post: RenderWorld,
    scene: SceneFrameInputs,
    delta: MeshPoolMutationDelta,
    render_context: RenderingContext,
    refit: Seq<RenderSpaceId>,
    o1: RefreshOutcome,
    o2: RefreshOutcome,
    o3: RefreshOutcome,
    chunk_tasks: nat,
    snap: SnapshotRebuildStats,
) -> bool {
    let cc = context_changed(pre, render_context);
    let full = delta_noted(pre, delta, render_context).full_rebuild_requested;
    let snapshot_dirty = (mid1@.dirty_spaces != Set::<i32>::empty() || full || cc) || o2.renderer_count > 0
        || mid2.particle_snapshot_dirty;
    let force_full = full || cc || mid1.particle_snapshot_dirty;
    let refreshed = refreshed_stats(begun_stats(pre, mid1, delta, render_context, ts), o1, o2, o3, mid2.particle_snapshot_dirty);
    &&& frame_begun(pre, mid1, scene, delta, render_context, ts)
    &&& records_refresh_chain(mid1, w1, w2, mid2, scene.renderers@, o1, o2, o3, refit)
    &&& snapshot_dirty ==> snapshot_rebuilt(
        mid2,
        post.prepared,
        scene.space_ids@,
        scene.renderers@,
        scene.particles@,
        render_context,
        if force_full { None } else { Some(snapshot_dirty_space_set(mid1@)) },
        chunk_tasks,
        snap,
    )
    &&& !snapshot_dirty ==> post.prepared == mid2.prepared
    &&& post == (RenderWorld {
        prepared: post.prepared,
        particle_snapshot_dirty: if snapshot_dirty { false } else { mid2.particle_snapshot_dirty },
        full_rebuild_requested: false,
        pending_topology_dirty_count: 0,
        pending_material_dirty_count: 0,
        pending_transform_only_dirty_count: 0,
        pending_mesh_asset_dirty_renderer_count: 0,
        maintenance_stats: post.maintenance_stats,
        ..mid2
    })
    &&& post.maintenance_stats == (if snapshot_dirty {
        RenderWorldMaintenanceStats {
            snapshot_rebuild_task_count: snap.task_count,
            snapshot_retained_draw_count: snap.retained_draw_count,
            snapshot_reused_space_count: snap.reused_space_count,
            spatial_rebuild_count: 1,
            retained_template_count: stored_template_total(mid2.spaces.store@, mid2.spaces.store@.len() as int) as usize,
            ..refreshed
        }
    } else {
        RenderWorldMaintenanceStats {
            steady_state_skip_count: 1,
            retained_template_count: stored_template_total(mid2.spaces.store@, mid2.spaces.store@.len() as int) as usize,
            ..refreshed
        }
    })
}

/// Retained templates of every stored space, saturating.
fn saturating_stored_template_count(table: &crate::render_world::RetainedSpaceTable) -> (r: usize)
    ensures
        r == stored_template_total(table.store@, table.store@.len() as int),
{
    let mut total: usize = 0;
    let mut i: usize = 0;
    while i < table.store.len()
        invariant
            i <= table.store@.len(),
            total == stored_template_total(table.store@, i as int),
        decreases table.store@.len() - i,
    {
        total = total.saturating_add(crate::retained_refresh::saturating_template_count(&table.store[i]));
        i += 1;
    }
    total
}

/// The spaces a partial snapshot rebuild must not reuse.
fn collect_snapshot_dirty_spaces(world: &RenderWorld) -> (r: IdSet)
    ensures
        id_set_contents(r) == snapshot_dirty_space_set(world@),
{
    let mut r = IdSet::new();
    let ids = world.dirty_spaces.to_vec();
    let mut i: usize = 0;
    while i < ids.len()
        invariant
            i <= ids@.len(),
            id_set_contents(r) == ids@.subrange(0, i as int).to_set(),
        decreases ids@.len() - i,
    {
        r.insert(ids[i]);
        proof {
            assert(ids@.subrange(0, i + 1) =~= ids@.subrange(0, i as int).push(ids@[i as int]));
            ids@.subrange(0, i as int).lemma_push_to_set_commute(ids@[i as int]);
        }
        i += 1;
    }
    proof {
        assert(ids@.subrange(0, ids@.len() as int) =~= ids@);
    }
    let rows = world.dirty_renderers.to_vec();
    let ghost base = id_set_contents(r);
    let mut j: usize = 0;
    while j < rows.len()
        invariant
            j <= rows@.len(),
            id_set_contents(r) == base.union(rows@.subrange(0, j as int).map_values(|k: (i32, bool, usize)| k.0).to_set()),
        decreases rows@.len() - j,
    {
        r.insert(rows[j].0);
        proof {
            let a = rows@.subrange(0, j as int).map_values(|k: (i32, bool, usize)| k.0);
            assert(rows@.subrange(0, j + 1).map_values(|k: (i32, bool, usize)| k.0) =~= a.push(rows@[j as int].0));
            a.lemma_push_to_set_commute(rows@[j as int].0);
            assert(id_set_contents(r) =~= base.union(rows@.subrange(0, j + 1).map_values(|k: (i32, bool, usize)| k.0).to_set()));
        }
        j += 1;
    }
    proof {
        assert(rows@.subrange(0, rows@.len() as int) =~= rows@);
        let spaces = rows@.map_values(|k: (i32, bool, usize)| k.0);
        let mapped = spaces.to_set();
        let part = Set::new(|id: i32| exists|k: (i32, bool, usize)| world@.dirty_renderers.contains(k) && k.0 == id);
        assert forall|id: i32| #[trigger] mapped.contains(id) <==> part.contains(id) by {
            if mapped.contains(id) {
                let q = choose|q: int| 0 <= q < spaces.len() && #[trigger] spaces[q] == id;
                assert(rows@.contains(rows@[q]));
                assert(world@.dirty_renderers.contains(rows@[q]));
            }
            if part.contains(id) {
                let k = choose|k: (i32, bool, usize)| world@.dirty_renderers.contains(k) && k.0 == id;
                assert(rows@.contains(k));
                let q = choose|q: int| 0 <= q < rows@.len() && rows@[q] == k;
                assert(spaces[q] == id);
            }
        }
        assert(id_set_contents(r) =~= snapshot_dirty_space_set(world@));
    }
    r
}

impl RenderWorld {
    /// First phase of frame preparation; returns whether a full rebuild runs, whether the render
    /// context changed, and the counters gathered so far.
    fn begin_frame(
        &mut self,
        scene: &SceneFrameInputs,
        delta: &MeshPoolMutationDelta,
        render_context: RenderingContext,
    ) -> (r: (bool, bool, RenderWorldMaintenanceStats))
        requires
            old(self).wf(),
            scene.nodes.wf(),
        ensures
            final(self).wf(),
            exists|ts: TransformDirtyExpansionStats| {
                &&& #[trigger] frame_begun(*old(self), *final(self), *scene, *delta, render_context, ts)
                &&& r.2 == begun_stats(*old(self), *final(self), *delta, render_context, ts)
            },
            r.0 == delta_noted(*old(self), *delta, render_context).full_rebuild_requested,
            r.1 == context_changed(*old(self), render_context),
            final(self).maintenance_stats == old(self).maintenance_stats,
    {
        let ghost pre = *self;
        let mut stats = RenderWorldMaintenanceStats::zero();
        stats.context_invariant_count = if self.context_invariant { 1 } else { 0 };
        let context_changed = !self.prepared.is_compatible_with_render_context(render_context);
        if context_changed {
            self.full_rebuild_requested = true;
        }
        proof {
            RenderWorld::lemma_wf_frame_pub(&pre, self);
            assert(self@ == (RenderWorldDirtyModel {
                full_rebuild_requested: pre@.full_rebuild_requested || context_changed,
                ..pre@
            }));
        }
        let ghost before_delta = *self;
        let _changed_asset_count = delta.changed_assets.len();
        self.note_mesh_pool_delta(delta, &mut stats);
        let full_rebuild = self.full_rebuild_requested;
        let ghost after_delta = *self;
        if full_rebuild {
            stats.full_world_rebuild_count = 1;
            self.mark_all_scene_spaces_dirty(scene.space_ids.as_slice());
        }
        let ghost marked = *self;
        proof {
            assert(marked.storage_kept(&pre)) by {
                assert forall|k: i32| #[trigger] marked.spaces.spec_ids().contains(k) implies pre.spaces.spec_ids().contains(k)
                    && marked.spaces.spec_get(k) == pre.spaces.spec_get(k) by {
                    assert(after_delta.spaces.spec_ids().contains(k));
                }
            }
        }
        let ghost stats_before_expand = stats;
        self.expand_deferred_dirty_inputs(&scene.nodes, &mut stats);
        let ghost after_expand = *self;
        let ghost stats_after_expand = stats;
        stats.topology_dirty_count = self.pending_topology_dirty_count;
        stats.material_dirty_count = self.pending_material_dirty_count;
        stats.transform_only_dirty_count = self.pending_transform_only_dirty_count;
        stats.mesh_asset_dirty_renderer_count = self.pending_mesh_asset_dirty_renderer_count;
        stats.dirty_renderer_count = self.dirty_renderers.len();
        stats.bounds_dirty_renderer_count = self.dirty_bounds_renderers.len();
        proof {
            let (mid, ts) = choose|mid: RenderWorld, ts: TransformDirtyExpansionStats| {
                &&& #[trigger] transform_step(marked, scene.nodes, mid, ts)
                &&& mesh_asset_step(mid, after_expand)
                &&& stats_after_expand == (RenderWorldMaintenanceStats {
                    transform_root_dirty_count: crate::dirty_expansion::sat_add(stats_before_expand.transform_root_dirty_count as int, ts.root_count as int) as usize,
                    transform_root_scanned_node_count: crate::dirty_expansion::sat_add(stats_before_expand.transform_root_scanned_node_count as int, ts.scanned_node_count as int) as usize,
                    transform_root_expanded_renderer_count: crate::dirty_expansion::sat_add(stats_before_expand.transform_root_expanded_renderer_count as int, ts.expanded_renderer_count as int) as usize,
                    transform_root_full_space_count: crate::dirty_expansion::sat_add(stats_before_expand.transform_root_full_space_count as int, ts.full_space_root_count as int) as usize,
                    ..stats_before_expand
                })
            };
            assert(frame_begun(pre, *self, *scene, *delta, render_context, ts));
            assert(stats == begun_stats(pre, *self, *delta, render_context, ts));
        }
        (full_rebuild, context_changed, stats)
    }

    /// The full-space refresh step.
    fn spaces_step(&mut self, scene: &[SceneSpaceRenderers]) -> (o: RefreshOutcome)
        requires
            old(self).wf(),
        ensures
            final(self).wf(),
            final(self).maintenance_stats == old(self).maintenance_stats,
            spaces_phase(*old(self), *final(self), scene@, o),
    {
        if self.dirty_spaces.is_empty() {
            RefreshOutcome { renderer_count: 0, template_count: 0, full_space_count: 0, spatial_refit_count: 0 }
        } else {
            self.refresh_dirty_spaces(scene)
        }
    }

    /// The renderer-row refresh step.
    fn renderers_step(&mut self, scene: &[SceneSpaceRenderers]) -> (o: RefreshOutcome)
        requires
            old(self).wf(),
        ensures
            final(self).wf(),
            final(self).maintenance_stats == old(self).maintenance_stats,
            renderers_phase(*old(self), *final(self), scene@, o),
    {
        if self.dirty_renderers.is_empty() {
            proof {
                assert(self@.dirty_renderers =~= Set::<(i32, bool, usize)>::empty());
            }
            RefreshOutcome { renderer_count: 0, template_count: 0, full_space_count: 0, spatial_refit_count: 0 }
        } else {
            proof {
                if self@.dirty_renderers == Set::<(i32, bool, usize)>::empty() {
                    assert(forall|k: (i32, bool, usize)| !renderer_dirty_contents(self.dirty_renderers).contains(k));
                }
            }
            self.refresh_dirty_renderers(scene)
        }
    }

    /// The bounds refresh step.
    fn bounds_step(&mut self, scene: &[SceneSpaceRenderers]) -> (r: (RefreshOutcome, Vec<RenderSpaceId>))
        requires
            old(self).wf(),
        ensures
            final(self).wf(),
            final(self).maintenance_stats == old(self).maintenance_stats,
            bounds_phase(*old(self), *final(self), scene@, r.0, r.1@),
    {
        if self.dirty_bounds_renderers.is_empty() {
            proof {
                assert(self@.dirty_bounds =~= Set::<(i32, bool, usize)>::empty());
            }
            (RefreshOutcome { renderer_count: 0, template_count: 0, full_space_count: 0, spatial_refit_count: 0 }, Vec::new())
        } else {
            proof {
                if self@.dirty_bounds == Set::<(i32, bool, usize)>::empty() {
                    assert(forall|k: (i32, bool, usize)| !renderer_dirty_contents(self.dirty_bounds_renderers).contains(k));
                }
            }
            self.refresh_dirty_bounds(scene)
        }
    }

    /// Second phase of frame preparation: refreshes dirty spaces, renderer rows and bounds rows;
    /// returns whether the snapshot needs a rebuild and the spaces needing a spatial refit.
    fn refresh_dirty_records(
        &mut self,
        scene: &[SceneSpaceRenderers],
        stats: &mut RenderWorldMaintenanceStats,
        full_or_context: bool,
    ) -> (r: (bool, Vec<RenderSpaceId>))
        requires
            old(self).wf(),
        ensures
            final(self).wf(),
            final(self).maintenance_stats == old(self).maintenance_stats,
            exists|w1: RenderWorld, w2: RenderWorld, o1: RefreshOutcome, o2: RefreshOutcome, o3: RefreshOutcome|
                #[trigger] records_refresh_chain(*old(self), w1, w2, *final(self), scene@, o1, o2, o3, r.1@)
                && r.0 == ((old(self)@.dirty_spaces != Set::<i32>::empty() || full_or_context)
                    || o2.renderer_count > 0 || final(self).particle_snapshot_dirty)
                && *final(stats) == refreshed_stats(*old(stats), o1, o2, o3, final(self).particle_snapshot_dirty),
    {
        let ghost pre = *self;
        let had_dirty_spaces = !self.dirty_spaces.is_empty();
        let o1 = self.spaces_step(scene);
        let ghost w1 = *self;
        let o2 = self.renderers_step(scene);
        let ghost w2 = *self;
        let (o3, refit) = self.bounds_step(scene);
        stats.full_space_rebuild_count = stats.full_space_rebuild_count.saturating_add(o1.full_space_count);
        stats.refreshed_renderer_count = stats.refreshed_renderer_count.saturating_add(o1.renderer_count).saturating_add(o2.renderer_count);
        stats.refreshed_template_count = stats.refreshed_template_count.saturating_add(o1.template_count).saturating_add(o2.template_count);
        stats.bounds_refreshed_renderer_count = stats.bounds_refreshed_renderer_count.saturating_add(o3.renderer_count);
        stats.spatial_refit_count = stats.spatial_refit_count.saturating_add(o3.spatial_refit_count);
        let mut snapshot_dirty = had_dirty_spaces || full_or_context || o2.renderer_count > 0;
        if self.particle_snapshot_dirty {
            stats.particle_snapshot_rebuild_count = 1;
            snapshot_dirty = true;
        }
        proof {
            assert(spaces_phase(pre, w1, scene@, o1));
            assert(renderers_phase(w1, w2, scene@, o2));
            assert(bounds_phase(w2, *self, scene@, o3, refit@));
            assert(records_refresh_chain(pre, w1, w2, *self, scene@, o1, o2, o3, refit@));
            assert(*stats == refreshed_stats(*old(stats), o1, o2, o3, self.particle_snapshot_dirty));
            assert(snapshot_dirty == ((pre@.dirty_spaces != Set::<i32>::empty() || full_or_context)
                || o2.renderer_count > 0 || self.particle_snapshot_dirty));
        }
        let r = (snapshot_dirty, refit);
        proof {
            assert(r.1@ == refit@);
            assert(exists|w1: RenderWorld, w2: RenderWorld, o1: RefreshOutcome, o2: RefreshOutcome, o3: RefreshOutcome|
                #[trigger] records_refresh_chain(pre, w1, w2, *self, scene@, o1, o2, o3, r.1@)
                && r.0 == ((pre@.dirty_spaces != Set::<i32>::empty() || full_or_context)
                    || o2.renderer_count > 0 || self.particle_snapshot_dirty)
                && *stats == refreshed_stats(*old(stats), o1, o2, o3, self.particle_snapshot_dirty));
        }
        r
    }

    /// Returns the prepared snapshot's needs for this frame after refreshing every dirty
    /// retained record and rebuilding the snapshot when anything it holds changed; returns the
    /// spaces whose float bounds and spatial data the caller refits.
    pub fn prepare_for_frame(
        &mut self,
        scene: &SceneFrameInputs,
        delta: &MeshPoolMutationDelta,
        render_context: RenderingContext,
    ) -> (refit: Vec<RenderSpaceId>)
        requires
            old(self).wf(),
            scene.nodes.wf(),
        ensures
            final(self).wf(),
            frame_prepared(*old(self), *final(self), *scene, *delta, render_context, refit@),
    {
        let ghost pre = *self;
        let (full_rebuild, context_changed, mut stats) = self.begin_frame(scene, delta, render_context);
        let ghost mid1 = *self;
        let ghost stats_begun = stats;
        let snapshot_dirty_spaces = collect_snapshot_dirty_spaces(self);
        let force_full_snapshot = full_rebuild || context_changed || self.particle_snapshot_dirty;
        let (snapshot_dirty, refit) = self.refresh_dirty_records(scene.renderers.as_slice(), &mut stats, full_rebuild || context_changed);
        let ghost mid2 = *self;
        let ghost stats_refreshed = stats;
        let ghost mut snap = SnapshotRebuildStats { task_count: 0, retained_draw_count: 0, reused_space_count: 0 };
        let ghost mut chunk_tasks: nat = 0;
        if snapshot_dirty {
            let dirty = if force_full_snapshot { None } else { Some(&snapshot_dirty_spaces) };
            let ghost dirty_spec = if force_full_snapshot { None } else { Some(snapshot_dirty_space_set(mid1@)) };
            proof {
                assert(crate::snapshot_rebuild::dirty_contents(dirty) == dirty_spec);
            }
            let rebuilt = self.rebuild_prepared_snapshot(
                scene.space_ids.as_slice(),
                scene.renderers.as_slice(),
                scene.particles.as_slice(),
                render_context,
                dirty,
            );
            proof {
                snap = rebuilt;
                chunk_tasks = choose|n: nat| #[trigger] snapshot_rebuilt(
                    mid2, self.prepared, scene.space_ids@, scene.renderers@, scene.particles@, render_context, dirty_spec, n, rebuilt);
            }
            stats.snapshot_rebuild_task_count = rebuilt.task_count;
            stats.snapshot_retained_draw_count = rebuilt.retained_draw_count;
            stats.snapshot_reused_space_count = rebuilt.reused_space_count;
            self.particle_snapshot_dirty = false;
            stats.spatial_rebuild_count = 1;
        } else {
            stats.steady_state_skip_count = 1;
        }
        self.full_rebuild_requested = false;
        stats.retained_template_count = saturating_stored_template_count(&self.spaces);
        self.maintenance_stats = stats;
        self.pending_topology_dirty_count = 0;
        self.pending_material_dirty_count = 0;
        self.pending_transform_only_dirty_count = 0;
        self.pending_mesh_asset_dirty_renderer_count = 0;
        proof {
            RenderWorld::lemma_wf_frame_pub(&mid2, self);
            let ts = choose|ts: TransformDirtyExpansionStats| {
                &&& #[trigger] frame_begun(pre, mid1, *scene, *delta, render_context, ts)
                &&& stats_begun == begun_stats(pre, mid1, *delta, render_context, ts)
            };
            let (w1, w2, o1, o2, o3) = choose|w1: RenderWorld, w2: RenderWorld, o1: RefreshOutcome, o2: RefreshOutcome, o3: RefreshOutcome|
                #[trigger] records_refresh_chain(mid1, w1, w2, mid2, scene.renderers@, o1, o2, o3, refit@)
                && snapshot_dirty == ((mid1@.dirty_spaces != Set::<i32>::empty() || (full_rebuild || context_changed))
                    || o2.renderer_count > 0 || mid2.particle_snapshot_dirty)
                && stats_refreshed == refreshed_stats(stats_begun, o1, o2, o3, mid2.particle_snapshot_dirty);
            assert(frame_steps(pre, mid1, ts, w1, w2, mid2, *self, *scene, *delta, render_context, refit@, o1, o2, o3, chunk_tasks, snap));
        }
        refit
    }
}

} // verus!
