//! Rebuild of the prepared snapshot from retained renderer templates, reusing the previous
//! snapshot's rows of every render space that no dirty record touched.
use vstd::prelude::*;

use crate::collections::{id_set_contents, space_range_map_contents, IdSet};
use crate::prepared::FramePreparedDraw;
use crate::prepared_snapshot::{scene_ordinal, FramePreparedRenderables};
use crate::render_world::{RenderWorld, RenderingContext, RetainedSpaceTable};
use crate::retained::{range_draws, RenderWorldSpace};
use crate::retained_refresh::{sat_sum, SceneSpaceRenderers};
use crate::shared::RenderSpaceId;
use crate::snapshot::{
    build_snapshot_rebuild_tasks, spaces_items, spaces_task_count, table_counts, table_task_count, tasks_items, SnapshotRebuildTask,
    SnapshotRendererTable,
};

verus! {

/// Summary counters emitted by one prepared-snapshot rebuild.
#[derive(Clone, Copy, Debug, Default, PartialEq, Eq, Structural)]
pub struct SnapshotRebuildStats {
    /// Snapshot copy tasks built for the rebuilt spaces (template chunks and particle sources).
    pub task_count: usize,
    /// Retained draw templates of the rebuilt spaces.
    pub retained_draw_count: usize,
    /// Active render spaces copied from the previous snapshot.
    pub reused_space_count: usize,
}

/// Scene space ids among the first `k` whose retained storage is active, in scene order.
pub open spec fn retained_active_ids(scene_ids: Seq<RenderSpaceId>, table: RetainedSpaceTable, k: int) -> Seq<RenderSpaceId>
    decreases k,
{
    if k <= 0 {
        Seq::empty()
    } else {
        let prev = retained_active_ids(scene_ids, table, k - 1);
        let id = scene_ids[k - 1];
        if table.spec_ids().contains(id.0) && table.spec_get(id.0).active {
            prev.push(id)
        } else {
            prev
        }
    }
}

/// Active spaces reusable from the previous snapshot: with a dirty-space set given, every active
/// space outside it whose previous rows were recorded; none for a full rebuild.
pub open spec fn reusable_ids(active: Seq<RenderSpaceId>, dirty: Option<Set<i32>>, previous: Map<i32, (usize, usize)>) -> Set<i32> {
    match dirty {
        None => Set::empty(),
        Some(d) => Set::new(|id: i32| active.contains(RenderSpaceId(id)) && !d.contains(id) && previous.contains_key(id)),
    }
}

/// Rows of the previous snapshot recorded for `id`, when its range lies inside them.
pub open spec fn previous_rows(previous_draws: Seq<FramePreparedDraw>, previous: Map<i32, (usize, usize)>, id: i32) -> Seq<FramePreparedDraw> {
    if previous.contains_key(id) && previous[id].0 <= previous[id].1 <= previous_draws.len() {
        previous_draws.subrange(previous[id].0 as int, previous[id].1 as int)
    } else {
        Seq::empty()
    }
}

/// Retained template rows of a space: static renderers, then skinned ones.
pub open spec fn retained_rows(space: RenderWorldSpace) -> Seq<FramePreparedDraw> {
    range_draws(space.static_renderers@, 0, space.static_renderers@.len() as int)
        + range_draws(space.skinned_renderers@, 0, space.skinned_renderers@.len() as int)
}

/// Generated particle rows of `id`: those of its first entry, or none.
pub open spec fn particle_rows_of(particles: Seq<(RenderSpaceId, Vec<FramePreparedDraw>)>, id: i32) -> Seq<FramePreparedDraw>
    decreases particles.len(),
{
    if particles.len() == 0 {
        Seq::empty()
    } else if particles[0].0.0 == id {
        particles[0].1@
    } else {
        particle_rows_of(particles.drop_first(), id)
    }
}

/// Whether `particles` has an entry for `id`.
pub open spec fn has_particle_entry(particles: Seq<(RenderSpaceId, Vec<FramePreparedDraw>)>, id: i32) -> bool {
    exists|j: int| 0 <= j < particles.len() && (#[trigger] particles[j]).0.0 == id
}

/// Rows of the rebuilt snapshot for the first `k` active spaces: a reused space's previous rows,
/// else its retained rows followed by its generated particle rows.
pub open spec fn snapshot_rows(
    table: RetainedSpaceTable,
    previous_draws: Seq<FramePreparedDraw>,
    previous: Map<i32, (usize, usize)>,
    active: Seq<RenderSpaceId>,
    reused: Set<i32>,
    particles: Seq<(RenderSpaceId, Vec<FramePreparedDraw>)>,
    k: int,
) -> Seq<FramePreparedDraw>
    decreases k,
{
    if k <= 0 {
        Seq::empty()
    } else {
        let prev = snapshot_rows(table, previous_draws, previous, active, reused, particles, k - 1);
        let id = active[k - 1].0;
        if reused.contains(id) {
            prev + previous_rows(previous_draws, previous, id)
        } else {
            prev + retained_rows(table.spec_get(id)) + particle_rows_of(particles, id)
        }
    }
}

/// Scene table of `(space, static renderer count)` rows, in scene order.
pub open spec fn scene_static_counts(scene: Seq<SceneSpaceRenderers>) -> Seq<(RenderSpaceId, usize)> {
    scene.map_values(|s: SceneSpaceRenderers| (s.id, s.static_rows@.len() as usize))
}

/// Builds the `(space, static renderer count)` table of the scene.
pub fn build_scene_static_counts(scene: &[SceneSpaceRenderers]) -> (r: Vec<(RenderSpaceId, usize)>)
    ensures
        r@ == scene_static_counts(scene@),
{
    let mut r: Vec<(RenderSpaceId, usize)> = Vec::new();
    let mut i: usize = 0;
    while i < scene.len()
        invariant
            i <= scene@.len(),
            r@ == scene@.subrange(0, i as int).map_values(|s: SceneSpaceRenderers| (s.id, s.static_rows@.len() as usize)),
        decreases scene@.len() - i,
    {
        r.push((scene[i].id, scene[i].static_rows.len()));
        i += 1;
        proof {
            assert(scene@.subrange(0, i as int).map_values(|s: SceneSpaceRenderers| (s.id, s.static_rows@.len() as usize))
                =~= scene@.subrange(0, i - 1).map_values(|s: SceneSpaceRenderers| (s.id, s.static_rows@.len() as usize))
                    .push((scene@[i - 1].id, scene@[i - 1].static_rows@.len() as usize)));
        }
    }
    proof {
        assert(scene@.subrange(0, scene@.len() as int) =~= scene@);
    }
    r
}

/// Generated particle rows of `id`, if `particles` has an entry for it.
fn particle_rows<'a>(particles: &'a [(RenderSpaceId, Vec<FramePreparedDraw>)], id: i32) -> (r: Option<&'a Vec<FramePreparedDraw>>)
    ensures
        match r {
            Some(rows) => has_particle_entry(particles@, id) && rows@ == particle_rows_of(particles@, id),
            None => !has_particle_entry(particles@, id) && particle_rows_of(particles@, id) == Seq::<FramePreparedDraw>::empty(),
        },
{
    let mut i: usize = 0;
    assert(particles@.subrange(0, particles@.len() as int) =~= particles@);
    while i < particles.len()
        invariant
            i <= particles@.len(),
            particle_rows_of(particles@, id) == particle_rows_of(particles@.subrange(i as int, particles@.len() as int), id),
            forall|j: int| 0 <= j < i ==> (#[trigger] particles@[j]).0.0 != id,
        decreases particles@.len() - i,
    {
        let ghost rest = particles@.subrange(i as int, particles@.len() as int);
        assert(rest[0] == particles@[i as int]);
        if particles[i].0.0 == id {
            return Some(&particles[i].1);
        }
        assert(rest.drop_first() =~= particles@.subrange(i + 1, particles@.len() as int));
        i += 1;
    }
    None
}


/// Scene space ids whose retained storage is active, in scene order.
fn collect_active_space_ids(table: &RetainedSpaceTable, scene_ids: &[RenderSpaceId]) -> (r: Vec<RenderSpaceId>)
    requires
        table.wf(),
    ensures
        r@ == retained_active_ids(scene_ids@, *table, scene_ids@.len() as int),
{
    let mut r: Vec<RenderSpaceId> = Vec::new();
    let mut i: usize = 0;
    while i < scene_ids.len()
        invariant
            table.wf(),
            i <= scene_ids@.len(),
            r@ == retained_active_ids(scene_ids@, *table, i as int),
        decreases scene_ids@.len() - i,
    {
        let id = scene_ids[i];
        match table.get(id.0) {
            Some(space) => {
                if space.active {
                    r.push(id);
                }
            },
            None => {},
        }
        i += 1;
    }
    r
}

/// Active spaces whose previous rows can be reused: none for a full rebuild (`dirty_spaces`
/// `None`), else every active space outside `dirty_spaces` with recorded previous rows.
fn reusable_prepared_space_ids(prepared: &FramePreparedRenderables, active: &[RenderSpaceId], dirty_spaces: Option<&IdSet>) -> (r: IdSet)
    ensures
        id_set_contents(r) == reusable_ids(
            active@,
            match dirty_spaces { Some(d) => Some(id_set_contents(*d)), None => None },
            space_range_map_contents(prepared.previous_cached_space_draw_ranges),
        ),
{
    let mut reused = IdSet::new();
    let dirty = match dirty_spaces {
        Some(d) => d,
        None => {
            proof {
                assert(id_set_contents(reused) =~= Set::<i32>::empty());
            }
            return reused;
        },
    };
    let ghost previous = space_range_map_contents(prepared.previous_cached_space_draw_ranges);
    let mut i: usize = 0;
    while i < active.len()
        invariant
            i <= active@.len(),
            id_set_contents(reused) == Set::new(|id: i32| active@.subrange(0, i as int).contains(RenderSpaceId(id))
                && !id_set_contents(*dirty).contains(id) && previous.contains_key(id)),
            previous == space_range_map_contents(prepared.previous_cached_space_draw_ranges),
        decreases active@.len() - i,
    {
        let id = active[i];
        if !dirty.contains(id.0) && prepared.has_previous_cached_draws_for_space(id) {
            reused.insert(id.0);
        }
        proof {
            let a = active@.subrange(0, i as int);
            let b = active@.subrange(0, i + 1);
            assert(b =~= a.push(id));
            assert forall|x: RenderSpaceId| #[trigger] b.contains(x) <==> (a.contains(x) || x == id) by {
                vstd::seq_lib::lemma_seq_contains_after_push(a, id, x);
            }
            assert(id_set_contents(reused) =~= Set::new(|x: i32| b.contains(RenderSpaceId(x))
                && !id_set_contents(*dirty).contains(x) && previous.contains_key(x)));
        }
        i += 1;
    }
    proof {
        assert(active@.subrange(0, active@.len() as int) =~= active@);
        assert(id_set_contents(reused) =~= reusable_ids(active@, Some(id_set_contents(*dirty)), previous));
    }
    reused
}


/// Every retained-active id has active retained storage.
proof fn lemma_retained_active_ids_stored(scene_ids: Seq<RenderSpaceId>, table: RetainedSpaceTable, k: int)
    ensures
        forall|j: int| 0 <= j < retained_active_ids(scene_ids, table, k).len() ==> {
            let id = #[trigger] retained_active_ids(scene_ids, table, k)[j];
            table.spec_ids().contains(id.0) && table.spec_get(id.0).active
        },
    decreases k,
{
    if k > 0 {
        lemma_retained_active_ids_stored(scene_ids, table, k - 1);
        let prev = retained_active_ids(scene_ids, table, k - 1);
        let cur = retained_active_ids(scene_ids, table, k);
        assert forall|j: int| 0 <= j < cur.len() implies {
            let id = #[trigger] cur[j];
            table.spec_ids().contains(id.0) && table.spec_get(id.0).active
        } by {
            if j < prev.len() {
                assert(cur[j] == prev[j]);
            }
        }
    }
}

/// Retained templates of the first `k` active spaces that are rebuilt (not reused), saturating.
pub open spec fn rebuilt_template_total(table: RetainedSpaceTable, active: Seq<RenderSpaceId>, reused: Set<i32>, k: int) -> int
    decreases k,
{
    if k <= 0 {
        0
    } else {
        let prev = rebuilt_template_total(table, active, reused, k - 1);
        let id = active[k - 1].0;
        if reused.contains(id) {
            prev
        } else {
            sat_sum(prev, table.spec_get(id).spec_retained_template_count() as int)
        }
    }
}

/// Particle tasks among the first `k` active spaces: rebuilt spaces with a particle entry.
pub open spec fn particle_task_count(active: Seq<RenderSpaceId>, reused: Set<i32>, particles: Seq<(RenderSpaceId, Vec<FramePreparedDraw>)>, k: int) -> int
    decreases k,
{
    if k <= 0 {
        0
    } else {
        let prev = particle_task_count(active, reused, particles, k - 1);
        let id = active[k - 1].0;
        if !reused.contains(id) && has_particle_entry(particles, id) {
            sat_sum(prev, 1)
        } else {
            prev
        }
    }
}

/// Contents of an optional dirty-space set.
pub open spec fn dirty_contents(d: Option<&IdSet>) -> Option<Set<i32>> {
    match d {
        Some(s) => Some(id_set_contents(*s)),
        None => None,
    }
}

/// Snapshot-copy tasks of the rebuilt (not reused) active spaces among the first `k`: each
/// space's static table chunks, then its skinned table chunks.
pub open spec fn rebuilt_task_count(table: RetainedSpaceTable, active: Seq<RenderSpaceId>, reused: Set<i32>, k: int) -> int
    decreases k,
{
    if k <= 0 {
        0
    } else {
        let prev = rebuilt_task_count(table, active, reused, k - 1);
        let id = active[k - 1].0;
        if !reused.contains(id) && table.spec_ids().contains(id) {
            let s = table.spec_get(id);
            prev + table_task_count(table_counts(s, SnapshotRendererTable::Static))
                + table_task_count(table_counts(s, SnapshotRendererTable::Skinned))
        } else {
            prev
        }
    }
}

/// `p` (with `stats`) is the snapshot `pre`'s rebuild produces: the scene's spaces with active
/// retained storage are its active spaces, its rows are [`snapshot_rows`] (with the previous
/// snapshot's rows and ranges as reuse source), and, when the rows fit the run range, every
/// derived table describes them with renderer ordinals from the scene tables.
pub open spec fn snapshot_rebuilt(
    pre: RenderWorld,
    p: FramePreparedRenderables,
    scene_ids: Seq<RenderSpaceId>,
    scene: Seq<SceneSpaceRenderers>,
    particles: Seq<(RenderSpaceId, Vec<FramePreparedDraw>)>,
    render_context: RenderingContext,
    dirty: Option<Set<i32>>,
    chunk_tasks: nat,
    stats: SnapshotRebuildStats,
) -> bool {
    let active = retained_active_ids(scene_ids, pre.spaces, scene_ids.len() as int);
    let previous = space_range_map_contents(pre.prepared.cached_space_draw_ranges);
    let reused = reusable_ids(active, dirty, previous);
    let rows = snapshot_rows(pre.spaces, pre.prepared.draws@, previous, active, reused, particles, active.len() as int);
    &&& p.active_space_ids@ == active
    &&& p.render_context == render_context
    &&& p.context_invariant == pre.prepared.context_invariant
    &&& p.previous_draws@ == pre.prepared.draws@
    &&& space_range_map_contents(p.previous_cached_space_draw_ranges) == previous
    &&& rows_finished(rows, p, scene)
    &&& stats.reused_space_count == reused.len()
    &&& stats.retained_draw_count == rebuilt_template_total(pre.spaces, active, reused, active.len() as int)
    &&& chunk_tasks == rebuilt_task_count(pre.spaces, active, reused, active.len() as int)
    &&& stats.task_count == sat_sum(chunk_tasks as int, particle_task_count(active, reused, particles, active.len() as int))
}

/// `p` holds `rows`: indexed with scene ordinals when they fit the run range, else as they are.
pub open spec fn rows_finished(rows: Seq<FramePreparedDraw>, p: FramePreparedRenderables, scene: Seq<SceneSpaceRenderers>) -> bool {
    &&& rows.len() <= u32::MAX ==> {
        &&& p.tables_match()
        &&& p.draws@.len() == rows.len()
        &&& forall|i: int| 0 <= i < rows.len() ==> #[trigger] p.draws@[i] == (FramePreparedDraw {
            renderer_ordinal: scene_ordinal(scene_static_counts(scene), rows[i]),
            ..rows[i]
        })
    }
    &&& rows.len() > u32::MAX ==> p.draws@ == rows
}

/// Finishes the rebuild when the rows fit the `u32` run range: every derived table is refreshed
/// with renderer ordinals from the scene tables; otherwise the rows stay unindexed.
fn finish_if_indexable(prepared: &mut FramePreparedRenderables, scene: &[SceneSpaceRenderers])
    ensures
        rows_finished(old(prepared).draws@, *final(prepared), scene@),
        final(prepared).active_space_ids == old(prepared).active_space_ids,
        final(prepared).render_context == old(prepared).render_context,
        final(prepared).context_invariant == old(prepared).context_invariant,
        final(prepared).previous_draws == old(prepared).previous_draws,
        final(prepared).previous_cached_space_draw_ranges == old(prepared).previous_cached_space_draw_ranges,
{
    if prepared.draws.len() <= u32::MAX as usize {
        let counts = build_scene_static_counts(scene);
        prepared.finish_cached_rebuild(counts.as_slice());
    }
}

impl RenderWorld {
    /// Appends the rows of every active space to the snapshot under construction: a reused
    /// space's previous rows, else its retained rows and generated particle rows.
    fn append_snapshot_rows(
        &mut self,
        active: &Vec<RenderSpaceId>,
        reused: &IdSet,
        particles: &[(RenderSpaceId, Vec<FramePreparedDraw>)],
    )
        requires
            old(self).spaces.wf(),
            old(self).prepared.active_space_ids@.len() == 0,
            old(self).prepared.draws@.len() == 0,
            forall|j: int| 0 <= j < active@.len() ==> old(self).spaces.spec_ids().contains((#[trigger] active@[j]).0),
        ensures
            final(self).prepared.active_space_ids@ == active@,
            final(self).prepared.draws@ == snapshot_rows(
                old(self).spaces,
                old(self).prepared.previous_draws@,
                space_range_map_contents(old(self).prepared.previous_cached_space_draw_ranges),
                active@,
                id_set_contents(*reused),
                particles@,
                active@.len() as int,
            ),
            final(self).prepared == (FramePreparedRenderables {
                active_space_ids: final(self).prepared.active_space_ids,
                draws: final(self).prepared.draws,
                ..old(self).prepared
            }),
            *final(self) == (RenderWorld { prepared: final(self).prepared, ..*old(self) }),
    {
        let ghost start = *self;
        let ghost previous = space_range_map_contents(start.prepared.previous_cached_space_draw_ranges);
        let mut i: usize = 0;
        while i < active.len()
            invariant
                i <= active@.len(),
                previous == space_range_map_contents(start.prepared.previous_cached_space_draw_ranges),
                start.spaces.wf(),
                forall|j: int| 0 <= j < active@.len() ==> start.spaces.spec_ids().contains((#[trigger] active@[j]).0),
                self.prepared.active_space_ids@ == active@.subrange(0, i as int),
                self.prepared.draws@ == snapshot_rows(start.spaces, start.prepared.previous_draws@, previous, active@, id_set_contents(*reused), particles@, i as int),
                self.prepared == (FramePreparedRenderables {
                    active_space_ids: self.prepared.active_space_ids,
                    draws: self.prepared.draws,
                    ..start.prepared
                }),
                *self == (RenderWorld { prepared: self.prepared, ..start }),
            decreases active@.len() - i,
        {
            let id = active[i];
            self.prepared.push_cached_space(id);
            let ghost before = self.prepared.draws@;
            if reused.contains(id.0) {
                proof {
                    assert(self.prepared.previous_draws == start.prepared.previous_draws);
                    assert(self.prepared.previous_cached_space_draw_ranges == start.prepared.previous_cached_space_draw_ranges);
                }
                let ghost pre_call = self.prepared;
                let reused_rows = self.prepared.extend_previous_cached_draws_for_space(id);
                proof {
                    let pd = start.prepared.previous_draws@;
                    assert(pre_call.previous_draws@ == pd);
                    assert(space_range_map_contents(pre_call.previous_cached_space_draw_ranges) == previous);
                    assert(pre_call.draws@ == before);
                    if reused_rows {
                        assert(previous.contains_key(id.0) && previous[id.0].0 <= previous[id.0].1 <= pd.len());
                        assert(previous_rows(pd, previous, id.0) == pd.subrange(previous[id.0].0 as int, previous[id.0].1 as int));
                    } else {
                        assert(previous_rows(pd, previous, id.0) == Seq::<FramePreparedDraw>::empty());
                    }
                    assert(self.prepared.draws@ =~= before + previous_rows(pd, previous, id.0));
                }
            } else {
                match self.spaces.get(id.0) {
                    Some(space) => {
                        space.append_static_draws_range_to(0, space.static_renderers.len(), &mut self.prepared.draws);
                        space.append_skinned_draws_range_to(0, space.skinned_renderers.len(), &mut self.prepared.draws);
                        match particle_rows(particles, id.0) {
                            Some(rows) => self.prepared.extend_cached_draws(rows.as_slice()),
                            None => {},
                        }
                        proof {
                            assert(self.prepared.draws@ =~= before + retained_rows(start.spaces.spec_get(id.0)) + particle_rows_of(particles@, id.0));
                        }
                    },
                    None => {
                        proof {
                            assert(start.spaces.spec_ids().contains(active@[i as int].0));
                        }
                    },
                }
            }
            proof {
                assert(active@.subrange(0, i + 1) =~= active@.subrange(0, i as int).push(id));
            }
            i += 1;
        }
        proof {
            assert(active@.subrange(0, active@.len() as int) =~= active@);
        }
    }

    /// Sums the retained templates of the rebuilt active spaces (saturating) and counts the
    /// rebuilt spaces with a particle entry.
    fn rebuilt_space_totals(
        &self,
        active: &Vec<RenderSpaceId>,
        reused: &IdSet,
        particles: &[(RenderSpaceId, Vec<FramePreparedDraw>)],
    ) -> (r: (usize, usize))
        requires
            self.spaces.wf(),
            forall|j: int| 0 <= j < active@.len() ==> self.spaces.spec_ids().contains((#[trigger] active@[j]).0),
        ensures
            r.0 == rebuilt_template_total(self.spaces, active@, id_set_contents(*reused), active@.len() as int),
            r.1 == particle_task_count(active@, id_set_contents(*reused), particles@, active@.len() as int),
    {
        let mut templates: usize = 0;
        let mut particle_tasks: usize = 0;
        let mut i: usize = 0;
        while i < active.len()
            invariant
                i <= active@.len(),
                self.spaces.wf(),
                forall|j: int| 0 <= j < active@.len() ==> self.spaces.spec_ids().contains((#[trigger] active@[j]).0),
                templates == rebuilt_template_total(self.spaces, active@, id_set_contents(*reused), i as int),
                particle_tasks == particle_task_count(active@, id_set_contents(*reused), particles@, i as int),
            decreases active@.len() - i,
        {
            let id = active[i];
            if !reused.contains(id.0) {
                match self.spaces.get(id.0) {
                    Some(space) => {
                        templates = templates.saturating_add(crate::retained_refresh::saturating_template_count(space));
                    },
                    None => {
                        proof {
                            assert(self.spaces.spec_ids().contains(active@[i as int].0));
                        }
                    },
                }
                if particle_rows(particles, id.0).is_some() {
                    particle_tasks = particle_tasks.saturating_add(1);
                }
            }
            i += 1;
        }
        (templates, particle_tasks)
    }

    /// Number of chunk tasks the rebuild of the non-reused active spaces is split into.
    fn count_chunk_tasks(&self, active: &Vec<RenderSpaceId>, reused: &IdSet) -> (n: usize)
        requires
            self.spaces.wf(),
        ensures
            n == rebuilt_task_count(self.spaces, active@, id_set_contents(*reused), active@.len() as int),
    {
        let mut rebuilt: Vec<(usize, RenderSpaceId, &RenderWorldSpace)> = Vec::new();
        let mut i: usize = 0;
        while i < active.len()
            invariant
                i <= active@.len(),
                self.spaces.wf(),
                spaces_task_count(rebuilt@) == rebuilt_task_count(self.spaces, active@, id_set_contents(*reused), i as int),
            decreases active@.len() - i,
        {
            let id = active[i];
            if !reused.contains(id.0) {
                match self.spaces.get(id.0) {
                    Some(space) => {
                        let ghost before = rebuilt@;
                        rebuilt.push((i, id, space));
                        proof {
                            assert(rebuilt@.drop_last() =~= before);
                        }
                    },
                    None => {},
                }
            }
            i += 1;
        }
        let tasks = build_snapshot_rebuild_tasks(rebuilt.as_slice());
        tasks.len()
    }

    /// Rebuilds the prepared snapshot from retained templates: the scene's spaces with active
    /// retained storage become the snapshot's active spaces, in scene order; each keeps its
    /// previous rows when reusable, else takes its retained rows and generated particle rows;
    /// then every derived table is refreshed with renderer ordinals from the scene tables.
    /// `dirty_spaces` `None` requests a full rebuild (nothing reused).
    pub fn rebuild_prepared_snapshot(
        &mut self,
        scene_space_ids: &[RenderSpaceId],
        scene: &[SceneSpaceRenderers],
        particles: &[(RenderSpaceId, Vec<FramePreparedDraw>)],
        render_context: RenderingContext,
        dirty_spaces: Option<&IdSet>,
    ) -> (stats: SnapshotRebuildStats)
        requires
            old(self).wf(),
        ensures
            final(self).wf(),
            *final(self) == (RenderWorld { prepared: final(self).prepared, ..*old(self) }),
            exists|chunk_tasks: nat| #[trigger] snapshot_rebuilt(
                *old(self),
                final(self).prepared,
                scene_space_ids@,
                scene@,
                particles@,
                render_context,
                dirty_contents(dirty_spaces),
                chunk_tasks,
                stats,
            ),
    {
        let ghost pre = *self;
        let active = collect_active_space_ids(&self.spaces, scene_space_ids);
        proof {
            lemma_retained_active_ids_stored(scene_space_ids@, self.spaces, scene_space_ids@.len() as int);
        }
        self.prepared.begin_cached_rebuild(render_context);
        let reused = reusable_prepared_space_ids(&self.prepared, active.as_slice(), dirty_spaces);
        let (retained_draw_count, particle_tasks) = self.rebuilt_space_totals(&active, &reused, particles);
        let chunk_tasks = self.count_chunk_tasks(&active, &reused);
        let stats = SnapshotRebuildStats {
            task_count: chunk_tasks.saturating_add(particle_tasks),
            retained_draw_count,
            reused_space_count: reused.len(),
        };
        self.append_snapshot_rows(&active, &reused, particles);
        finish_if_indexable(&mut self.prepared, scene);
        proof {
            RenderWorld::lemma_wf_frame_pub(&pre, self);
            assert(snapshot_rebuilt(
                pre,
                self.prepared,
                scene_space_ids@,
                scene@,
                particles@,
                render_context,
                dirty_contents(dirty_spaces),
                chunk_tasks as nat,
                stats,
            ));
        }
        stats
    }
}

} // verus!
