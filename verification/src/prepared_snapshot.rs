//! The frame-prepared draw snapshot: dense prepared rows grouped by active render space, with
//! their renderer runs, run chunks, per-space draw ranges, run lookup, and material key set.
//!
//! Spatial indexing over the float cull bounds of the rows and LOD-group resolution are computed
//! by the caller over [`FramePreparedRenderables::draws`] and [`FramePreparedRenderables::runs`].
use vstd::prelude::*;

use crate::collections::{
    material_key_set_contents, run_lookup_map_contents, space_range_map_contents, MaterialKeySet,
    RunLookupMap, SpaceRangeMap,
};
use crate::parallel::RENDER_COMMAND_CHUNK_DRAWS;
use crate::prepared::{
    empty_material_key_signature, first_seen_keys, fold_key_signature, greedy_run_chunks,
    last_covering_run, populate_renderer_ordinals_from_runs, populate_run_chunks,
    populate_runs_and_material_keys, run_ordinal, runs_partition_draws, spec_share_renderer, FramePreparedDraw,
    FramePreparedRun, FramePreparedRunChunk, MATERIAL_KEY_SIGNATURE_OFFSET,
};
use crate::render_world::RenderingContext;
use crate::shared::{MeshRendererInstanceId, RenderSpaceId};

verus! {

/// Target draw count for one prepared renderer-run chunk.
pub const PREPARED_RUN_CHUNK_DRAW_TARGET: usize = RENDER_COMMAND_CHUNK_DRAWS;

/// First index at or after `start` whose row is not in `space` (or the end of `draws`).
pub open spec fn space_block_end(draws: Seq<FramePreparedDraw>, start: int, space: RenderSpaceId) -> int
    decreases draws.len() - start,
{
    if 0 <= start < draws.len() && draws[start].space_id == space {
        space_block_end(draws, start + 1, space)
    } else {
        start
    }
}

/// Cursor reached after walking the blocks of the first `k` active spaces.
pub open spec fn space_cursor(active: Seq<RenderSpaceId>, draws: Seq<FramePreparedDraw>, k: int) -> int
    decreases k,
{
    if k <= 0 {
        0
    } else {
        space_block_end(draws, space_cursor(active, draws, k - 1), active[k - 1])
    }
}

/// Per-space draw ranges recorded while walking the first `k` active spaces; a repeated space
/// keeps the range of its last visit.
pub open spec fn space_ranges(active: Seq<RenderSpaceId>, draws: Seq<FramePreparedDraw>, k: int) -> Map<i32, (usize, usize)>
    decreases k,
{
    if k <= 0 {
        Map::empty()
    } else {
        space_ranges(active, draws, k - 1).insert(
            active[k - 1].0,
            (space_cursor(active, draws, k - 1) as usize, space_cursor(active, draws, k) as usize),
        )
    }
}

/// The block end never moves backwards and never passes the end of `draws`.
pub proof fn lemma_space_block_end_bounds(draws: Seq<FramePreparedDraw>, start: int, space: RenderSpaceId)
    requires
        0 <= start <= draws.len(),
    ensures
        start <= space_block_end(draws, start, space) <= draws.len(),
        forall|i: int| start <= i < space_block_end(draws, start, space) ==> (#[trigger] draws[i]).space_id == space,
    decreases draws.len() - start,
{
    if start < draws.len() && draws[start].space_id == space {
        lemma_space_block_end_bounds(draws, start + 1, space);
    }
}

/// Every cursor lies within `draws`, and cursors never move backwards.
pub proof fn lemma_space_cursor_bounds(active: Seq<RenderSpaceId>, draws: Seq<FramePreparedDraw>, k: int)
    requires
        0 <= k <= active.len(),
    ensures
        0 <= space_cursor(active, draws, k) <= draws.len(),
        k > 0 ==> space_cursor(active, draws, k - 1) <= space_cursor(active, draws, k),
    decreases k,
{
    if k > 0 {
        lemma_space_cursor_bounds(active, draws, k - 1);
        lemma_space_block_end_bounds(draws, space_cursor(active, draws, k - 1), active[k - 1]);
    }
}

/// Renderer identity of a prepared row used by the run lookup.
pub open spec fn run_key(d: FramePreparedDraw) -> (i32, bool, usize, u64) {
    (d.space_id.0, d.skinned, d.renderable_index, d.instance_id.0)
}

/// Run lookup after entering the first `k` runs: each run is filed under the identity of its
/// first row, later runs replacing earlier ones with the same identity.
pub open spec fn run_lookup(draws: Seq<FramePreparedDraw>, runs: Seq<FramePreparedRun>, k: int) -> Map<(i32, bool, usize, u64), (u32, u32)>
    decreases k,
{
    if k <= 0 {
        Map::empty()
    } else if runs[k - 1].start < draws.len() {
        run_lookup(draws, runs, k - 1).insert(run_key(draws[runs[k - 1].start as int]), (runs[k - 1].start, runs[k - 1].end))
    } else {
        run_lookup(draws, runs, k - 1)
    }
}

/// Static renderer count of `space` in a scene table of `(space, static renderer count)` rows:
/// the first row naming the space, or zero when none does.
pub open spec fn scene_static_count(counts: Seq<(RenderSpaceId, usize)>, space: RenderSpaceId) -> usize
    decreases counts.len(),
{
    if counts.len() == 0 {
        0
    } else if counts[0].0 == space {
        counts[0].1
    } else {
        scene_static_count(counts.drop_first(), space)
    }
}

/// Scene-table renderer ordinal of a row: static rows keep their renderer index, skinned rows
/// follow every static renderer of their space (saturating).
pub open spec fn scene_ordinal(counts: Seq<(RenderSpaceId, usize)>, d: FramePreparedDraw) -> usize {
    if d.skinned {
        let total = scene_static_count(counts, d.space_id) + d.renderable_index;
        if total > usize::MAX { usize::MAX } else { total as usize }
    } else {
        d.renderable_index
    }
}

/// Static renderer count of `space` in a scene table (first matching row, else zero).
pub fn static_renderer_count(counts: &[(RenderSpaceId, usize)], space: RenderSpaceId) -> (r: usize)
    ensures
        r == scene_static_count(counts@, space),
{
    let mut i: usize = 0;
    assert(counts@.subrange(0, counts@.len() as int) =~= counts@);
    while i < counts.len()
        invariant
            i <= counts@.len(),
            scene_static_count(counts@, space) == scene_static_count(counts@.subrange(i as int, counts@.len() as int), space),
        decreases counts@.len() - i,
    {
        let ghost rest = counts@.subrange(i as int, counts@.len() as int);
        assert(rest[0] == counts@[i as int]);
        if counts[i].0.0 == space.0 {
            return counts[i].1;
        }
        assert(rest.drop_first() =~= counts@.subrange(i + 1, counts@.len() as int));
        i += 1;
    }
    assert(counts@.subrange(i as int, counts@.len() as int).len() == 0);
    0
}

/// Assigns stable scene-table renderer ordinals to every prepared row; no other field changes.
pub fn populate_renderer_ordinals_from_scene(draws: &mut Vec<FramePreparedDraw>, counts: &[(RenderSpaceId, usize)])
    ensures
        final(draws)@.len() == old(draws)@.len(),
        forall|i: int| 0 <= i < old(draws)@.len() ==> #[trigger] final(draws)@[i] == (FramePreparedDraw {
            renderer_ordinal: scene_ordinal(counts@, old(draws)@[i]),
            ..old(draws)@[i]
        }),
{
    let ghost input = draws@;
    let mut i: usize = 0;
    while i < draws.len()
        invariant
            i <= draws@.len(),
            draws@.len() == input.len(),
            forall|j: int| 0 <= j < i ==> #[trigger] draws@[j] == (FramePreparedDraw {
                renderer_ordinal: scene_ordinal(counts@, input[j]),
                ..input[j]
            }),
            forall|j: int| i <= j < draws@.len() ==> #[trigger] draws@[j] == input[j],
        decreases draws@.len() - i,
    {
        let mut d = draws[i];
        let static_count = static_renderer_count(counts, d.space_id);
        d.renderer_ordinal = if d.skinned {
            static_count.saturating_add(d.renderable_index)
        } else {
            d.renderable_index
        };
        draws.set(i, d);
        i += 1;
    }
}


/// Two row lists agree in everything but their renderer ordinals.
pub open spec fn same_rows_but_ordinal(a: Seq<FramePreparedDraw>, b: Seq<FramePreparedDraw>) -> bool {
    &&& a.len() == b.len()
    &&& forall|i: int| 0 <= i < a.len() ==> #[trigger] b[i] == (FramePreparedDraw { renderer_ordinal: b[i].renderer_ordinal, ..a[i] })
}

/// Material key order does not depend on renderer ordinals.
proof fn lemma_first_seen_keys_ignore_ordinal(a: Seq<FramePreparedDraw>, b: Seq<FramePreparedDraw>)
    requires
        same_rows_but_ordinal(a, b),
    ensures
        first_seen_keys(a) == first_seen_keys(b),
    decreases a.len(),
{
    if a.len() > 0 {
        let a2 = a.drop_last();
        let b2 = b.drop_last();
        assert forall|i: int| 0 <= i < a2.len() implies #[trigger] b2[i] == (FramePreparedDraw { renderer_ordinal: b2[i].renderer_ordinal, ..a2[i] }) by {
            assert(b[i] == (FramePreparedDraw { renderer_ordinal: b[i].renderer_ordinal, ..a[i] }));
        }
        lemma_first_seen_keys_ignore_ordinal(a2, b2);
        assert(b[a.len() - 1] == (FramePreparedDraw { renderer_ordinal: b[a.len() - 1].renderer_ordinal, ..a[a.len() - 1] }));
    }
}

/// Consecutive non-empty runs end no later than the last run.
proof fn lemma_run_end_le_last(runs: Seq<FramePreparedRun>, k: int)
    requires
        0 <= k < runs.len(),
        forall|j: int| 0 <= j < runs.len() ==> (#[trigger] runs[j]).start < runs[j].end,
        forall|j: int| 0 <= j < runs.len() - 1 ==> (#[trigger] runs[j + 1]).start == runs[j].end,
    ensures
        runs[k].end <= runs[runs.len() - 1].end,
    decreases runs.len() - k,
{
    if k < runs.len() - 1 {
        assert(runs[k + 1].start == runs[k].end);
        assert(runs[k + 1].start < runs[k + 1].end);
        lemma_run_end_le_last(runs, k + 1);
    }
}

/// Every run of a partition lies inside the rows.
proof fn lemma_partition_runs_in_bounds(draws: Seq<FramePreparedDraw>, runs: Seq<FramePreparedRun>)
    requires
        runs_partition_draws(draws, runs),
    ensures
        forall|k: int| 0 <= k < runs.len() ==> (#[trigger] runs[k]).start < runs[k].end <= draws.len(),
{
    assert forall|k: int| 0 <= k < runs.len() implies (#[trigger] runs[k]).start < runs[k].end <= draws.len() by {
        lemma_run_end_le_last(runs, k);
    }
}

/// A run partition does not depend on renderer ordinals.
proof fn lemma_partition_ignores_ordinal(a: Seq<FramePreparedDraw>, b: Seq<FramePreparedDraw>, runs: Seq<FramePreparedRun>)
    requires
        same_rows_but_ordinal(a, b),
        runs_partition_draws(a, runs),
    ensures
        runs_partition_draws(b, runs),
{
    lemma_partition_runs_in_bounds(a, runs);
    assert forall|i: int| 0 <= i < a.len() implies spec_share_renderer_row_eq(a, b, i) by {
        assert(b[i] == (FramePreparedDraw { renderer_ordinal: b[i].renderer_ordinal, ..a[i] }));
    }
    assert forall|k: int, i: int| 0 <= k < runs.len() && runs[k].start < i < runs[k].end
        implies spec_share_renderer(b[i - 1], #[trigger] b[i]) && #[trigger] runs[k] == runs[k] by {
        assert(spec_share_renderer(a[i - 1], a[i]));
        assert(spec_share_renderer_row_eq(a, b, i));
        assert(spec_share_renderer_row_eq(a, b, i - 1));
    }
    assert forall|k: int| 0 < k < runs.len() implies !spec_share_renderer(b[(#[trigger] runs[k]).start - 1], b[runs[k].start as int]) by {
        let s = runs[k].start as int;
        let j = k - 1;
        assert(runs[j + 1].start == runs[j].end);
        assert(runs[j].start < runs[j].end);
        assert(!spec_share_renderer(a[s - 1], a[s]));
        assert(spec_share_renderer_row_eq(a, b, s));
        assert(spec_share_renderer_row_eq(a, b, s - 1));
    }
}

/// Row `i` of `b` carries the same renderer identity as row `i` of `a`.
spec fn spec_share_renderer_row_eq(a: Seq<FramePreparedDraw>, b: Seq<FramePreparedDraw>, i: int) -> bool {
    &&& a[i].space_id == b[i].space_id
    &&& a[i].renderable_index == b[i].renderable_index
    &&& a[i].instance_id == b[i].instance_id
    &&& a[i].node_id == b[i].node_id
    &&& a[i].mesh_asset_id == b[i].mesh_asset_id
    &&& a[i].is_overlay == b[i].is_overlay
    &&& a[i].sorting_order == b[i].sorting_order
    &&& a[i].skinned == b[i].skinned
    &&& a[i].world_space_deformed == b[i].world_space_deformed
    &&& a[i].blendshape_deformed == b[i].blendshape_deformed
    &&& a[i].tangent_blendshape_deform_active == b[i].tangent_blendshape_deform_active
}

/// Records the draw range of every active space, walking `draws` from the front.
fn space_draw_ranges_into(active_space_ids: &[RenderSpaceId], draws: &[FramePreparedDraw], ranges: &mut SpaceRangeMap)
    ensures
        space_range_map_contents(*final(ranges)) == space_ranges(active_space_ids@, draws@, active_space_ids@.len() as int),
{
    ranges.clear();
    proof {
        assert(space_range_map_contents(*ranges) =~= space_ranges(active_space_ids@, draws@, 0));
    }
    let mut cursor: usize = 0;
    let mut k: usize = 0;
    while k < active_space_ids.len()
        invariant
            k <= active_space_ids@.len(),
            cursor == space_cursor(active_space_ids@, draws@, k as int),
            cursor <= draws@.len(),
            space_range_map_contents(*ranges) == space_ranges(active_space_ids@, draws@, k as int),
        decreases active_space_ids@.len() - k,
    {
        let space_id = active_space_ids[k];
        let start = cursor;
        while cursor < draws.len() && draws[cursor].space_id.0 == space_id.0
            invariant
                start <= cursor <= draws@.len(),
                space_block_end(draws@, cursor as int, space_id) == space_block_end(draws@, start as int, space_id),
            decreases draws@.len() - cursor,
        {
            cursor += 1;
        }
        proof {
            lemma_space_cursor_bounds(active_space_ids@, draws@, k + 1);
        }
        ranges.insert(space_id.0, (start, cursor));
        k += 1;
    }
}

/// Files every run under the renderer identity of its first row.
fn populate_renderer_run_lookup(draws: &[FramePreparedDraw], runs: &[FramePreparedRun], lookup: &mut RunLookupMap)
    ensures
        run_lookup_map_contents(*final(lookup)) == run_lookup(draws@, runs@, runs@.len() as int),
{
    lookup.clear();
    proof {
        assert(run_lookup_map_contents(*lookup) =~= run_lookup(draws@, runs@, 0));
    }
    let mut k: usize = 0;
    while k < runs.len()
        invariant
            k <= runs@.len(),
            run_lookup_map_contents(*lookup) == run_lookup(draws@, runs@, k as int),
        decreases runs@.len() - k,
    {
        let run = runs[k];
        let start = run.start as usize;
        if start < draws.len() {
            let first = draws[start];
            lookup.insert((first.space_id.0, first.skinned, first.renderable_index, first.instance_id.0), (run.start, run.end));
        }
        k += 1;
    }
}


/// Signature of the first-seen material keys of `draws` (the offset basis when empty).
pub open spec fn material_key_signature_of(draws: Seq<FramePreparedDraw>) -> u64 {
    if draws.len() == 0 {
        MATERIAL_KEY_SIGNATURE_OFFSET
    } else {
        fold_key_signature(first_seen_keys(draws)) ^ (first_seen_keys(draws).len() as u64)
    }
}

/// Renderer ordinal a refresh assigns to row `i`: from the scene table when one is given,
/// otherwise the dense per-space ordinal of the run covering the row.
pub open spec fn refreshed_ordinal(
    rows: Seq<FramePreparedDraw>,
    runs: Seq<FramePreparedRun>,
    counts: Option<Seq<(RenderSpaceId, usize)>>,
    i: int,
) -> usize {
    match counts {
        Some(c) => scene_ordinal(c, rows[i]),
        None => {
            let k = last_covering_run(runs, runs.len() as int, i);
            if k >= 0 {
                run_ordinal(rows, runs, k) as usize
            } else {
                rows[i].renderer_ordinal
            }
        },
    }
}

/// Frame-scope dense list of prepared rows across every active render space.
///
/// Rows are grouped by active space in [`Self::active_space_ids`] order; the derived tables
/// (space ranges, renderer runs, run chunks, run lookup, material keys and their signature)
/// describe [`Self::draws`] after every refresh.
pub struct FramePreparedRenderables {
    /// Active render spaces captured while building this snapshot.
    pub active_space_ids: Vec<RenderSpaceId>,
    /// Draw range of each active render space in [`Self::draws`].
    pub cached_space_draw_ranges: SpaceRangeMap,
    /// Dense prepared rows.
    pub draws: Vec<FramePreparedDraw>,
    /// Contiguous renderer runs over [`Self::draws`].
    pub runs: Vec<FramePreparedRun>,
    /// Chunks over [`Self::runs`] consumed as collection tasks.
    pub run_chunks: Vec<FramePreparedRunChunk>,
    /// Renderer identity to its prepared run.
    pub renderer_run_lookup: RunLookupMap,
    /// First-seen unique `(material, property block)` keys of [`Self::draws`].
    pub material_property_keys: Vec<(i32, Option<i32>)>,
    /// Signature of [`Self::material_property_keys`] membership and order.
    pub material_property_key_signature: u64,
    /// Render context the rows were resolved against.
    pub render_context: RenderingContext,
    /// Whether the snapshot serves every context without draw-prep overrides.
    pub context_invariant: bool,
    /// Rows of the previous rebuild, for per-space reuse.
    pub previous_draws: Vec<FramePreparedDraw>,
    /// Per-space ranges of [`Self::previous_draws`].
    pub previous_cached_space_draw_ranges: SpaceRangeMap,
    /// Reused dedup set for the material keys.
    pub material_property_seen_scratch: MaterialKeySet,
}

impl FramePreparedRenderables {
    /// The derived tables describe the current rows.
    pub open spec fn tables_match(&self) -> bool {
        &&& space_range_map_contents(self.cached_space_draw_ranges) == space_ranges(self.active_space_ids@, self.draws@, self.active_space_ids@.len() as int)
        &&& runs_partition_draws(self.draws@, self.runs@)
        &&& greedy_run_chunks(self.runs@, self.run_chunks@, PREPARED_RUN_CHUNK_DRAW_TARGET as int)
        &&& run_lookup_map_contents(self.renderer_run_lookup) == run_lookup(self.draws@, self.runs@, self.runs@.len() as int)
        &&& self.material_property_keys@ == first_seen_keys(self.draws@)
        &&& self.material_property_key_signature == material_key_signature_of(self.draws@)
    }

    /// Empty snapshot for `render_context`.
    pub fn empty(render_context: RenderingContext) -> (r: Self)
        ensures
            r.tables_match(),
            r.active_space_ids@.len() == 0,
            r.draws@.len() == 0,
            r.previous_draws@.len() == 0,
            space_range_map_contents(r.previous_cached_space_draw_ranges).dom() == Set::<i32>::empty(),
            r.render_context == render_context,
            !r.context_invariant,
    {
        Self::empty_with_context_mode(render_context, false)
    }

    /// Empty snapshot that any context without draw-prep overrides may consume.
    pub fn empty_context_invariant(render_context: RenderingContext) -> (r: Self)
        ensures
            r.tables_match(),
            r.active_space_ids@.len() == 0,
            r.draws@.len() == 0,
            r.previous_draws@.len() == 0,
            space_range_map_contents(r.previous_cached_space_draw_ranges).dom() == Set::<i32>::empty(),
            r.render_context == render_context,
            r.context_invariant,
    {
        Self::empty_with_context_mode(render_context, true)
    }

    /// Empty snapshot with an explicit context-compatibility mode.
    pub fn empty_with_context_mode(render_context: RenderingContext, context_invariant: bool) -> (r: Self)
        ensures
            r.tables_match(),
            r.active_space_ids@.len() == 0,
            r.draws@.len() == 0,
            r.previous_draws@.len() == 0,
            space_range_map_contents(r.previous_cached_space_draw_ranges).dom() == Set::<i32>::empty(),
            r.render_context == render_context,
            r.context_invariant == context_invariant,
    {
        let r = FramePreparedRenderables {
            active_space_ids: Vec::new(),
            cached_space_draw_ranges: SpaceRangeMap::new(),
            draws: Vec::new(),
            runs: Vec::new(),
            run_chunks: Vec::new(),
            renderer_run_lookup: RunLookupMap::new(),
            material_property_keys: Vec::new(),
            material_property_key_signature: empty_material_key_signature(),
            render_context,
            context_invariant,
            previous_draws: Vec::new(),
            previous_cached_space_draw_ranges: SpaceRangeMap::new(),
            material_property_seen_scratch: MaterialKeySet::new(),
        };
        proof {
            assert(space_range_map_contents(r.cached_space_draw_ranges) =~= space_ranges(r.active_space_ids@, r.draws@, 0));
            assert(run_lookup_map_contents(r.renderer_run_lookup) =~= run_lookup(r.draws@, r.runs@, 0));
            assert(r.material_property_keys@ =~= first_seen_keys(r.draws@));
        }
        r
    }

    /// Refreshes space ranges, renderer runs, material keys, renderer ordinals, run chunks, and
    /// the run lookup from the current rows. Ordinals come from `scene_static_counts` (rows of
    /// `(space, static renderer count)`) when given, otherwise from the runs.
    pub fn refresh_runs_material_keys_and_chunks(&mut self, scene_static_counts: Option<&[(RenderSpaceId, usize)]>)
        requires
            old(self).draws@.len() <= u32::MAX,
        ensures
            final(self).tables_match(),
            final(self).draws@.len() == old(self).draws@.len(),
            forall|i: int| 0 <= i < old(self).draws@.len() ==> #[trigger] final(self).draws@[i] == (FramePreparedDraw {
                renderer_ordinal: refreshed_ordinal(
                    old(self).draws@,
                    final(self).runs@,
                    match scene_static_counts { Some(c) => Some(c@), None => None },
                    i,
                ),
                ..old(self).draws@[i]
            }),
            final(self).active_space_ids == old(self).active_space_ids,
            final(self).render_context == old(self).render_context,
            final(self).context_invariant == old(self).context_invariant,
            final(self).previous_draws == old(self).previous_draws,
            final(self).previous_cached_space_draw_ranges == old(self).previous_cached_space_draw_ranges,
    {
        let ghost rows = self.draws@;
        let signature = populate_runs_and_material_keys(
            &self.draws,
            &mut self.runs,
            &mut self.material_property_keys,
            &mut self.material_property_seen_scratch,
        );
        self.material_property_key_signature = signature;
        proof {
            lemma_partition_runs_in_bounds(rows, self.runs@);
        }
        let _run_count = self.runs.len();
        match scene_static_counts {
            Some(counts) => populate_renderer_ordinals_from_scene(&mut self.draws, counts),
            None => populate_renderer_ordinals_from_runs(&mut self.draws, &self.runs),
        }
        proof {
            assert forall|i: int| 0 <= i < rows.len() implies #[trigger] self.draws@[i] == (FramePreparedDraw {
                renderer_ordinal: self.draws@[i].renderer_ordinal,
                ..rows[i]
            }) by {}
            lemma_partition_ignores_ordinal(rows, self.draws@, self.runs@);
            lemma_first_seen_keys_ignore_ordinal(rows, self.draws@);
        }
        populate_run_chunks(&self.runs, &mut self.run_chunks, PREPARED_RUN_CHUNK_DRAW_TARGET);
        space_draw_ranges_into(&self.active_space_ids, &self.draws, &mut self.cached_space_draw_ranges);
        populate_renderer_run_lookup(&self.draws, &self.runs, &mut self.renderer_run_lookup);
    }

    /// Starts a retained rebuild: the current rows and ranges become the previous ones and every
    /// current table is emptied. The material keys stay until the rebuild finishes.
    pub fn begin_cached_rebuild(&mut self, render_context: RenderingContext)
        ensures
            final(self).render_context == render_context,
            final(self).context_invariant == old(self).context_invariant,
            final(self).previous_draws@ == old(self).draws@,
            space_range_map_contents(final(self).previous_cached_space_draw_ranges) == space_range_map_contents(old(self).cached_space_draw_ranges),
            final(self).active_space_ids@.len() == 0,
            final(self).draws@.len() == 0,
            final(self).runs@.len() == 0,
            final(self).run_chunks@.len() == 0,
            space_range_map_contents(final(self).cached_space_draw_ranges).dom() == Set::<i32>::empty(),
            forall|k: (i32, bool, usize, u64)| !run_lookup_map_contents(final(self).renderer_run_lookup).contains_key(k),
            final(self).material_property_keys == old(self).material_property_keys,
            final(self).material_property_key_signature == old(self).material_property_key_signature,
            final(self).material_property_seen_scratch == old(self).material_property_seen_scratch,
    {
        self.render_context = render_context;
        self.previous_draws.clear();
        std::mem::swap(&mut self.draws, &mut self.previous_draws);
        self.previous_cached_space_draw_ranges.clear();
        std::mem::swap(&mut self.cached_space_draw_ranges, &mut self.previous_cached_space_draw_ranges);
        self.active_space_ids.clear();
        self.cached_space_draw_ranges.clear();
        self.draws.clear();
        self.runs.clear();
        self.run_chunks.clear();
        self.renderer_run_lookup.clear();
    }

    /// Appends an active render space to the snapshot under construction.
    pub fn push_cached_space(&mut self, id: RenderSpaceId)
        ensures
            final(self).active_space_ids@ == old(self).active_space_ids@.push(id),
            *final(self) == (FramePreparedRenderables { active_space_ids: final(self).active_space_ids, ..*old(self) }),
    {
        self.active_space_ids.push(id);
    }

    /// Appends retained rows to the snapshot under construction.
    pub fn extend_cached_draws(&mut self, draws: &[FramePreparedDraw])
        ensures
            final(self).draws@ == old(self).draws@ + draws@,
            *final(self) == (FramePreparedRenderables { draws: final(self).draws, ..*old(self) }),
    {
        let mut i: usize = 0;
        while i < draws.len()
            invariant
                i <= draws@.len(),
                self.draws@ == old(self).draws@ + draws@.subrange(0, i as int),
                *self == (FramePreparedRenderables { draws: self.draws, ..*old(self) }),
            decreases draws@.len() - i,
        {
            self.draws.push(draws[i]);
            i += 1;
            proof {
                assert(draws@.subrange(0, i as int) =~= draws@.subrange(0, i - 1).push(draws@[i - 1]));
            }
        }
        proof {
            assert(draws@.subrange(0, draws@.len() as int) =~= draws@);
        }
    }

    /// Whether the previous rebuild recorded a draw range for `id`.
    pub fn has_previous_cached_draws_for_space(&self, id: RenderSpaceId) -> (r: bool)
        ensures
            r == space_range_map_contents(self.previous_cached_space_draw_ranges).contains_key(id.0),
    {
        self.previous_cached_space_draw_ranges.contains_key(id.0)
    }

    /// Appends the previous rebuild's rows of `id` when its recorded range lies inside the
    /// previous rows; returns whether it did.
    pub fn extend_previous_cached_draws_for_space(&mut self, id: RenderSpaceId) -> (r: bool)
        ensures
            r == {
                let m = space_range_map_contents(old(self).previous_cached_space_draw_ranges);
                m.contains_key(id.0) && m[id.0].0 <= m[id.0].1 <= old(self).previous_draws@.len()
            },
            r ==> {
                let range = space_range_map_contents(old(self).previous_cached_space_draw_ranges)[id.0];
                final(self).draws@ == old(self).draws@ + old(self).previous_draws@.subrange(range.0 as int, range.1 as int)
            },
            !r ==> final(self).draws@ == old(self).draws@,
            *final(self) == (FramePreparedRenderables { draws: final(self).draws, ..*old(self) }),
    {
        let range = match self.previous_cached_space_draw_ranges.get(id.0) {
            Some(range) => range,
            None => return false,
        };
        if range.0 > range.1 || range.1 > self.previous_draws.len() {
            return false;
        }
        let (start, end) = range;
        let mut i: usize = start;
        while i < end
            invariant
                start <= i <= end <= self.previous_draws@.len(),
                self.draws@ == old(self).draws@ + old(self).previous_draws@.subrange(start as int, i as int),
                *self == (FramePreparedRenderables { draws: self.draws, ..*old(self) }),
            decreases end - i,
        {
            let row = self.previous_draws[i];
            self.draws.push(row);
            i += 1;
            proof {
                assert(old(self).previous_draws@.subrange(start as int, i as int)
                    =~= old(self).previous_draws@.subrange(start as int, i - 1).push(row));
            }
        }
        true
    }

    /// Finishes a retained rebuild: refreshes every derived table, taking renderer ordinals from
    /// the scene's `(space, static renderer count)` table.
    pub fn finish_cached_rebuild(&mut self, scene_static_counts: &[(RenderSpaceId, usize)])
        requires
            old(self).draws@.len() <= u32::MAX,
        ensures
            final(self).tables_match(),
            final(self).draws@.len() == old(self).draws@.len(),
            forall|i: int| 0 <= i < old(self).draws@.len() ==> #[trigger] final(self).draws@[i] == (FramePreparedDraw {
                renderer_ordinal: scene_ordinal(scene_static_counts@, old(self).draws@[i]),
                ..old(self).draws@[i]
            }),
            final(self).active_space_ids == old(self).active_space_ids,
            final(self).render_context == old(self).render_context,
            final(self).context_invariant == old(self).context_invariant,
            final(self).previous_draws == old(self).previous_draws,
            final(self).previous_cached_space_draw_ranges == old(self).previous_cached_space_draw_ranges,
    {
        self.refresh_runs_material_keys_and_chunks(Some(scene_static_counts));
    }

    /// Rebuilds the snapshot from per-space row lists, in order, with run-derived ordinals.
    pub fn rebuild_from_cached_spaces(&mut self, render_context: RenderingContext, spaces: &[(RenderSpaceId, Vec<FramePreparedDraw>)])
        requires
            concat_space_rows(spaces@).len() <= u32::MAX,
        ensures
            final(self).tables_match(),
            final(self).active_space_ids@ == spaces@.map_values(|e: (RenderSpaceId, Vec<FramePreparedDraw>)| e.0),
            same_rows_but_ordinal(concat_space_rows(spaces@), final(self).draws@),
            forall|i: int| 0 <= i < final(self).draws@.len() ==> #[trigger] final(self).draws@[i].renderer_ordinal
                == refreshed_ordinal(concat_space_rows(spaces@), final(self).runs@, None, i),
            final(self).render_context == render_context,
            final(self).context_invariant == old(self).context_invariant,
            final(self).previous_draws@ == old(self).draws@,
    {
        self.begin_cached_rebuild(render_context);
        let mut k: usize = 0;
        while k < spaces.len()
            invariant
                k <= spaces@.len(),
                self.active_space_ids@ == spaces@.subrange(0, k as int).map_values(|e: (RenderSpaceId, Vec<FramePreparedDraw>)| e.0),
                self.draws@ == concat_space_rows(spaces@.subrange(0, k as int)),
                self.render_context == render_context,
                self.context_invariant == old(self).context_invariant,
                self.previous_draws@ == old(self).draws@,
            decreases spaces@.len() - k,
        {
            self.push_cached_space(spaces[k].0);
            self.extend_cached_draws(spaces[k].1.as_slice());
            proof {
                let pre = spaces@.subrange(0, k as int);
                let post = spaces@.subrange(0, k + 1);
                assert(post.drop_last() =~= pre);
                assert(post.last() == spaces@[k as int]);
                assert(post.map_values(|e: (RenderSpaceId, Vec<FramePreparedDraw>)| e.0)
                    =~= pre.map_values(|e: (RenderSpaceId, Vec<FramePreparedDraw>)| e.0).push(spaces@[k as int].0));
            }
            k += 1;
        }
        proof {
            assert(spaces@.subrange(0, spaces@.len() as int) =~= spaces@);
        }
        let ghost rows = self.draws@;
        self.refresh_runs_material_keys_and_chunks(None);
        proof {
            assert forall|i: int| 0 <= i < rows.len() implies #[trigger] self.draws@[i] == (FramePreparedDraw {
                renderer_ordinal: self.draws@[i].renderer_ordinal,
                ..rows[i]
            }) by {}
        }
    }

    /// Dense prepared rows.
    pub fn draws(&self) -> (r: &[FramePreparedDraw])
        ensures
            r@ == self.draws@,
    {
        self.draws.as_slice()
    }

    /// Renderer runs over the rows.
    pub fn runs(&self) -> (r: &[FramePreparedRun])
        ensures
            r@ == self.runs@,
    {
        self.runs.as_slice()
    }

    /// Cached run chunks consumed by per-view collection.
    pub fn run_chunks(&self) -> (r: &[FramePreparedRunChunk])
        ensures
            r@ == self.run_chunks@,
    {
        self.run_chunks.as_slice()
    }

    /// Runs of one cached chunk.
    pub fn runs_for_chunk(&self, chunk: FramePreparedRunChunk) -> (r: &[FramePreparedRun])
        requires
            chunk.start <= chunk.end <= self.runs@.len(),
        ensures
            r@ == self.runs@.subrange(chunk.start as int, chunk.end as int),
    {
        vstd::slice::slice_subrange(self.runs.as_slice(), chunk.start, chunk.end)
    }

    /// Number of prepared rows.
    pub fn len(&self) -> (r: usize)
        ensures
            r == self.draws@.len(),
    {
        self.draws.len()
    }

    /// Whether no row was prepared.
    pub fn is_empty(&self) -> (r: bool)
        ensures
            r == (self.draws@.len() == 0),
    {
        self.draws.len() == 0
    }

    /// Render context the rows were resolved against.
    pub fn render_context(&self) -> (r: RenderingContext)
        ensures
            r == self.render_context,
    {
        self.render_context
    }

    /// Whether this snapshot can be consumed by `render_context`.
    pub fn is_compatible_with_render_context(&self, render_context: RenderingContext) -> (r: bool)
        ensures
            r == (self.context_invariant || self.render_context == render_context),
    {
        self.context_invariant || self.render_context.0 == render_context.0
    }

    /// Active render spaces captured by this snapshot.
    pub fn active_space_ids(&self) -> (r: &[RenderSpaceId])
        ensures
            r@ == self.active_space_ids@,
    {
        self.active_space_ids.as_slice()
    }

    /// First-seen unique `(material, property block)` keys of the rows.
    pub fn unique_material_property_pairs(&self) -> (r: &[(i32, Option<i32>)])
        ensures
            r@ == self.material_property_keys@,
    {
        self.material_property_keys.as_slice()
    }

    /// Signature of the unique material keys.
    pub fn material_property_key_signature(&self) -> (r: u64)
        ensures
            r == self.material_property_key_signature,
    {
        self.material_property_key_signature
    }

    /// The prepared run of a renderer identity, if the lookup holds one.
    pub fn renderer_run(&self, space_id: RenderSpaceId, skinned: bool, renderable_index: usize, instance_id: MeshRendererInstanceId) -> (r: Option<FramePreparedRun>)
        ensures
            ({
                let key = (space_id.0, skinned, renderable_index, instance_id.0);
                let m = run_lookup_map_contents(self.renderer_run_lookup);
                match r {
                    Some(run) => m.contains_key(key) && m[key] == (run.start, run.end),
                    None => !m.contains_key(key),
                }
            }),
    {
        match self.renderer_run_lookup.get((space_id.0, skinned, renderable_index, instance_id.0)) {
            Some(run) => Some(FramePreparedRun { start: run.0, end: run.1 }),
            None => None,
        }
    }
}


/// Rows of per-space row lists, concatenated in order.
pub open spec fn concat_space_rows(spaces: Seq<(RenderSpaceId, Vec<FramePreparedDraw>)>) -> Seq<FramePreparedDraw>
    decreases spaces.len(),
{
    if spaces.len() == 0 {
        Seq::empty()
    } else {
        concat_space_rows(spaces.drop_last()) + spaces.last().1@
    }
}


/// Every recorded space range lies inside the rows it was recorded from, and every row in
/// it belongs to that space.
pub proof fn lemma_space_ranges_cover_own_rows(active: Seq<RenderSpaceId>, draws: Seq<FramePreparedDraw>, k: int)
    requires
        0 <= k <= active.len(),
        draws.len() <= usize::MAX,
    ensures
        forall|id: i32| #[trigger] space_ranges(active, draws, k).contains_key(id) ==> {
            let range = space_ranges(active, draws, k)[id];
            &&& range.0 <= range.1 <= draws.len()
            &&& forall|i: int| range.0 <= i < range.1 ==> (#[trigger] draws[i]).space_id.0 == id
        },
    decreases k,
{
    if k > 0 {
        lemma_space_ranges_cover_own_rows(active, draws, k - 1);
        lemma_space_cursor_bounds(active, draws, k);
        lemma_space_cursor_bounds(active, draws, k - 1);
        let c0 = space_cursor(active, draws, k - 1);
        let c1 = space_cursor(active, draws, k);
        lemma_space_block_end_bounds(draws, c0, active[k - 1]);
        let prev = space_ranges(active, draws, k - 1);
        let cur = space_ranges(active, draws, k);
        assert forall|id: i32| #[trigger] cur.contains_key(id) implies {
            let range = cur[id];
            &&& range.0 <= range.1 <= draws.len()
            &&& forall|i: int| range.0 <= i < range.1 ==> (#[trigger] draws[i]).space_id.0 == id
        } by {
            if id == active[k - 1].0 {
                assert(cur[id] == (c0 as usize, c1 as usize));
                assert forall|i: int| c0 <= i < c1 implies (#[trigger] draws[i]).space_id.0 == id by {
                    assert(draws[i].space_id == active[k - 1]);
                }
            } else {
                assert(prev.contains_key(id));
                assert(cur[id] == prev[id]);
            }
        }
    }
}


/// The run lookup files exactly the runs whose first row exists: every filed entry is one
/// of the runs, filed under its first row's renderer identity, and every such run's identity
/// is filed.
pub proof fn lemma_run_lookup_files_runs(draws: Seq<FramePreparedDraw>, runs: Seq<FramePreparedRun>, k: int)
    requires
        0 <= k <= runs.len(),
    ensures
        forall|key: (i32, bool, usize, u64)| #[trigger] run_lookup(draws, runs, k).contains_key(key) ==> exists|j: int|
            0 <= j < k && runs[j].start < draws.len() && #[trigger] run_key(draws[runs[j].start as int]) == key
                && run_lookup(draws, runs, k)[key] == (runs[j].start, runs[j].end),
        forall|j: int| 0 <= j < k && runs[j].start < draws.len() ==> run_lookup(draws, runs, k).contains_key(
            #[trigger] run_key(draws[runs[j].start as int]),
        ),
    decreases k,
{
    if k > 0 {
        lemma_run_lookup_files_runs(draws, runs, k - 1);
        let cur = run_lookup(draws, runs, k);
        let prev = run_lookup(draws, runs, k - 1);
        assert forall|key: (i32, bool, usize, u64)| #[trigger] cur.contains_key(key) implies exists|j: int|
            0 <= j < k && runs[j].start < draws.len() && #[trigger] run_key(draws[runs[j].start as int]) == key
                && cur[key] == (runs[j].start, runs[j].end) by {
            let last = k - 1;
            if runs[last].start < draws.len() && run_key(draws[runs[last].start as int]) == key {
                assert(cur[key] == (runs[last].start, runs[last].end));
            } else {
                assert(prev.contains_key(key));
                let j = choose|j: int| 0 <= j < k - 1 && runs[j].start < draws.len() && #[trigger] run_key(draws[runs[j].start as int]) == key
                    && prev[key] == (runs[j].start, runs[j].end);
                assert(cur[key] == prev[key]);
            }
        }
    }
}

} // verus!
