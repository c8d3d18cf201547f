//! Direct expansion of the scene's active render spaces into a prepared snapshot, without the
//! retained render-world cache.
use vstd::prelude::*;

use crate::frame_maintenance::{scene_space, scene_space_of};
use crate::prepared::{empty_material_key_signature, first_seen_keys, FramePreparedDraw};
use crate::prepared_snapshot::{run_lookup, space_ranges, FramePreparedRenderables};
use crate::collections::{run_lookup_map_contents, space_range_map_contents};
use crate::render_world::RenderingContext;
use crate::renderer_expand::{renderer_rows, try_expand_one_renderer, ExpandedRendererId};
use crate::retained_refresh::{SceneRendererRow, SceneSpaceRenderers};
use crate::shared::{RenderSpaceId, RenderWorldRendererKind};
use crate::snapshot_rebuild::{build_scene_static_counts, particle_rows_of, retained_active_ids, retained_rows, rows_finished, snapshot_rows};
use crate::render_world::RetainedSpaceTable;
use crate::retained::{range_draws, RenderWorldRendererTemplate, RenderWorldSpace};
use crate::retained_refresh::{records_refreshed, template_refreshed};

verus! {

/// Rows of `rows[0..k)` of one renderer table of space `space_id`, in renderer order.
pub open spec fn table_rows(space_id: RenderSpaceId, skinned: bool, rows: Seq<SceneRendererRow>, k: int) -> Seq<FramePreparedDraw>
    decreases k,
{
    if k <= 0 {
        Seq::empty()
    } else {
        table_rows(space_id, skinned, rows, k - 1) + renderer_rows(
            ExpandedRendererId { space_id, renderable_index: (k - 1) as usize, skinned },
            rows[k - 1].renderer,
            rows[k - 1].expansion,
        )
    }
}

/// Rows of one scene space: its static renderers' rows, then its skinned renderers' rows.
pub open spec fn space_rows(space_id: RenderSpaceId, space: SceneSpaceRenderers) -> Seq<FramePreparedDraw> {
    table_rows(space_id, false, space.static_rows@, space.static_rows@.len() as int)
        + table_rows(space_id, true, space.skinned_rows@, space.skinned_rows@.len() as int)
}

/// Ids among the first `k` listed spaces that the scene has and that are active, in order.
pub open spec fn scene_active_ids(space_ids: Seq<RenderSpaceId>, scene: Seq<SceneSpaceRenderers>, k: int) -> Seq<RenderSpaceId>
    decreases k,
{
    if k <= 0 {
        Seq::empty()
    } else {
        let p = scene_active_ids(space_ids, scene, k - 1);
        match scene_space_of(scene, space_ids[k - 1].0) {
            Some(s) => if s.active { p.push(space_ids[k - 1]) } else { p },
            None => p,
        }
    }
}

/// Rows of the first `k` of `active`, space after space.
pub open spec fn frame_rows(active: Seq<RenderSpaceId>, scene: Seq<SceneSpaceRenderers>, k: int) -> Seq<FramePreparedDraw>
    decreases k,
{
    if k <= 0 {
        Seq::empty()
    } else {
        frame_rows(active, scene, k - 1) + match scene_space_of(scene, active[k - 1].0) {
            Some(s) => space_rows(active[k - 1], s),
            None => Seq::empty(),
        }
    }
}

/// Appends the rows of one renderer table.
fn expand_table_into(out: &mut Vec<FramePreparedDraw>, space_id: RenderSpaceId, skinned: bool, rows: &[SceneRendererRow])
    ensures
        final(out)@ == old(out)@ + table_rows(space_id, skinned, rows@, rows@.len() as int),
{
    let ghost base = out@;
    let mut i: usize = 0;
    while i < rows.len()
        invariant
            i <= rows@.len(),
            out@ == base + table_rows(space_id, skinned, rows@, i as int),
        decreases rows@.len() - i,
    {
        let id = ExpandedRendererId { space_id, renderable_index: i, skinned };
        let expansion = match &rows[i].expansion {
            Some(e) => Some(e),
            None => None,
        };
        let ghost before = out@;
        try_expand_one_renderer(out, &id, &rows[i].renderer, expansion);
        proof {
            assert(match expansion { Some(e) => Some(*e), None => None } == rows@[i as int].expansion);
            assert(out@ =~= base + table_rows(space_id, skinned, rows@, i + 1));
        }
        i += 1;
    }
}

/// Appends every valid renderer row of one scene space: static renderers, then skinned ones.
pub fn expand_space_into(out: &mut Vec<FramePreparedDraw>, space_id: RenderSpaceId, space: &SceneSpaceRenderers)
    ensures
        final(out)@ == old(out)@ + space_rows(space_id, *space),
{
    let ghost base = out@;
    expand_table_into(out, space_id, false, space.static_rows.as_slice());
    expand_table_into(out, space_id, true, space.skinned_rows.as_slice());
    proof {
        assert(out@ =~= base + space_rows(space_id, *space));
    }
}

/// Renderer slice width of chunked prepared-row expansion.
pub const PREPARED_EXPAND_RENDERER_CHUNK_SIZE: usize = 64;

/// Contiguous renderer slice of one table assigned to one expansion worker.
#[derive(Clone, Copy, Debug, PartialEq, Eq, Structural)]
pub struct ExpansionChunkSpec {
    /// Source renderer table.
    pub kind: RenderWorldRendererKind,
    /// First renderer row of the slice.
    pub start: usize,
    /// One past the last renderer row of the slice.
    pub end: usize,
}

/// Slices `start..n` of one table, each `PREPARED_EXPAND_RENDERER_CHUNK_SIZE` rows but the last.
pub open spec fn expansion_chunks(kind: RenderWorldRendererKind, n: int, start: int) -> Seq<ExpansionChunkSpec>
    decreases n - start,
{
    if start >= n || start < 0 {
        Seq::empty()
    } else {
        let end = if n - start > PREPARED_EXPAND_RENDERER_CHUNK_SIZE { start + PREPARED_EXPAND_RENDERER_CHUNK_SIZE } else { n };
        seq![ExpansionChunkSpec { kind, start: start as usize, end: end as usize }] + expansion_chunks(kind, n, end)
    }
}

/// Appends fixed-width renderer slices of a table of `len` rows.
pub fn push_expansion_chunks(chunks: &mut Vec<ExpansionChunkSpec>, kind: RenderWorldRendererKind, len: usize)
    ensures
        final(chunks)@ == old(chunks)@ + expansion_chunks(kind, len as int, 0),
{
    let ghost base = chunks@;
    let mut start: usize = 0;
    while start < len
        invariant
            start <= len,
            chunks@ + expansion_chunks(kind, len as int, start as int) == base + expansion_chunks(kind, len as int, 0),
        decreases len - start,
    {
        let end: usize = if len - start > PREPARED_EXPAND_RENDERER_CHUNK_SIZE { start + PREPARED_EXPAND_RENDERER_CHUNK_SIZE } else { len };
        let ghost before = chunks@;
        chunks.push(ExpansionChunkSpec { kind, start, end });
        assert(expansion_chunks(kind, len as int, start as int)
            == seq![ExpansionChunkSpec { kind, start, end }] + expansion_chunks(kind, len as int, end as int));
        assert(chunks@ + expansion_chunks(kind, len as int, end as int) =~= before + expansion_chunks(kind, len as int, start as int));
        start = end;
    }
    assert(chunks@ + expansion_chunks(kind, len as int, start as int) =~= chunks@);
}

/// Draw-count estimate of a scene space: twice its renderer rows (two slots per renderer is
/// typical; shadow-only renderers are counted too), saturating at `usize::MAX`; zero for a
/// missing space.
pub open spec fn spec_estimated_draw_count(space: Option<SceneSpaceRenderers>) -> int {
    match space {
        Some(s) => {
            let n = s.static_rows@.len() + s.skinned_rows@.len();
            if n > usize::MAX { usize::MAX as int } else if 2 * n > usize::MAX { usize::MAX as int } else { (2 * n) as int }
        },
        None => 0,
    }
}

/// Upper bound on the prepared rows of space `space_id`, used to pre-size output buffers.
pub fn estimated_draw_count(scene: &[SceneSpaceRenderers], space_id: RenderSpaceId) -> (r: usize)
    ensures
        r == spec_estimated_draw_count(scene_space_of(scene@, space_id.0)),
{
    match scene_space(scene, space_id.0) {
        Some(s) => {
            let renderers = s.static_rows.len().saturating_add(s.skinned_rows.len());
            if renderers > usize::MAX / 2 { usize::MAX } else { renderers * 2 }
        },
        None => 0,
    }
}

/// Static plus skinned renderer rows of an active space (zero when missing or inactive),
/// saturating at `usize::MAX`.
pub open spec fn spec_renderer_count_for_space(space: Option<SceneSpaceRenderers>) -> int {
    match space {
        Some(s) => if s.active {
            let n = s.static_rows@.len() + s.skinned_rows@.len();
            if n > usize::MAX { usize::MAX as int } else { n as int }
        } else {
            0
        },
        None => 0,
    }
}

/// Total static and skinned renderer rows of one active render space.
pub fn renderer_count_for_space(scene: &[SceneSpaceRenderers], space_id: RenderSpaceId) -> (r: usize)
    ensures
        r == spec_renderer_count_for_space(scene_space_of(scene@, space_id.0)),
{
    match scene_space(scene, space_id.0) {
        Some(s) => if s.active { s.static_rows.len().saturating_add(s.skinned_rows.len()) } else { 0 },
        None => 0,
    }
}

impl FramePreparedRenderables {
    /// Collects the listed spaces that the scene has and that are active.
    fn collect_scene_active_spaces(&mut self, space_ids: &[RenderSpaceId], scene: &[SceneSpaceRenderers])
        requires
            old(self).active_space_ids@.len() == 0,
        ensures
            final(self).active_space_ids@ == scene_active_ids(space_ids@, scene@, space_ids@.len() as int),
            *final(self) == (FramePreparedRenderables { active_space_ids: final(self).active_space_ids, ..*old(self) }),
    {
        let mut i: usize = 0;
        while i < space_ids.len()
            invariant
                i <= space_ids@.len(),
                self.active_space_ids@ == scene_active_ids(space_ids@, scene@, i as int),
                *self == (FramePreparedRenderables { active_space_ids: self.active_space_ids, ..*old(self) }),
            decreases space_ids@.len() - i,
        {
            match scene_space(scene, space_ids[i].0) {
                Some(s) => {
                    if s.active {
                        self.active_space_ids.push(space_ids[i]);
                    }
                },
                None => {},
            }
            i += 1;
        }
    }

    /// Expands every active space's rows into the snapshot, space after space.
    fn expand_active_spaces(&mut self, scene: &[SceneSpaceRenderers])
        requires
            old(self).draws@.len() == 0,
        ensures
            final(self).draws@ == frame_rows(old(self).active_space_ids@, scene@, old(self).active_space_ids@.len() as int),
            *final(self) == (FramePreparedRenderables { draws: final(self).draws, ..*old(self) }),
    {
        let mut k: usize = 0;
        while k < self.active_space_ids.len()
            invariant
                k <= self.active_space_ids@.len(),
                self.draws@ == frame_rows(self.active_space_ids@, scene@, k as int),
                *self == (FramePreparedRenderables { draws: self.draws, ..*old(self) }),
            decreases self.active_space_ids@.len() - k,
        {
            let space_id = self.active_space_ids[k];
            match scene_space(scene, space_id.0) {
                Some(space) => {
                    expand_space_into(&mut self.draws, space_id, space);
                },
                None => {},
            }
            proof {
                assert(self.draws@ =~= frame_rows(self.active_space_ids@, scene@, k + 1));
            }
            k += 1;
        }
    }

    /// Rebuilds the snapshot in place from the scene: the listed spaces that the scene has and
    /// that are active become the active spaces, every valid renderer row of each is expanded
    /// (static renderers, then skinned ones), and the derived tables are refreshed with renderer
    /// ordinals from the scene tables. Rows past the `u32` run range stay unindexed.
    pub fn rebuild_for_frame(&mut self, space_ids: &[RenderSpaceId], scene: &[SceneSpaceRenderers], render_context: RenderingContext)
        ensures
            final(self).render_context == render_context,
            final(self).context_invariant == old(self).context_invariant,
            final(self).active_space_ids@ == scene_active_ids(space_ids@, scene@, space_ids@.len() as int),
            rows_finished(
                frame_rows(final(self).active_space_ids@, scene@, final(self).active_space_ids@.len() as int),
                *final(self),
                scene@,
            ),
            final(self).previous_draws == old(self).previous_draws,
            final(self).previous_cached_space_draw_ranges == old(self).previous_cached_space_draw_ranges,
    {
        self.render_context = render_context;
        self.active_space_ids.clear();
        self.cached_space_draw_ranges.clear();
        self.draws.clear();
        self.runs.clear();
        self.run_chunks.clear();
        self.renderer_run_lookup.clear();
        self.material_property_keys.clear();
        self.collect_scene_active_spaces(space_ids, scene);
        if self.active_space_ids.len() == 0 {
            self.material_property_key_signature = empty_material_key_signature();
            proof {
                assert(space_range_map_contents(self.cached_space_draw_ranges) =~= space_ranges(self.active_space_ids@, self.draws@, 0));
                assert(run_lookup_map_contents(self.renderer_run_lookup) =~= run_lookup(self.draws@, self.runs@, 0));
                assert(self.material_property_keys@ =~= first_seen_keys(self.draws@));
                assert(frame_rows(self.active_space_ids@, scene@, 0) =~= self.draws@);
            }
            return;
        }
        self.expand_active_spaces(scene);
        if self.draws.len() <= u32::MAX as usize {
            let counts = build_scene_static_counts(scene);
            self.refresh_runs_material_keys_and_chunks(Some(counts.as_slice()));
        }
    }

    /// Builds a snapshot of the scene's active spaces for `render_context`.
    pub fn build_for_frame(space_ids: &[RenderSpaceId], scene: &[SceneSpaceRenderers], render_context: RenderingContext) -> (r: Self)
        ensures
            r.render_context == render_context,
            !r.context_invariant,
            r.active_space_ids@ == scene_active_ids(space_ids@, scene@, space_ids@.len() as int),
            rows_finished(frame_rows(r.active_space_ids@, scene@, r.active_space_ids@.len() as int), r, scene@),
    {
        let mut out = Self::empty(render_context);
        out.rebuild_for_frame(space_ids, scene, render_context);
        out
    }

    /// `(mesh asset, material asset)` of every prepared row, in row order.
    pub fn mesh_material_pairs(&self) -> (r: Vec<(i32, i32)>)
        ensures
            r@.len() == self.draws@.len(),
            forall|i: int| 0 <= i < r@.len() ==> #[trigger] r@[i] == (self.draws@[i].mesh_asset_id, self.draws@[i].material_asset_id),
    {
        let mut r: Vec<(i32, i32)> = Vec::new();
        let mut i: usize = 0;
        while i < self.draws.len()
            invariant
                i <= self.draws@.len(),
                r@.len() == i,
                forall|j: int| 0 <= j < i ==> #[trigger] r@[j] == (self.draws@[j].mesh_asset_id, self.draws@[j].material_asset_id),
            decreases self.draws@.len() - i,
        {
            r.push((self.draws[i].mesh_asset_id, self.draws[i].material_asset_id));
            i += 1;
        }
        r
    }
}

/// A space's retained records describe a scene space: same activity, and while active every
/// record is refreshed from its scene row.
pub open spec fn space_matches_scene(space: RenderWorldSpace, s: SceneSpaceRenderers, id: RenderSpaceId) -> bool {
    &&& space.active == s.active
    &&& s.active ==> {
        &&& records_refreshed(space.static_renderers@, id, false, s.static_rows@)
        &&& records_refreshed(space.skinned_renderers@, id, true, s.skinned_rows@)
    }
}

/// Refreshed records of one table hold the table's expanded rows.
proof fn lemma_refreshed_table_rows(
    records: Seq<RenderWorldRendererTemplate>,
    id: RenderSpaceId,
    skinned: bool,
    rows: Seq<SceneRendererRow>,
    k: int,
)
    requires
        records_refreshed(records, id, skinned, rows),
        0 <= k <= rows.len(),
    ensures
        range_draws(records, 0, k) == table_rows(id, skinned, rows, k),
    decreases k,
{
    if k > 0 {
        lemma_refreshed_table_rows(records, id, skinned, rows, k - 1);
        assert(template_refreshed(
            records[k - 1],
            ExpandedRendererId { space_id: id, renderable_index: (k - 1) as usize, skinned },
            Some(rows[k - 1]),
        ));
    }
}

/// The retained rows of an active space whose records match the scene are the space's
/// expanded rows.
pub proof fn lemma_refreshed_space_rows(space: RenderWorldSpace, s: SceneSpaceRenderers, id: RenderSpaceId)
    requires
        space_matches_scene(space, s, id),
        s.active,
    ensures
        retained_rows(space) == space_rows(id, s),
{
    lemma_refreshed_table_rows(space.static_renderers@, id, false, s.static_rows@, s.static_rows@.len() as int);
    lemma_refreshed_table_rows(space.skinned_renderers@, id, true, s.skinned_rows@, s.skinned_rows@.len() as int);
}

/// Every listed scene space has retained storage that matches it.
pub open spec fn retained_matches_scene(table: RetainedSpaceTable, scene_ids: Seq<RenderSpaceId>, scene: Seq<SceneSpaceRenderers>) -> bool {
    forall|j: int| 0 <= j < scene_ids.len() ==> {
        let id = #[trigger] scene_ids[j];
        &&& table.spec_ids().contains(id.0)
        &&& scene_space_of(scene, id.0) is Some
        &&& space_matches_scene(table.spec_get(id.0), scene_space_of(scene, id.0).unwrap(), id)
    }
}

/// Matching storage makes the same spaces active as the scene does.
proof fn lemma_matching_active_ids(table: RetainedSpaceTable, scene_ids: Seq<RenderSpaceId>, scene: Seq<SceneSpaceRenderers>, k: int)
    requires
        retained_matches_scene(table, scene_ids, scene),
        0 <= k <= scene_ids.len(),
    ensures
        retained_active_ids(scene_ids, table, k) == scene_active_ids(scene_ids, scene, k),
        forall|j: int| 0 <= j < scene_active_ids(scene_ids, scene, k).len() ==> {
            let id = #[trigger] scene_active_ids(scene_ids, scene, k)[j];
            &&& table.spec_ids().contains(id.0)
            &&& scene_space_of(scene, id.0) is Some
            &&& scene_space_of(scene, id.0).unwrap().active
            &&& space_matches_scene(table.spec_get(id.0), scene_space_of(scene, id.0).unwrap(), id)
        },
    decreases k,
{
    if k > 0 {
        lemma_matching_active_ids(table, scene_ids, scene, k - 1);
        let id = scene_ids[k - 1];
        assert(table.spec_ids().contains(id.0));
        let prev = scene_active_ids(scene_ids, scene, k - 1);
        let cur = scene_active_ids(scene_ids, scene, k);
        assert forall|j: int| 0 <= j < cur.len() implies {
            let a = #[trigger] cur[j];
            &&& table.spec_ids().contains(a.0)
            &&& scene_space_of(scene, a.0) is Some
            &&& scene_space_of(scene, a.0).unwrap().active
            &&& space_matches_scene(table.spec_get(a.0), scene_space_of(scene, a.0).unwrap(), a)
        } by {
            if j < prev.len() {
                assert(cur[j] == prev[j]);
            }
        }
    }
}

/// The retained snapshot reproduces direct expansion: when every listed scene space has retained
/// storage whose records match it, a full snapshot rebuild without generated particle rows makes
/// the same spaces active as a direct build of the scene, and holds the same rows.
pub proof fn lemma_retained_snapshot_matches_direct_build(
    table: RetainedSpaceTable,
    scene_ids: Seq<RenderSpaceId>,
    scene: Seq<SceneSpaceRenderers>,
    previous_draws: Seq<FramePreparedDraw>,
    previous: Map<i32, (usize, usize)>,
)
    requires
        retained_matches_scene(table, scene_ids, scene),
    ensures
        retained_active_ids(scene_ids, table, scene_ids.len() as int) == scene_active_ids(scene_ids, scene, scene_ids.len() as int),
        ({
            let active = scene_active_ids(scene_ids, scene, scene_ids.len() as int);
            snapshot_rows(table, previous_draws, previous, active, Set::empty(), Seq::empty(), active.len() as int)
                == frame_rows(active, scene, active.len() as int)
        }),
{
    lemma_matching_active_ids(table, scene_ids, scene, scene_ids.len() as int);
    let active = scene_active_ids(scene_ids, scene, scene_ids.len() as int);
    lemma_snapshot_rows_match(table, scene, active, previous_draws, previous, active.len() as int);
}

/// Prefix form of the snapshot/direct-build agreement over the active spaces.
proof fn lemma_snapshot_rows_match(
    table: RetainedSpaceTable,
    scene: Seq<SceneSpaceRenderers>,
    active: Seq<RenderSpaceId>,
    previous_draws: Seq<FramePreparedDraw>,
    previous: Map<i32, (usize, usize)>,
    k: int,
)
    requires
        0 <= k <= active.len(),
        forall|j: int| 0 <= j < active.len() ==> {
            let id = #[trigger] active[j];
            &&& scene_space_of(scene, id.0) is Some
            &&& scene_space_of(scene, id.0).unwrap().active
            &&& space_matches_scene(table.spec_get(id.0), scene_space_of(scene, id.0).unwrap(), id)
        },
    ensures
        snapshot_rows(table, previous_draws, previous, active, Set::empty(), Seq::empty(), k) == frame_rows(active, scene, k),
    decreases k,
{
    if k > 0 {
        lemma_snapshot_rows_match(table, scene, active, previous_draws, previous, k - 1);
        let id = active[k - 1];
        let s = scene_space_of(scene, id.0).unwrap();
        lemma_refreshed_space_rows(table.spec_get(id.0), s, id);
        assert(particle_rows_of(Seq::<(RenderSpaceId, Vec<FramePreparedDraw>)>::empty(), id.0) == Seq::<FramePreparedDraw>::empty());
        assert(!Set::<i32>::empty().contains(id.0));
        assert(snapshot_rows(table, previous_draws, previous, active, Set::empty(), Seq::empty(), k)
            =~= snapshot_rows(table, previous_draws, previous, active, Set::empty(), Seq::empty(), k - 1) + space_rows(id, s));
    }
}

} // verus!
