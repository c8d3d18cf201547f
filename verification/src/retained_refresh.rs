//! Refresh of retained renderer-template records from the scene's renderer tables: whole-space
//! refresh with reverse-index rebuild, and the per-record refresh it is made of.
use vstd::prelude::*;

use crate::collections::{index_set_contents, ref_index_contents, IndexSet, RefIndex, RenderWorldRendererRef};
use crate::renderer_expand::{renderer_rows, try_expand_one_renderer, ExpandedRendererId, RenderableExpansion};
use crate::retained::{spec_push_ref, spec_remove_ref, sum_counts, template_counts, RenderWorldRendererTemplate, RenderWorldSpace};
use crate::shared::{MeshRendererInstanceId, RenderSpaceId, RenderWorldRendererKind, StaticMeshRenderer};

verus! {

/// One renderer row of a scene space, with what its resident mesh contributes (`None` when the
/// mesh is not resident).
#[derive(Clone, Debug)]
pub struct SceneRendererRow {
    /// The renderer row.
    pub renderer: StaticMeshRenderer,
    /// Mesh and scene facts of the row, when its mesh is resident.
    pub expansion: Option<RenderableExpansion>,
}

/// One scene render space as the retained refresh reads it.
pub struct SceneSpaceRenderers {
    /// Host render space id.
    pub id: RenderSpaceId,
    /// Whether the space is active.
    pub active: bool,
    /// Static renderer rows by dense index.
    pub static_rows: Vec<SceneRendererRow>,
    /// Skinned renderer rows by dense index.
    pub skinned_rows: Vec<SceneRendererRow>,
}

/// Counts returned by retained renderer-template refreshes.
#[derive(Clone, Copy, Debug, Default, PartialEq, Eq, Structural)]
pub struct RefreshOutcome {
    /// Renderer records refreshed.
    pub renderer_count: usize,
    /// Draw templates retained by those refreshed records.
    pub template_count: usize,
    /// Spaces rebuilt through full-space refresh.
    pub full_space_count: usize,
    /// Prepared spatial spaces refit after dynamic bounds changed.
    pub spatial_refit_count: usize,
}

/// `a + b`, clamped to `usize::MAX`.
pub open spec fn sat_sum(a: int, b: int) -> int {
    if a + b > usize::MAX { usize::MAX as int } else { a + b }
}

/// A record equals the refresh of scene row `row` (or the missing-row reset for `None`).
pub open spec fn template_refreshed(t: RenderWorldRendererTemplate, id: ExpandedRendererId, row: Option<SceneRendererRow>) -> bool {
    match row {
        None => {
            &&& t.instance_id == MeshRendererInstanceId(0)
            &&& t.node_id == -1
            &&& t.mesh_asset_id == -1
            &&& t.draws@.len() == 0
        },
        Some(r) => {
            &&& t.instance_id == r.renderer.instance_id
            &&& t.node_id == r.renderer.node_id
            &&& t.mesh_asset_id == r.renderer.mesh_asset_id
            &&& t.draws@ == renderer_rows(id, r.renderer, r.expansion)
        },
    }
}

/// Row `index` of a scene table, if present.
pub open spec fn row_at(rows: Seq<SceneRendererRow>, index: int) -> Option<SceneRendererRow> {
    if 0 <= index < rows.len() {
        Some(rows[index])
    } else {
        None
    }
}

/// Record `index` of `kind` in space `space_id`, refreshed from its scene row.
pub fn refreshed_renderer_record(space_id: RenderSpaceId, kind: RenderWorldRendererKind, index: usize, rows: &[SceneRendererRow]) -> (t: RenderWorldRendererTemplate)
    ensures
        template_refreshed(
            t,
            ExpandedRendererId { space_id, renderable_index: index, skinned: kind is Skinned },
            row_at(rows@, index as int),
        ),
{
    if index >= rows.len() {
        return RenderWorldRendererTemplate { instance_id: MeshRendererInstanceId(0), node_id: -1, mesh_asset_id: -1, draws: Vec::new() };
    }
    let row = &rows[index];
    let skinned = match kind {
        RenderWorldRendererKind::Static => false,
        RenderWorldRendererKind::Skinned => true,
    };
    let id = ExpandedRendererId { space_id, renderable_index: index, skinned };
    let mut draws: Vec<crate::prepared::FramePreparedDraw> = Vec::new();
    let expansion = match &row.expansion {
        Some(e) => Some(e),
        None => None,
    };
    try_expand_one_renderer(&mut draws, &id, &row.renderer, expansion);
    proof {
        assert(draws@ =~= renderer_rows(id, row.renderer, row.expansion));
    }
    RenderWorldRendererTemplate {
        instance_id: row.renderer.instance_id,
        node_id: row.renderer.node_id,
        mesh_asset_id: row.renderer.mesh_asset_id,
        draws,
    }
}

/// Reverse index after recording the first `k` records of one table under `key_of` keys.
pub open spec fn indexed_records(
    index: Map<i32, Seq<RenderWorldRendererRef>>,
    records: Seq<RenderWorldRendererTemplate>,
    kind: RenderWorldRendererKind,
    by_mesh: bool,
    k: int,
) -> Map<i32, Seq<RenderWorldRendererRef>>
    decreases k,
{
    if k <= 0 {
        index
    } else {
        let r = records[k - 1];
        spec_push_ref(
            indexed_records(index, records, kind, by_mesh, k - 1),
            if by_mesh { r.mesh_asset_id } else { r.node_id },
            RenderWorldRendererRef { kind, index: (k - 1) as usize },
        )
    }
}

/// Reverse index built from a space's records: static rows in order, then skinned rows.
pub open spec fn space_index(space: RenderWorldSpace, by_mesh: bool) -> Map<i32, Seq<RenderWorldRendererRef>> {
    indexed_records(
        indexed_records(Map::empty(), space.static_renderers@, RenderWorldRendererKind::Static, by_mesh, space.static_renderers@.len() as int),
        space.skinned_renderers@,
        RenderWorldRendererKind::Skinned,
        by_mesh,
        space.skinned_renderers@.len() as int,
    )
}

/// Records every record of one table into both reverse indexes, in order.
fn index_table_records(space: &mut RenderWorldSpace, kind: RenderWorldRendererKind)
    ensures
        final(space).active == old(space).active,
        final(space).static_renderers@ == old(space).static_renderers@,
        final(space).skinned_renderers@ == old(space).skinned_renderers@,
        ref_index_contents(final(space).mesh_asset_index) == indexed_records(
            ref_index_contents(old(space).mesh_asset_index),
            if kind is Static { old(space).static_renderers@ } else { old(space).skinned_renderers@ },
            kind, true,
            (if kind is Static { old(space).static_renderers@ } else { old(space).skinned_renderers@ }).len() as int,
        ),
        ref_index_contents(final(space).node_index) == indexed_records(
            ref_index_contents(old(space).node_index),
            if kind is Static { old(space).static_renderers@ } else { old(space).skinned_renderers@ },
            kind, false,
            (if kind is Static { old(space).static_renderers@ } else { old(space).skinned_renderers@ }).len() as int,
        ),
{
    let ghost records = if kind is Static { space.static_renderers@ } else { space.skinned_renderers@ };
    let count = match kind {
        RenderWorldRendererKind::Static => space.static_renderers.len(),
        RenderWorldRendererKind::Skinned => space.skinned_renderers.len(),
    };
    let mut i: usize = 0;
    while i < count
        invariant
            count == records.len(),
            i <= count,
            records == if kind is Static { space.static_renderers@ } else { space.skinned_renderers@ },
            space.active == old(space).active,
            space.static_renderers@ == old(space).static_renderers@,
            space.skinned_renderers@ == old(space).skinned_renderers@,
            ref_index_contents(space.mesh_asset_index) == indexed_records(ref_index_contents(old(space).mesh_asset_index), records, kind, true, i as int),
            ref_index_contents(space.node_index) == indexed_records(ref_index_contents(old(space).node_index), records, kind, false, i as int),
        decreases count - i,
    {
        space.push_reverse_indexes_for_ref(RenderWorldRendererRef { kind, index: i });
        i += 1;
    }
}

/// Sum of retained template counts of a space, saturating at `usize::MAX`.
pub fn saturating_template_count(space: &RenderWorldSpace) -> (r: usize)
    ensures
        r == if space.spec_retained_template_count() > usize::MAX { usize::MAX as int } else { space.spec_retained_template_count() as int },
{
    let a = saturating_table_count(&space.static_renderers);
    let b = saturating_table_count(&space.skinned_renderers);
    a.saturating_add(b)
}

/// Sum of template counts of one table, saturating at `usize::MAX`.
fn saturating_table_count(records: &Vec<RenderWorldRendererTemplate>) -> (r: usize)
    ensures
        r == if sum_counts(template_counts(records@), 0, records@.len() as int) > usize::MAX {
            usize::MAX as int
        } else {
            sum_counts(template_counts(records@), 0, records@.len() as int) as int
        },
{
    let mut total: usize = 0;
    let mut i: usize = 0;
    while i < records.len()
        invariant
            i <= records@.len(),
            total == if sum_counts(template_counts(records@), 0, i as int) > usize::MAX {
                usize::MAX as int
            } else {
                sum_counts(template_counts(records@), 0, i as int) as int
            },
        decreases records@.len() - i,
    {
        proof {
            crate::retained::lemma_sum_counts_monotone(template_counts(records@), 0, i as int, i as int + 1);
        }
        total = total.saturating_add(records[i].draws.len());
        i += 1;
    }
    total
}


/// A record with a default identity and no draws.
pub open spec fn is_default_template(t: RenderWorldRendererTemplate) -> bool {
    &&& t.instance_id == MeshRendererInstanceId(0)
    &&& t.node_id == 0
    &&& t.mesh_asset_id == 0
    &&& t.draws@.len() == 0
}

/// `new` is `old` resized to `len` records: kept records unchanged, added ones default.
pub open spec fn resized_records(old: Seq<RenderWorldRendererTemplate>, new: Seq<RenderWorldRendererTemplate>, len: int) -> bool {
    &&& new.len() == len
    &&& forall|i: int| 0 <= i < len && i < old.len() ==> #[trigger] new[i] == old[i]
    &&& forall|i: int| old.len() <= i < len ==> is_default_template(#[trigger] new[i])
}

/// Resizes a record table to `len`, dropping extra records and appending default ones.
fn resize_records(records: &mut Vec<RenderWorldRendererTemplate>, len: usize)
    ensures
        resized_records(old(records)@, final(records)@, len as int),
{
    if records.len() > len {
        records.truncate(len);
        return;
    }
    while records.len() < len
        invariant
            old(records)@.len() <= records@.len() <= len,
            forall|i: int| 0 <= i < old(records)@.len() ==> #[trigger] records@[i] == old(records)@[i],
            forall|i: int| old(records)@.len() <= i < records@.len() ==> is_default_template(#[trigger] records@[i]),
        decreases len - records@.len(),
    {
        records.push(RenderWorldRendererTemplate { instance_id: MeshRendererInstanceId(0), node_id: 0, mesh_asset_id: 0, draws: Vec::new() });
    }
}

/// `new` keeps the identity of every record of `old` and drops all draws.
pub open spec fn draws_cleared(old: Seq<RenderWorldRendererTemplate>, new: Seq<RenderWorldRendererTemplate>) -> bool {
    &&& new.len() == old.len()
    &&& forall|i: int| 0 <= i < old.len() ==> {
        &&& (#[trigger] new[i]).instance_id == old[i].instance_id
        &&& new[i].node_id == old[i].node_id
        &&& new[i].mesh_asset_id == old[i].mesh_asset_id
        &&& new[i].draws@.len() == 0
    }
}

/// Drops every record's draws, keeping identities.
fn clear_record_draws(records: &mut Vec<RenderWorldRendererTemplate>)
    ensures
        draws_cleared(old(records)@, final(records)@),
{
    let mut i: usize = 0;
    while i < records.len()
        invariant
            records@.len() == old(records)@.len(),
            i <= records@.len(),
            forall|j: int| 0 <= j < i ==> {
                &&& (#[trigger] records@[j]).instance_id == old(records)@[j].instance_id
                &&& records@[j].node_id == old(records)@[j].node_id
                &&& records@[j].mesh_asset_id == old(records)@[j].mesh_asset_id
                &&& records@[j].draws@.len() == 0
            },
            forall|j: int| i <= j < records@.len() ==> #[trigger] records@[j] == old(records)@[j],
        decreases records@.len() - i,
    {
        let cleared = RenderWorldRendererTemplate {
            instance_id: records[i].instance_id,
            node_id: records[i].node_id,
            mesh_asset_id: records[i].mesh_asset_id,
            draws: Vec::new(),
        };
        records.set(i, cleared);
        i += 1;
    }
}

/// Every record of a table is the refresh of the scene row at its index.
pub open spec fn records_refreshed(records: Seq<RenderWorldRendererTemplate>, space_id: RenderSpaceId, skinned: bool, rows: Seq<SceneRendererRow>) -> bool {
    &&& records.len() == rows.len()
    &&& forall|i: int| 0 <= i < rows.len() ==> template_refreshed(
        #[trigger] records[i],
        ExpandedRendererId { space_id, renderable_index: i as usize, skinned },
        Some(rows[i]),
    )
}

/// Refreshes every record of one table from its scene rows.
fn refresh_table_records(records: &mut Vec<RenderWorldRendererTemplate>, space_id: RenderSpaceId, kind: RenderWorldRendererKind, rows: &[SceneRendererRow])
    requires
        old(records)@.len() == rows@.len(),
    ensures
        records_refreshed(final(records)@, space_id, kind is Skinned, rows@),
{
    let mut i: usize = 0;
    while i < records.len()
        invariant
            records@.len() == rows@.len(),
            i <= records@.len(),
            forall|j: int| 0 <= j < i ==> template_refreshed(
                #[trigger] records@[j],
                ExpandedRendererId { space_id, renderable_index: j as usize, skinned: kind is Skinned },
                Some(rows@[j]),
            ),
        decreases records@.len() - i,
    {
        let t = refreshed_renderer_record(space_id, kind, i, rows);
        records.set(i, t);
        i += 1;
    }
}

/// `new` is the full refresh of `old` from `scene_space`: a missing space is emptied and marked
/// inactive; an inactive space keeps record identities (resized to the scene tables) with no
/// draws and empty indexes; an active space refreshes every record from its scene row and
/// rebuilds both reverse indexes from the refreshed records.
pub open spec fn space_refreshed(old: RenderWorldSpace, new: RenderWorldSpace, scene_space: Option<SceneSpaceRenderers>, id: RenderSpaceId) -> bool {
    match scene_space {
        None => {
            &&& !new.active
            &&& new.static_renderers@.len() == 0
            &&& new.skinned_renderers@.len() == 0
            &&& ref_index_contents(new.mesh_asset_index).dom() == Set::<i32>::empty()
            &&& ref_index_contents(new.node_index).dom() == Set::<i32>::empty()
        },
        Some(s) => {
            &&& new.active == s.active
            &&& s.active ==> {
                &&& records_refreshed(new.static_renderers@, id, false, s.static_rows@)
                &&& records_refreshed(new.skinned_renderers@, id, true, s.skinned_rows@)
                &&& ref_index_contents(new.mesh_asset_index) == space_index(new, true)
                &&& ref_index_contents(new.node_index) == space_index(new, false)
            }
            &&& !s.active ==> exists|st: Seq<RenderWorldRendererTemplate>, sk: Seq<RenderWorldRendererTemplate>| {
                &&& resized_records(old.static_renderers@, st, s.static_rows@.len() as int)
                &&& resized_records(old.skinned_renderers@, sk, s.skinned_rows@.len() as int)
                &&& draws_cleared(st, new.static_renderers@)
                &&& draws_cleared(sk, new.skinned_renderers@)
                &&& ref_index_contents(new.mesh_asset_index).dom() == Set::<i32>::empty()
                &&& ref_index_contents(new.node_index).dom() == Set::<i32>::empty()
            }
        },
    }
}

/// Refreshes every retained record of one render space from the scene's tables.
pub fn refresh_render_world_space(cached: &mut RenderWorldSpace, scene_space: Option<&SceneSpaceRenderers>, id: RenderSpaceId) -> (outcome: RefreshOutcome)
    ensures
        space_refreshed(*old(cached), *final(cached), match scene_space { Some(s) => Some(*s), None => None }, id),
        scene_space is None ==> outcome == (RefreshOutcome { renderer_count: 0, template_count: 0, full_space_count: 0, spatial_refit_count: 0 }),
        scene_space is Some ==> outcome == (RefreshOutcome {
            renderer_count: sat_sum(final(cached).static_renderers@.len() as int, final(cached).skinned_renderers@.len() as int) as usize,
            template_count: if final(cached).spec_retained_template_count() > usize::MAX {
                usize::MAX
            } else {
                final(cached).spec_retained_template_count() as usize
            },
            full_space_count: 1,
            spatial_refit_count: 0,
        }),
{
    let space = match scene_space {
        None => {
            cached.active = false;
            cached.static_renderers.clear();
            cached.skinned_renderers.clear();
            cached.mesh_asset_index = RefIndex::new();
            cached.node_index = RefIndex::new();
            return RefreshOutcome { renderer_count: 0, template_count: 0, full_space_count: 0, spatial_refit_count: 0 };
        },
        Some(s) => s,
    };
    cached.active = space.active;
    resize_records(&mut cached.static_renderers, space.static_rows.len());
    resize_records(&mut cached.skinned_renderers, space.skinned_rows.len());
    let ghost st = cached.static_renderers@;
    let ghost sk = cached.skinned_renderers@;
    if cached.active {
        cached.mesh_asset_index = RefIndex::new();
        cached.node_index = RefIndex::new();
        refresh_table_records(&mut cached.static_renderers, id, RenderWorldRendererKind::Static, space.static_rows.as_slice());
        let ghost empty_mesh = ref_index_contents(cached.mesh_asset_index);
        let ghost empty_node = ref_index_contents(cached.node_index);
        index_table_records(cached, RenderWorldRendererKind::Static);
        refresh_table_records(&mut cached.skinned_renderers, id, RenderWorldRendererKind::Skinned, space.skinned_rows.as_slice());
        index_table_records(cached, RenderWorldRendererKind::Skinned);
        proof {
            assert(empty_mesh =~= Map::<i32, Seq<RenderWorldRendererRef>>::empty());
            assert(empty_node =~= Map::<i32, Seq<RenderWorldRendererRef>>::empty());
        }
    } else {
        clear_record_draws(&mut cached.static_renderers);
        clear_record_draws(&mut cached.skinned_renderers);
        cached.mesh_asset_index = RefIndex::new();
        cached.node_index = RefIndex::new();
    }
    let renderer_count = cached.static_renderers.len().saturating_add(cached.skinned_renderers.len());
    let template_count = saturating_template_count(cached);
    RefreshOutcome { renderer_count, template_count, full_space_count: 1, spatial_refit_count: 0 }
}


/// Records per worker chunk when refreshing dense retained renderer tables.
pub const RENDER_WORLD_REFRESH_CHUNK_SIZE: usize = 32;

/// Renderer count above which retained-template refresh uses worker threads.
pub const RENDER_WORLD_PARALLEL_MIN_RENDERERS: usize = 64;

/// Minimum dirty density before a dirty refresh scans whole renderer tables in parallel.
pub const RENDER_WORLD_DIRTY_SCAN_MIN_DENSITY_DIVISOR: usize = 4;

/// Whether a dirty renderer set is large and dense enough to scan whole retained tables.
pub open spec fn spec_should_parallel_scan(dirty_count: int, total_count: int) -> bool {
    dirty_count >= RENDER_WORLD_PARALLEL_MIN_RENDERERS
        && (if dirty_count * RENDER_WORLD_DIRTY_SCAN_MIN_DENSITY_DIVISOR > usize::MAX {
            usize::MAX as int
        } else {
            dirty_count * RENDER_WORLD_DIRTY_SCAN_MIN_DENSITY_DIVISOR
        }) >= total_count
}

/// Returns whether a dirty renderer set is dense enough to parallel-scan retained tables.
pub fn should_parallel_scan_dirty_records(dirty_count: usize, total_count: usize) -> (r: bool)
    ensures
        r == spec_should_parallel_scan(dirty_count as int, total_count as int),
{
    let scaled: usize = if dirty_count > usize::MAX / RENDER_WORLD_DIRTY_SCAN_MIN_DENSITY_DIVISOR {
        usize::MAX
    } else {
        dirty_count * RENDER_WORLD_DIRTY_SCAN_MIN_DENSITY_DIVISOR
    };
    dirty_count >= RENDER_WORLD_PARALLEL_MIN_RENDERERS && scaled >= total_count
}

/// Dirty renderer rows of one render space, by table.
pub struct DirtyRendererSet {
    /// Static renderer indices to refresh.
    pub static_indices: IndexSet,
    /// Skinned renderer indices to refresh.
    pub skinned_indices: IndexSet,
}

impl DirtyRendererSet {
    /// An empty dirty set.
    pub fn new() -> (r: Self)
        ensures
            index_set_contents(r.static_indices) == Set::<usize>::empty(),
            index_set_contents(r.skinned_indices) == Set::<usize>::empty(),
    {
        DirtyRendererSet { static_indices: IndexSet::new(), skinned_indices: IndexSet::new() }
    }

    /// Number of renderer rows in this dirty set (saturating).
    pub fn len(&self) -> (r: usize)
        ensures
            r == sat_sum(index_set_contents(self.static_indices).len() as int, index_set_contents(self.skinned_indices).len() as int),
    {
        self.static_indices.len().saturating_add(self.skinned_indices.len())
    }

    /// Whether this set contains no renderer row.
    pub fn is_empty(&self) -> (r: bool)
        ensures
            r == (index_set_contents(self.static_indices).len() == 0 && index_set_contents(self.skinned_indices).len() == 0),
    {
        self.static_indices.len() == 0 && self.skinned_indices.len() == 0
    }

    /// Inserts one renderer row.
    pub fn insert(&mut self, kind: RenderWorldRendererKind, index: usize)
        ensures
            kind is Static ==> index_set_contents(final(self).static_indices) == index_set_contents(old(self).static_indices).insert(index)
                && final(self).skinned_indices == old(self).skinned_indices,
            kind is Skinned ==> index_set_contents(final(self).skinned_indices) == index_set_contents(old(self).skinned_indices).insert(index)
                && final(self).static_indices == old(self).static_indices,
    {
        match kind {
            RenderWorldRendererKind::Static => {
                self.static_indices.insert(index);
            },
            RenderWorldRendererKind::Skinned => {
                self.skinned_indices.insert(index);
            },
        }
    }
}

/// References of a dirty set in processing order: static indices, then skinned ones.
pub open spec fn dirty_refs(static_order: Seq<usize>, skinned_order: Seq<usize>) -> Seq<RenderWorldRendererRef> {
    static_order.map_values(|i: usize| RenderWorldRendererRef { kind: RenderWorldRendererKind::Static, index: i })
        + skinned_order.map_values(|i: usize| RenderWorldRendererRef { kind: RenderWorldRendererKind::Skinned, index: i })
}

/// Reverse-index keys `(mesh asset id, node id)` of a referenced record, if it exists.
pub open spec fn ref_keys(
    static_records: Seq<RenderWorldRendererTemplate>,
    skinned_records: Seq<RenderWorldRendererTemplate>,
    r: RenderWorldRendererRef,
) -> Option<(i32, i32)> {
    let table = if r.kind is Static { static_records } else { skinned_records };
    if r.index < table.len() {
        Some((table[r.index as int].mesh_asset_id, table[r.index as int].node_id))
    } else {
        None
    }
}

/// Reverse index after dropping the first `k` references under their keys in `space`.
pub open spec fn refs_removed(index: Map<i32, Seq<RenderWorldRendererRef>>, space: RenderWorldSpace, refs: Seq<RenderWorldRendererRef>, by_mesh: bool, k: int) -> Map<i32, Seq<RenderWorldRendererRef>>
    decreases k,
{
    if k <= 0 {
        index
    } else {
        let prev = refs_removed(index, space, refs, by_mesh, k - 1);
        match ref_keys(space.static_renderers@, space.skinned_renderers@, refs[k - 1]) {
            Some((mesh, node)) => spec_remove_ref(prev, if by_mesh { mesh } else { node }, refs[k - 1]),
            None => prev,
        }
    }
}

/// Reverse index after recording the first `k` references under their keys in `space`.
pub open spec fn refs_pushed(index: Map<i32, Seq<RenderWorldRendererRef>>, space: RenderWorldSpace, refs: Seq<RenderWorldRendererRef>, by_mesh: bool, k: int) -> Map<i32, Seq<RenderWorldRendererRef>>
    decreases k,
{
    if k <= 0 {
        index
    } else {
        let prev = refs_pushed(index, space, refs, by_mesh, k - 1);
        match ref_keys(space.static_renderers@, space.skinned_renderers@, refs[k - 1]) {
            Some((mesh, node)) => spec_push_ref(prev, if by_mesh { mesh } else { node }, refs[k - 1]),
            None => prev,
        }
    }
}

/// Drops (or records) each reference of `refs` from (into) both reverse indexes, in order.
fn apply_reverse_index_delta(space: &mut RenderWorldSpace, refs: &Vec<RenderWorldRendererRef>, push: bool)
    ensures
        final(space).active == old(space).active,
        final(space).static_renderers@ == old(space).static_renderers@,
        final(space).skinned_renderers@ == old(space).skinned_renderers@,
        !push ==> ref_index_contents(final(space).mesh_asset_index) == refs_removed(ref_index_contents(old(space).mesh_asset_index), *old(space), refs@, true, refs@.len() as int),
        !push ==> ref_index_contents(final(space).node_index) == refs_removed(ref_index_contents(old(space).node_index), *old(space), refs@, false, refs@.len() as int),
        push ==> ref_index_contents(final(space).mesh_asset_index) == refs_pushed(ref_index_contents(old(space).mesh_asset_index), *old(space), refs@, true, refs@.len() as int),
        push ==> ref_index_contents(final(space).node_index) == refs_pushed(ref_index_contents(old(space).node_index), *old(space), refs@, false, refs@.len() as int),
{
    let ghost start = *space;
    let mut k: usize = 0;
    while k < refs.len()
        invariant
            k <= refs@.len(),
            space.active == start.active,
            space.static_renderers@ == start.static_renderers@,
            space.skinned_renderers@ == start.skinned_renderers@,
            !push ==> ref_index_contents(space.mesh_asset_index) == refs_removed(ref_index_contents(start.mesh_asset_index), start, refs@, true, k as int),
            !push ==> ref_index_contents(space.node_index) == refs_removed(ref_index_contents(start.node_index), start, refs@, false, k as int),
            push ==> ref_index_contents(space.mesh_asset_index) == refs_pushed(ref_index_contents(start.mesh_asset_index), start, refs@, true, k as int),
            push ==> ref_index_contents(space.node_index) == refs_pushed(ref_index_contents(start.node_index), start, refs@, false, k as int),
        decreases refs@.len() - k,
    {
        proof {
            assert(space.spec_reverse_index_keys(refs@[k as int]) == ref_keys(start.static_renderers@, start.skinned_renderers@, refs@[k as int]));
        }
        if push {
            space.push_reverse_indexes_for_ref(refs[k]);
        } else {
            space.remove_reverse_indexes_for_ref(refs[k]);
        }
        k += 1;
    }
}

/// `new` is `old` with each index of `order` below the table length refreshed from its scene row.
pub open spec fn records_refreshed_at(
    old: Seq<RenderWorldRendererTemplate>,
    new: Seq<RenderWorldRendererTemplate>,
    order: Seq<usize>,
    space_id: RenderSpaceId,
    skinned: bool,
    rows: Seq<SceneRendererRow>,
) -> bool {
    &&& new.len() == old.len()
    &&& forall|i: int| 0 <= i < old.len() ==> if order.contains(i as usize) {
        template_refreshed(#[trigger] new[i], ExpandedRendererId { space_id, renderable_index: i as usize, skinned }, row_at(rows, i))
    } else {
        new[i] == old[i]
    }
}

/// Refreshes the records of `order` (those below the table length) from their scene rows.
fn refresh_records_at(records: &mut Vec<RenderWorldRendererTemplate>, order: &Vec<usize>, space_id: RenderSpaceId, kind: RenderWorldRendererKind, rows: &[SceneRendererRow])
    ensures
        records_refreshed_at(old(records)@, final(records)@, order@, space_id, kind is Skinned, rows@),
{
    let mut k: usize = 0;
    while k < order.len()
        invariant
            k <= order@.len(),
            records@.len() == old(records)@.len(),
            forall|i: int| 0 <= i < old(records)@.len() ==> if order@.subrange(0, k as int).contains(i as usize) {
                template_refreshed(#[trigger] records@[i], ExpandedRendererId { space_id, renderable_index: i as usize, skinned: kind is Skinned }, row_at(rows@, i))
            } else {
                records@[i] == old(records)@[i]
            },
        decreases order@.len() - k,
    {
        let index = order[k];
        if index < records.len() {
            let t = refreshed_renderer_record(space_id, kind, index, rows);
            records.set(index, t);
        }
        proof {
            let pre = order@.subrange(0, k as int);
            let post = order@.subrange(0, k + 1);
            assert(post =~= pre.push(index));
            assert forall|i: int| 0 <= i < old(records)@.len() implies (#[trigger] post.contains(i as usize) <==> (pre.contains(i as usize) || i == index as int)) by {
                if i == index as int {
                    assert(post[k as int] == index);
                }
                if pre.contains(i as usize) {
                    let j = choose|j: int| 0 <= j < pre.len() && pre[j] == i as usize;
                    assert(post[j] == i as usize);
                }
            }
        }
        k += 1;
    }
    proof {
        assert(order@.subrange(0, order@.len() as int) =~= order@);
    }
}

/// Draw templates retained by the records of `order` that exist, saturating.
pub open spec fn refreshed_templates(records: Seq<RenderWorldRendererTemplate>, order: Seq<usize>, k: int) -> int
    decreases k,
{
    if k <= 0 {
        0
    } else {
        let prev = refreshed_templates(records, order, k - 1);
        if order[k - 1] < records.len() {
            sat_sum(prev, records[order[k - 1] as int].draws@.len() as int)
        } else {
            prev
        }
    }
}

/// Sum of the draw templates of the records of `order` that exist, saturating.
fn template_count_at(records: &Vec<RenderWorldRendererTemplate>, order: &Vec<usize>) -> (r: usize)
    ensures
        r == refreshed_templates(records@, order@, order@.len() as int),
{
    let mut total: usize = 0;
    let mut k: usize = 0;
    while k < order.len()
        invariant
            k <= order@.len(),
            total == refreshed_templates(records@, order@, k as int),
        decreases order@.len() - k,
    {
        let index = order[k];
        if index < records.len() {
            total = total.saturating_add(records[index].draws.len());
        }
        k += 1;
    }
    total
}

/// `new` is `old` after refreshing the dirty rows listed (in processing order) by
/// `static_order`/`skinned_order`: their old identities leave the reverse indexes, the rows are
/// refreshed from the scene tables, and their new identities enter the indexes in that order.
pub open spec fn renderer_set_refreshed(
    old: RenderWorldSpace,
    new: RenderWorldSpace,
    static_order: Seq<usize>,
    skinned_order: Seq<usize>,
    scene_space: SceneSpaceRenderers,
    id: RenderSpaceId,
) -> bool {
    let refs = dirty_refs(static_order, skinned_order);
    &&& new.active == old.active
    &&& records_refreshed_at(old.static_renderers@, new.static_renderers@, static_order, id, false, scene_space.static_rows@)
    &&& records_refreshed_at(old.skinned_renderers@, new.skinned_renderers@, skinned_order, id, true, scene_space.skinned_rows@)
    &&& ref_index_contents(new.mesh_asset_index) == refs_pushed(
        refs_removed(ref_index_contents(old.mesh_asset_index), old, refs, true, refs.len() as int), new, refs, true, refs.len() as int)
    &&& ref_index_contents(new.node_index) == refs_pushed(
        refs_removed(ref_index_contents(old.node_index), old, refs, false, refs.len() as int), new, refs, false, refs.len() as int)
}

/// Refreshes every renderer row of a dirty set for one active render space.
pub fn refresh_renderer_set(cached: &mut RenderWorldSpace, dirty_set: &DirtyRendererSet, scene_space: &SceneSpaceRenderers, id: RenderSpaceId) -> (outcome: RefreshOutcome)
    ensures
        exists|static_order: Seq<usize>, skinned_order: Seq<usize>| {
            &&& static_order.to_set() == index_set_contents(dirty_set.static_indices)
            &&& static_order.no_duplicates()
            &&& skinned_order.to_set() == index_set_contents(dirty_set.skinned_indices)
            &&& skinned_order.no_duplicates()
            &&& renderer_set_refreshed(*old(cached), *final(cached), static_order, skinned_order, *scene_space, id)
            &&& outcome == (RefreshOutcome {
                renderer_count: sat_sum(index_set_contents(dirty_set.static_indices).len() as int, index_set_contents(dirty_set.skinned_indices).len() as int) as usize,
                template_count: sat_sum(
                    refreshed_templates(final(cached).static_renderers@, static_order, static_order.len() as int),
                    refreshed_templates(final(cached).skinned_renderers@, skinned_order, skinned_order.len() as int),
                ) as usize,
                full_space_count: 0,
                spatial_refit_count: 0,
            })
        },
{
    let renderer_count = dirty_set.len();
    let static_order = dirty_set.static_indices.to_vec();
    let skinned_order = dirty_set.skinned_indices.to_vec();
    let mut refs: Vec<RenderWorldRendererRef> = Vec::new();
    let mut k: usize = 0;
    while k < static_order.len()
        invariant
            k <= static_order@.len(),
            refs@ == static_order@.subrange(0, k as int).map_values(|i: usize| RenderWorldRendererRef { kind: RenderWorldRendererKind::Static, index: i }),
        decreases static_order@.len() - k,
    {
        refs.push(RenderWorldRendererRef { kind: RenderWorldRendererKind::Static, index: static_order[k] });
        k += 1;
        proof {
            assert(static_order@.subrange(0, k as int).map_values(|i: usize| RenderWorldRendererRef { kind: RenderWorldRendererKind::Static, index: i })
                =~= static_order@.subrange(0, k - 1).map_values(|i: usize| RenderWorldRendererRef { kind: RenderWorldRendererKind::Static, index: i })
                    .push(RenderWorldRendererRef { kind: RenderWorldRendererKind::Static, index: static_order@[k - 1] }));
        }
    }
    let ghost static_refs = refs@;
    let mut k: usize = 0;
    while k < skinned_order.len()
        invariant
            k <= skinned_order@.len(),
            refs@ == static_refs + skinned_order@.subrange(0, k as int).map_values(|i: usize| RenderWorldRendererRef { kind: RenderWorldRendererKind::Skinned, index: i }),
        decreases skinned_order@.len() - k,
    {
        refs.push(RenderWorldRendererRef { kind: RenderWorldRendererKind::Skinned, index: skinned_order[k] });
        k += 1;
        proof {
            assert(skinned_order@.subrange(0, k as int).map_values(|i: usize| RenderWorldRendererRef { kind: RenderWorldRendererKind::Skinned, index: i })
                =~= skinned_order@.subrange(0, k - 1).map_values(|i: usize| RenderWorldRendererRef { kind: RenderWorldRendererKind::Skinned, index: i })
                    .push(RenderWorldRendererRef { kind: RenderWorldRendererKind::Skinned, index: skinned_order@[k - 1] }));
        }
    }
    proof {
        assert(static_order@.subrange(0, static_order@.len() as int) =~= static_order@);
        assert(skinned_order@.subrange(0, skinned_order@.len() as int) =~= skinned_order@);
        assert(refs@ =~= dirty_refs(static_order@, skinned_order@));
    }
    apply_reverse_index_delta(cached, &refs, false);
    let ghost removed = *cached;
    refresh_records_at(&mut cached.static_renderers, &static_order, id, RenderWorldRendererKind::Static, scene_space.static_rows.as_slice());
    refresh_records_at(&mut cached.skinned_renderers, &skinned_order, id, RenderWorldRendererKind::Skinned, scene_space.skinned_rows.as_slice());
    let ghost refreshed = *cached;
    apply_reverse_index_delta(cached, &refs, true);
    let static_templates = template_count_at(&cached.static_renderers, &static_order);
    let skinned_templates = template_count_at(&cached.skinned_renderers, &skinned_order);
    proof {
        lemma_refs_pushed_tables(ref_index_contents(removed.mesh_asset_index), refreshed, *cached, refs@, true, refs@.len() as int);
        lemma_refs_pushed_tables(ref_index_contents(removed.node_index), refreshed, *cached, refs@, false, refs@.len() as int);
        assert(renderer_set_refreshed(*old(cached), *cached, static_order@, skinned_order@, *scene_space, id));
    }
    RefreshOutcome {
        renderer_count,
        template_count: static_templates.saturating_add(skinned_templates),
        full_space_count: 0,
        spatial_refit_count: 0,
    }
}


/// Recording references depends only on the record tables of the space.
proof fn lemma_refs_pushed_tables(index: Map<i32, Seq<RenderWorldRendererRef>>, a: RenderWorldSpace, b: RenderWorldSpace, refs: Seq<RenderWorldRendererRef>, by_mesh: bool, k: int)
    requires
        a.static_renderers@ == b.static_renderers@,
        a.skinned_renderers@ == b.skinned_renderers@,
    ensures
        refs_pushed(index, a, refs, by_mesh, k) == refs_pushed(index, b, refs, by_mesh, k),
    decreases k,
{
    if k > 0 {
        lemma_refs_pushed_tables(index, a, b, refs, by_mesh, k - 1);
    }
}


/// The zero outcome.
pub open spec fn no_outcome() -> RefreshOutcome {
    RefreshOutcome { renderer_count: 0, template_count: 0, full_space_count: 0, spatial_refit_count: 0 }
}

/// `post` (with `outcome`) is the partial refresh of `prior` for the dirty rows `static_dirty`
/// and `skinned_dirty`: a space missing from the scene, or inactive, only becomes inactive; an
/// active one has its tables resized to the scene tables, then the dirty rows are refreshed in
/// some processing order (each row once).
pub open spec fn renderer_work_done(
    prior: RenderWorldSpace,
    post: RenderWorldSpace,
    static_dirty: Set<usize>,
    skinned_dirty: Set<usize>,
    scene_space: Option<SceneSpaceRenderers>,
    id: RenderSpaceId,
    outcome: RefreshOutcome,
) -> bool {
    if scene_space is None || !scene_space.unwrap().active {
        post == (RenderWorldSpace { active: false, ..prior }) && outcome == no_outcome()
    } else {
        exists|resized: RenderWorldSpace, static_order: Seq<usize>, skinned_order: Seq<usize>| {
            &&& resized.active
            &&& resized_records(prior.static_renderers@, resized.static_renderers@, scene_space.unwrap().static_rows@.len() as int)
            &&& resized_records(prior.skinned_renderers@, resized.skinned_renderers@, scene_space.unwrap().skinned_rows@.len() as int)
            &&& resized.mesh_asset_index == prior.mesh_asset_index
            &&& resized.node_index == prior.node_index
            &&& static_order.to_set() == static_dirty
            &&& static_order.no_duplicates()
            &&& skinned_order.to_set() == skinned_dirty
            &&& skinned_order.no_duplicates()
            &&& #[trigger] renderer_set_refreshed(resized, post, static_order, skinned_order, scene_space.unwrap(), id)
            &&& outcome == (RefreshOutcome {
                renderer_count: sat_sum(static_dirty.len() as int, skinned_dirty.len() as int) as usize,
                template_count: sat_sum(
                    refreshed_templates(post.static_renderers@, static_order, static_order.len() as int),
                    refreshed_templates(post.skinned_renderers@, skinned_order, skinned_order.len() as int),
                ) as usize,
                full_space_count: 0,
                spatial_refit_count: 0,
            })
        }
    }
}

/// Refreshes one retained space for a partial renderer dirty set: a space missing from the
/// scene becomes inactive; an active one has its tables resized to the scene tables before the
/// dirty rows are refreshed.
pub fn refresh_dirty_renderer_work(cached: &mut RenderWorldSpace, dirty_set: &DirtyRendererSet, scene_space: Option<&SceneSpaceRenderers>, id: RenderSpaceId) -> (outcome: RefreshOutcome)
    ensures
        renderer_work_done(
            *old(cached),
            *final(cached),
            index_set_contents(dirty_set.static_indices),
            index_set_contents(dirty_set.skinned_indices),
            match scene_space { Some(s) => Some(*s), None => None },
            id,
            outcome,
        ),
{
    let space = match scene_space {
        None => {
            cached.active = false;
            return RefreshOutcome { renderer_count: 0, template_count: 0, full_space_count: 0, spatial_refit_count: 0 };
        },
        Some(s) => s,
    };
    cached.active = space.active;
    if !cached.active {
        return RefreshOutcome { renderer_count: 0, template_count: 0, full_space_count: 0, spatial_refit_count: 0 };
    }
    resize_records(&mut cached.static_renderers, space.static_rows.len());
    resize_records(&mut cached.skinned_renderers, space.skinned_rows.len());
    refresh_renderer_set(cached, dirty_set, space, id)
}

/// Bounds refresh of one retained space for a bounds-only dirty set: a space missing from the
/// scene, or inactive, becomes inactive with nothing refreshed; otherwise every dirty row is
/// counted as refreshed (the float bounds themselves are recomputed by the caller).
pub fn refresh_dirty_bounds_work(cached: &mut RenderWorldSpace, dirty_set: &DirtyRendererSet, scene_space: Option<&SceneSpaceRenderers>) -> (outcome: RefreshOutcome)
    ensures
        *final(cached) == (RenderWorldSpace { active: scene_space is Some && scene_space.unwrap().active, ..*old(cached) }),
        scene_space is Some && scene_space.unwrap().active ==> outcome == (RefreshOutcome {
            renderer_count: sat_sum(index_set_contents(dirty_set.static_indices).len() as int, index_set_contents(dirty_set.skinned_indices).len() as int) as usize,
            ..no_outcome()
        }),
        !(scene_space is Some && scene_space.unwrap().active) ==> outcome == no_outcome(),
{
    let space = match scene_space {
        None => {
            cached.active = false;
            return RefreshOutcome { renderer_count: 0, template_count: 0, full_space_count: 0, spatial_refit_count: 0 };
        },
        Some(s) => s,
    };
    cached.active = space.active;
    if !cached.active {
        return RefreshOutcome { renderer_count: 0, template_count: 0, full_space_count: 0, spatial_refit_count: 0 };
    }
    RefreshOutcome { renderer_count: dirty_set.len(), template_count: 0, full_space_count: 0, spatial_refit_count: 0 }
}

} // verus!
