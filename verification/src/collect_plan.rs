//! Planning of one view's scene-walk draw collection: the renderer slices that collection
//! workers take, and the capacity hint for the collected draw list.
use vstd::prelude::*;

use crate::frame_maintenance::{scene_space, scene_space_of};
use crate::material_slots::{resolved_material_slot_count, spec_resolved_material_slot_count};
use crate::renderer_expand::renderer_expands;
use crate::retained_refresh::{sat_sum, SceneRendererRow, SceneSpaceRenderers};
use crate::shared::{RenderSpaceId, RenderWorldRendererKind};

verus! {

/// Renderers per collection slice of one static or skinned renderer table.
pub const WORLD_MESH_COLLECT_CHUNK_SIZE: usize = 32;

/// One collection slice: a renderer index range of one table of one render space.
#[derive(Clone, Copy, Debug, PartialEq, Eq, Structural)]
pub struct WorldMeshChunkSpec {
    /// Render space containing the slice.
    pub space_id: RenderSpaceId,
    /// Static or skinned table selection.
    pub kind: RenderWorldRendererKind,
    /// First renderer index of the slice.
    pub start: usize,
    /// One past the last renderer index of the slice.
    pub end: usize,
}

/// Slices `start..n` of one table, in order, each `WORLD_MESH_COLLECT_CHUNK_SIZE` renderers
/// long but the last.
pub open spec fn table_chunks(space_id: RenderSpaceId, kind: RenderWorldRendererKind, n: int, start: int) -> Seq<WorldMeshChunkSpec>
    decreases n - start,
{
    if start >= n || start < 0 {
        Seq::empty()
    } else {
        let end = if n - start > WORLD_MESH_COLLECT_CHUNK_SIZE { start + WORLD_MESH_COLLECT_CHUNK_SIZE } else { n };
        seq![WorldMeshChunkSpec { space_id, kind, start: start as usize, end: end as usize }]
            + table_chunks(space_id, kind, n, end)
    }
}

/// Slices of one scene space: none when it is missing or inactive, else its static table's
/// slices followed by its skinned table's.
pub open spec fn space_chunks(space_id: RenderSpaceId, space: Option<SceneSpaceRenderers>) -> Seq<WorldMeshChunkSpec> {
    match space {
        Some(s) => if s.active {
            table_chunks(space_id, RenderWorldRendererKind::Static, s.static_rows@.len() as int, 0)
                + table_chunks(space_id, RenderWorldRendererKind::Skinned, s.skinned_rows@.len() as int, 0)
        } else {
            Seq::empty()
        },
        None => Seq::empty(),
    }
}

/// Slices of the first `k` listed spaces, in list order.
pub open spec fn planned_chunks(space_ids: Seq<RenderSpaceId>, scene: Seq<SceneSpaceRenderers>, k: int) -> Seq<WorldMeshChunkSpec>
    decreases k,
{
    if k <= 0 {
        Seq::empty()
    } else {
        planned_chunks(space_ids, scene, k - 1) + space_chunks(space_ids[k - 1], scene_space_of(scene, space_ids[k - 1].0))
    }
}

/// Appends the slices of `n` renderers of one table.
fn push_table_chunks(chunks: &mut Vec<WorldMeshChunkSpec>, space_id: RenderSpaceId, kind: RenderWorldRendererKind, n: usize)
    ensures
        final(chunks)@ == old(chunks)@ + table_chunks(space_id, kind, n as int, 0),
{
    let ghost base = chunks@;
    let mut start: usize = 0;
    while start < n
        invariant
            start <= n,
            chunks@ + table_chunks(space_id, kind, n as int, start as int) == base + table_chunks(space_id, kind, n as int, 0),
        decreases n - start,
    {
        let end: usize = if n - start > WORLD_MESH_COLLECT_CHUNK_SIZE { start + WORLD_MESH_COLLECT_CHUNK_SIZE } else { n };
        let ghost before = chunks@;
        chunks.push(WorldMeshChunkSpec { space_id, kind, start, end });
        assert(table_chunks(space_id, kind, n as int, start as int)
            == seq![WorldMeshChunkSpec { space_id, kind, start, end }] + table_chunks(space_id, kind, n as int, end as int));
        assert(chunks@ + table_chunks(space_id, kind, n as int, end as int)
            =~= before + table_chunks(space_id, kind, n as int, start as int));
        start = end;
    }
    assert(chunks@ + table_chunks(space_id, kind, n as int, start as int) =~= chunks@);
}

/// Builds the collection slices of the listed spaces: for each space the scene has and that is
/// active, its static renderers then its skinned renderers, cut into slices of
/// `WORLD_MESH_COLLECT_CHUNK_SIZE`.
pub fn build_chunk_specs(space_ids: &[RenderSpaceId], scene: &[SceneSpaceRenderers]) -> (chunks: Vec<WorldMeshChunkSpec>)
    ensures
        chunks@ == planned_chunks(space_ids@, scene@, space_ids@.len() as int),
{
    let mut chunks: Vec<WorldMeshChunkSpec> = Vec::new();
    let mut i: usize = 0;
    while i < space_ids.len()
        invariant
            i <= space_ids@.len(),
            chunks@ == planned_chunks(space_ids@, scene@, i as int),
        decreases space_ids@.len() - i,
    {
        let space_id = space_ids[i];
        let ghost before = chunks@;
        match scene_space(scene, space_id.0) {
            Some(space) => {
                if space.active {
                    push_table_chunks(&mut chunks, space_id, RenderWorldRendererKind::Static, space.static_rows.len());
                    push_table_chunks(&mut chunks, space_id, RenderWorldRendererKind::Skinned, space.skinned_rows.len());
                    assert(chunks@ =~= before + space_chunks(space_id, scene_space_of(scene@, space_id.0)));
                } else {
                    assert(chunks@ =~= before + space_chunks(space_id, scene_space_of(scene@, space_id.0)));
                }
            },
            None => {
                assert(chunks@ =~= before + space_chunks(space_id, scene_space_of(scene@, space_id.0)));
            },
        }
        i += 1;
    }
    chunks
}

/// Draw slots a renderer row can contribute: its resolved material slots when it draws visible
/// color, has a mesh and a node, and its mesh is resident with submeshes; else none.
pub open spec fn row_slot_hint(row: SceneRendererRow) -> int {
    if renderer_expands(row.renderer, row.expansion) {
        spec_resolved_material_slot_count(row.renderer)
    } else {
        0
    }
}

/// `acc` plus the slot hints of `rows[0..k)`, each addition saturating at `usize::MAX`.
pub open spec fn rows_slot_hint(acc: int, rows: Seq<SceneRendererRow>, k: int) -> int
    decreases k,
{
    if k <= 0 {
        acc
    } else {
        sat_sum(rows_slot_hint(acc, rows, k - 1), row_slot_hint(rows[k - 1]))
    }
}

/// `acc` plus a space's slot hints (static table then skinned table) when it exists and is active.
pub open spec fn space_slot_hint(acc: int, space: Option<SceneSpaceRenderers>) -> int {
    match space {
        Some(s) => if s.active {
            rows_slot_hint(
                rows_slot_hint(acc, s.static_rows@, s.static_rows@.len() as int),
                s.skinned_rows@,
                s.skinned_rows@.len() as int,
            )
        } else {
            acc
        },
        None => acc,
    }
}

/// Saturating slot hint of the first `k` listed spaces.
pub open spec fn planned_slot_hint(space_ids: Seq<RenderSpaceId>, scene: Seq<SceneSpaceRenderers>, k: int) -> int
    decreases k,
{
    if k <= 0 {
        0
    } else {
        space_slot_hint(planned_slot_hint(space_ids, scene, k - 1), scene_space_of(scene, space_ids[k - 1].0))
    }
}

/// Whether a row passes the expansion guards.
fn row_expands(row: &SceneRendererRow) -> (r: bool)
    ensures
        r == renderer_expands(row.renderer, row.expansion),
{
    if !row.renderer.emits_visible_color_draws() || row.renderer.mesh_asset_id < 0 || row.renderer.node_id < 0 {
        return false;
    }
    match &row.expansion {
        Some(e) => e.submeshes.len() > 0,
        None => false,
    }
}

/// Adds the slot hints of `rows` to `acc`, saturating.
fn add_rows_slot_hint(acc: usize, rows: &[SceneRendererRow]) -> (r: usize)
    ensures
        r == rows_slot_hint(acc as int, rows@, rows@.len() as int),
{
    let mut total = acc;
    let mut i: usize = 0;
    while i < rows.len()
        invariant
            i <= rows@.len(),
            total == rows_slot_hint(acc as int, rows@, i as int),
        decreases rows@.len() - i,
    {
        if row_expands(&rows[i]) {
            total = total.saturating_add(resolved_material_slot_count(&rows[i].renderer));
        } else {
            total = total.saturating_add(0);
        }
        i += 1;
    }
    total
}

/// Upper bound on the draw slots the listed active spaces expand into (a capacity hint for the
/// collected draw list), saturating at `usize::MAX`.
pub fn estimate_active_renderable_count(space_ids: &[RenderSpaceId], scene: &[SceneSpaceRenderers]) -> (r: usize)
    ensures
        r == planned_slot_hint(space_ids@, scene@, space_ids@.len() as int),
{
    let mut cap_hint: usize = 0;
    let mut i: usize = 0;
    while i < space_ids.len()
        invariant
            i <= space_ids@.len(),
            cap_hint == planned_slot_hint(space_ids@, scene@, i as int),
        decreases space_ids@.len() - i,
    {
        match scene_space(scene, space_ids[i].0) {
            Some(space) => {
                if space.active {
                    let with_static = add_rows_slot_hint(cap_hint, space.static_rows.as_slice());
                    cap_hint = add_rows_slot_hint(with_static, space.skinned_rows.as_slice());
                }
            },
            None => {},
        }
        i += 1;
    }
    cap_hint
}

} // verus!
