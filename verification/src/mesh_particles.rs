//! Expansion of one mesh-particle renderer: the renderer's source mesh is drawn once per point of
//! its point render buffer and per active submesh, point-major. The per-point model matrix,
//! color and frame index are floating-point data that the caller pairs with the rows in order.
use vstd::prelude::*;

use crate::prepared::FramePreparedDraw;
use crate::shared::{LayerType, MeshRendererInstanceId, RenderSpaceId, ShadowCastMode};

verus! {

/// Kind tag of mesh-particle rows inside generated renderer identities.
pub const MESH_PARTICLE_KIND_TAG: u64 = 3;

/// The scene fields of a mesh-particle renderer row that expansion reads.
#[derive(Clone, Copy, Debug, Default, PartialEq, Eq, Structural)]
pub struct MeshRenderBufferRenderer {
    /// Scene node id, or negative when detached.
    pub node_id: i32,
    /// Source mesh asset id, or negative when unset.
    pub mesh_asset_id: i32,
    /// Material asset id, or negative when unset.
    pub material_asset_id: i32,
    /// Point render buffer asset the particles come from.
    pub point_render_buffer_asset_id: i32,
}

/// What expanding a mesh-particle renderer reads of the resident assets and the scene: present
/// only when the point buffer and the source mesh are resident and the renderer's node has a
/// world matrix for the render context.
#[derive(Clone, Debug)]
pub struct MeshParticleExpansion {
    /// Number of points in the point render buffer.
    pub point_count: usize,
    /// Submesh index ranges `(first_index, index_count)` of the source mesh.
    pub submeshes: Vec<(u32, u32)>,
    /// Special layer of the renderer's scene node, if any.
    pub special_layer: Option<LayerType>,
}

/// Generated identity of the particle at `point_index` of mesh-particle renderer
/// `renderable_index`: the generated bit, the mesh-particle kind tag, the renderer index and the
/// point index packed into one word.
pub open spec fn spec_mesh_particle_instance_id(renderable_index: usize, point_index: usize) -> u64 {
    0x8000_0000_0000_0000u64 | (MESH_PARTICLE_KIND_TAG << 48u64) | ((renderable_index as u64) << 24u64) | (point_index as u64)
}

/// Returns a stable renderer-local identity for one mesh-particle instance.
pub fn mesh_particle_renderer_instance_id(renderable_index: usize, point_index: usize) -> (r: MeshRendererInstanceId)
    ensures
        r.0 == spec_mesh_particle_instance_id(renderable_index, point_index),
{
    MeshRendererInstanceId(
        0x8000_0000_0000_0000u64 | (MESH_PARTICLE_KIND_TAG << 48u64) | ((renderable_index as u64) << 24u64) | (point_index as u64),
    )
}

/// The row drawing submesh `s` at point `p`.
pub open spec fn particle_row(
    space_id: RenderSpaceId,
    renderable_index: usize,
    renderer: MeshRenderBufferRenderer,
    e: MeshParticleExpansion,
    p: int,
    s: int,
) -> FramePreparedDraw {
    FramePreparedDraw {
        space_id,
        renderable_index,
        instance_id: MeshRendererInstanceId(spec_mesh_particle_instance_id(renderable_index, p as usize)),
        renderer_ordinal: 0,
        node_id: renderer.node_id,
        mesh_asset_id: renderer.mesh_asset_id,
        is_overlay: e.special_layer == Some(LayerType::Overlay),
        is_hidden: e.special_layer == Some(LayerType::Hidden),
        sorting_order: 0,
        shadow_cast_mode: ShadowCastMode::Off,
        skinned: false,
        world_space_deformed: false,
        blendshape_deformed: false,
        tangent_blendshape_deform_active: false,
        slot_index: s as usize,
        material_stack_order: None,
        first_index: e.submeshes@[s].0,
        index_count: e.submeshes@[s].1,
        material_asset_id: renderer.material_asset_id,
        property_block_id: None,
    }
}

/// Rows of point `p` for the first `k` submeshes; submeshes with no indices draw nothing.
pub open spec fn point_rows(
    space_id: RenderSpaceId,
    renderable_index: usize,
    renderer: MeshRenderBufferRenderer,
    e: MeshParticleExpansion,
    p: int,
    k: int,
) -> Seq<FramePreparedDraw>
    decreases k,
{
    if k <= 0 {
        Seq::empty()
    } else {
        let prev = point_rows(space_id, renderable_index, renderer, e, p, k - 1);
        if e.submeshes@[k - 1].1 > 0 {
            prev.push(particle_row(space_id, renderable_index, renderer, e, p, k - 1))
        } else {
            prev
        }
    }
}

/// Rows of the first `n` points, point-major.
pub open spec fn point_major_rows(
    space_id: RenderSpaceId,
    renderable_index: usize,
    renderer: MeshRenderBufferRenderer,
    e: MeshParticleExpansion,
    n: int,
) -> Seq<FramePreparedDraw>
    decreases n,
{
    if n <= 0 {
        Seq::empty()
    } else {
        point_major_rows(space_id, renderable_index, renderer, e, n - 1)
            + point_rows(space_id, renderable_index, renderer, e, n - 1, e.submeshes@.len() as int)
    }
}

/// At least one submesh has indices to draw.
pub open spec fn has_active_submesh(submeshes: Seq<(u32, u32)>) -> bool {
    exists|s: int| 0 <= s < submeshes.len() && #[trigger] submeshes[s].1 > 0
}

/// The expansion guards: node, material and mesh are set, the assets are present, the mesh has
/// submeshes of which one is active, and the buffer has points.
pub open spec fn mesh_particles_expand(renderer: MeshRenderBufferRenderer, e: Option<MeshParticleExpansion>) -> bool {
    &&& renderer.node_id >= 0
    &&& renderer.material_asset_id >= 0
    &&& renderer.mesh_asset_id >= 0
    &&& e is Some
    &&& e.unwrap().submeshes@.len() > 0
    &&& e.unwrap().point_count > 0
    &&& has_active_submesh(e.unwrap().submeshes@)
}

/// Rows a mesh-particle renderer contributes: its point-major rows when it passes the guards.
pub open spec fn mesh_particle_rows(
    space_id: RenderSpaceId,
    renderable_index: usize,
    renderer: MeshRenderBufferRenderer,
    e: Option<MeshParticleExpansion>,
) -> Seq<FramePreparedDraw> {
    if mesh_particles_expand(renderer, e) {
        point_major_rows(space_id, renderable_index, renderer, e.unwrap(), e.unwrap().point_count as int)
    } else {
        Seq::empty()
    }
}

/// Number of submeshes among the first `k` that have indices to draw.
pub open spec fn active_submesh_count(submeshes: Seq<(u32, u32)>, k: int) -> nat
    decreases k,
{
    if k <= 0 {
        0
    } else {
        active_submesh_count(submeshes, k - 1) + if submeshes[k - 1].1 > 0 { 1nat } else { 0nat }
    }
}

/// What every mesh-particle row of a renderer carries: the renderer's node, mesh and material, the
/// node's special layer as its overlay and hidden flags, no shadows, no stacking and no property
/// block, and one active submesh of the source mesh.
pub open spec fn row_draws_particle_submesh(
    space_id: RenderSpaceId,
    renderable_index: usize,
    renderer: MeshRenderBufferRenderer,
    e: MeshParticleExpansion,
    r: FramePreparedDraw,
) -> bool {
    let s = r.slot_index as int;
    &&& r.is_hidden == (e.special_layer == Some(LayerType::Hidden))
    &&& r.is_overlay == (e.special_layer == Some(LayerType::Overlay))
    &&& r.space_id == space_id
    &&& r.renderable_index == renderable_index
    &&& r.node_id == renderer.node_id
    &&& r.mesh_asset_id == renderer.mesh_asset_id
    &&& r.material_asset_id == renderer.material_asset_id
    &&& r.shadow_cast_mode == ShadowCastMode::Off
    &&& !r.skinned
    &&& r.material_stack_order is None
    &&& r.property_block_id is None
    &&& 0 <= s < e.submeshes@.len()
    &&& (r.first_index, r.index_count) == e.submeshes@[s]
    &&& r.index_count > 0
}

/// The rows of one point all carry that point's generated identity and draw its active submeshes.
proof fn lemma_point_rows_each(
    space_id: RenderSpaceId,
    renderable_index: usize,
    renderer: MeshRenderBufferRenderer,
    e: MeshParticleExpansion,
    p: int,
    k: int,
)
    requires
        0 <= k <= e.submeshes@.len() <= usize::MAX,
        0 <= p <= usize::MAX,
    ensures
        point_rows(space_id, renderable_index, renderer, e, p, k).len() == active_submesh_count(e.submeshes@, k),
        forall|j: int| 0 <= j < point_rows(space_id, renderable_index, renderer, e, p, k).len() ==> {
            let r = #[trigger] point_rows(space_id, renderable_index, renderer, e, p, k)[j];
            &&& row_draws_particle_submesh(space_id, renderable_index, renderer, e, r)
            &&& r.instance_id.0 == (0x8000_0000_0000_0000u64 | (3u64 << 48u64) | ((renderable_index as u64) << 24u64) | (p as u64))
        },
    decreases k,
{
    if k > 0 {
        lemma_point_rows_each(space_id, renderable_index, renderer, e, p, k - 1);
        let prev = point_rows(space_id, renderable_index, renderer, e, p, k - 1);
        let rows = point_rows(space_id, renderable_index, renderer, e, p, k);
        if e.submeshes@[k - 1].1 > 0 {
            let row = particle_row(space_id, renderable_index, renderer, e, p, k - 1);
            assert(rows == prev.push(row));
            assert forall|j: int| 0 <= j < rows.len() implies {
                let r = #[trigger] rows[j];
                &&& row_draws_particle_submesh(space_id, renderable_index, renderer, e, r)
                &&& r.instance_id.0 == (0x8000_0000_0000_0000u64 | (3u64 << 48u64) | ((renderable_index as u64) << 24u64) | (p as u64))
            } by {
                if j < prev.len() {
                    assert(rows[j] == prev[j]);
                } else {
                    assert(rows[j] == row);
                }
            }
        } else {
            assert(rows == prev);
        }
    }
}

/// The point-major rows of the first `n` points: one row per point and active submesh, each
/// carrying the renderer's fields and layer flags.
proof fn lemma_point_major_rows_each(
    space_id: RenderSpaceId,
    renderable_index: usize,
    renderer: MeshRenderBufferRenderer,
    e: MeshParticleExpansion,
    n: int,
)
    requires
        0 <= n <= usize::MAX + 1,
        e.submeshes@.len() <= usize::MAX,
    ensures
        point_major_rows(space_id, renderable_index, renderer, e, n).len()
            == n * active_submesh_count(e.submeshes@, e.submeshes@.len() as int),
        forall|j: int| 0 <= j < point_major_rows(space_id, renderable_index, renderer, e, n).len()
            ==> row_draws_particle_submesh(space_id, renderable_index, renderer, e, #[trigger] point_major_rows(space_id, renderable_index, renderer, e, n)[j]),
    decreases n,
{
    if n > 0 {
        lemma_point_major_rows_each(space_id, renderable_index, renderer, e, n - 1);
        lemma_point_rows_each(space_id, renderable_index, renderer, e, n - 1, e.submeshes@.len() as int);
        let prev = point_major_rows(space_id, renderable_index, renderer, e, n - 1);
        let cur = point_rows(space_id, renderable_index, renderer, e, n - 1, e.submeshes@.len() as int);
        let rows = point_major_rows(space_id, renderable_index, renderer, e, n);
        assert(rows == prev + cur);
        let c = active_submesh_count(e.submeshes@, e.submeshes@.len() as int);
        assert((n - 1) * c + c == n * c) by (nonlinear_arith);
        assert forall|j: int| 0 <= j < rows.len()
            implies row_draws_particle_submesh(space_id, renderable_index, renderer, e, #[trigger] rows[j]) by {
            if j < prev.len() {
                assert(rows[j] == prev[j]);
            } else {
                assert(rows[j] == cur[j - prev.len()]);
            }
        }
    }
}

/// A mesh-particle renderer that expands draws its source mesh once per point and active submesh:
/// every row carries the renderer's node, mesh and material, and is hidden or overlay exactly when
/// the renderer's node sits on the hidden or overlay layer; a renderer that fails a guard draws
/// nothing.
pub proof fn lemma_mesh_particle_rows_law(
    space_id: RenderSpaceId,
    renderable_index: usize,
    renderer: MeshRenderBufferRenderer,
    e: Option<MeshParticleExpansion>,
)
    requires
        e matches Some(x) ==> x.submeshes@.len() <= usize::MAX,
    ensures
        mesh_particle_rows(space_id, renderable_index, renderer, e).len() == if mesh_particles_expand(renderer, e) {
            e.unwrap().point_count * active_submesh_count(e.unwrap().submeshes@, e.unwrap().submeshes@.len() as int)
        } else {
            0
        },
        forall|j: int| 0 <= j < mesh_particle_rows(space_id, renderable_index, renderer, e).len() ==> {
            let r = #[trigger] mesh_particle_rows(space_id, renderable_index, renderer, e)[j];
            let x = e.unwrap();
            &&& e is Some
            &&& r.is_hidden == (x.special_layer == Some(LayerType::Hidden))
            &&& r.is_overlay == (x.special_layer == Some(LayerType::Overlay))
            &&& r.node_id == renderer.node_id
            &&& r.mesh_asset_id == renderer.mesh_asset_id
            &&& r.material_asset_id == renderer.material_asset_id
            &&& r.material_asset_id >= 0
            &&& r.space_id == space_id
            &&& r.renderable_index == renderable_index
            &&& 0 <= r.slot_index < x.submeshes@.len()
            &&& (r.first_index, r.index_count) == x.submeshes@[r.slot_index as int]
            &&& r.index_count > 0
        },
{
    if mesh_particles_expand(renderer, e) {
        let x = e.unwrap();
        lemma_point_major_rows_each(space_id, renderable_index, renderer, x, x.point_count as int);
    }
}

/// Whether any submesh has indices to draw.
fn any_active_submesh(submeshes: &[(u32, u32)]) -> (r: bool)
    ensures
        r == has_active_submesh(submeshes@),
{
    let mut s: usize = 0;
    while s < submeshes.len()
        invariant
            s <= submeshes@.len(),
            forall|j: int| 0 <= j < s ==> #[trigger] submeshes@[j].1 == 0,
        decreases submeshes@.len() - s,
    {
        if submeshes[s].1 > 0 {
            assert(submeshes@[s as int].1 > 0);
            return true;
        }
        s += 1;
    }
    false
}

/// Appends the rows of point `p`, one per active submesh.
fn append_point_rows(
    out: &mut Vec<FramePreparedDraw>,
    space_id: RenderSpaceId,
    renderable_index: usize,
    renderer: &MeshRenderBufferRenderer,
    e: &MeshParticleExpansion,
    p: usize,
)
    ensures
        final(out)@ == old(out)@ + point_rows(space_id, renderable_index, *renderer, *e, p as int, e.submeshes@.len() as int),
        forall|j: int| old(out)@.len() <= j < final(out)@.len() ==> {
            let r = #[trigger] final(out)@[j];
            &&& row_draws_particle_submesh(space_id, renderable_index, *renderer, *e, r)
            &&& r.instance_id.0 == (0x8000_0000_0000_0000u64 | (3u64 << 48u64) | ((renderable_index as u64) << 24u64) | (p as u64))
        },
{
    let ghost start = out@;
    let is_overlay = match e.special_layer {
        Some(LayerType::Overlay) => true,
        _ => false,
    };
    let is_hidden = match e.special_layer {
        Some(LayerType::Hidden) => true,
        _ => false,
    };
    let instance_id = mesh_particle_renderer_instance_id(renderable_index, p);
    let mut s: usize = 0;
    proof {
        assert(start + Seq::<FramePreparedDraw>::empty() =~= start);
    }
    while s < e.submeshes.len()
        invariant
            s <= e.submeshes@.len(),
            out@ == start + point_rows(space_id, renderable_index, *renderer, *e, p as int, s as int),
            is_overlay == (e.special_layer == Some(LayerType::Overlay)),
            is_hidden == (e.special_layer == Some(LayerType::Hidden)),
            instance_id.0 == spec_mesh_particle_instance_id(renderable_index, p),
        decreases e.submeshes@.len() - s,
    {
        let (first_index, index_count) = e.submeshes[s];
        if index_count > 0 {
            let row = FramePreparedDraw {
                space_id,
                renderable_index,
                instance_id,
                renderer_ordinal: 0,
                node_id: renderer.node_id,
                mesh_asset_id: renderer.mesh_asset_id,
                is_overlay,
                is_hidden,
                sorting_order: 0,
                shadow_cast_mode: ShadowCastMode::Off,
                skinned: false,
                world_space_deformed: false,
                blendshape_deformed: false,
                tangent_blendshape_deform_active: false,
                slot_index: s,
                material_stack_order: None,
                first_index,
                index_count,
                material_asset_id: renderer.material_asset_id,
                property_block_id: None,
            };
            proof {
                assert(row == particle_row(space_id, renderable_index, *renderer, *e, p as int, s as int));
                assert((start + point_rows(space_id, renderable_index, *renderer, *e, p as int, s as int)).push(row)
                    =~= start + point_rows(space_id, renderable_index, *renderer, *e, p as int, s as int).push(row));
            }
            out.push(row);
        }
        s += 1;
    }
    proof {
        lemma_point_rows_each(space_id, renderable_index, *renderer, *e, p as int, e.submeshes@.len() as int);
        assert forall|j: int| start.len() <= j < out@.len() implies {
            let r = #[trigger] out@[j];
            &&& row_draws_particle_submesh(space_id, renderable_index, *renderer, *e, r)
            &&& r.instance_id.0 == (0x8000_0000_0000_0000u64 | (3u64 << 48u64) | ((renderable_index as u64) << 24u64) | (p as u64))
        } by {
            assert(out@[j] == point_rows(space_id, renderable_index, *renderer, *e, p as int, e.submeshes@.len() as int)[j - start.len()]);
        }
    }
}

/// Expands one mesh-particle renderer into one source-mesh draw per point and active submesh,
/// appended to `out` point-major; a renderer that fails a guard appends nothing.
pub fn expand_mesh_render_buffer_renderer(
    out: &mut Vec<FramePreparedDraw>,
    space_id: RenderSpaceId,
    renderable_index: usize,
    renderer: &MeshRenderBufferRenderer,
    expansion: Option<&MeshParticleExpansion>,
)
    ensures
        final(out)@ == old(out)@ + mesh_particle_rows(
            space_id,
            renderable_index,
            *renderer,
            match expansion {
                Some(e) => Some(*e),
                None => None,
            },
        ),
        forall|j: int| old(out)@.len() <= j < final(out)@.len() ==> expansion is Some && row_draws_particle_submesh(
            space_id,
            renderable_index,
            *renderer,
            *expansion.unwrap(),
            #[trigger] final(out)@[j],
        ),
{
    let ghost start = out@;
    proof {
        assert(start + Seq::<FramePreparedDraw>::empty() =~= start);
    }
    if renderer.node_id < 0 || renderer.material_asset_id < 0 || renderer.mesh_asset_id < 0 {
        return;
    }
    let e = match expansion {
        Some(e) => e,
        None => return,
    };
    if e.submeshes.len() == 0 || e.point_count == 0 {
        return;
    }
    if !any_active_submesh(e.submeshes.as_slice()) {
        return;
    }
    let mut p: usize = 0;
    while p < e.point_count
        invariant
            p <= e.point_count,
            out@ == start + point_major_rows(space_id, renderable_index, *renderer, *e, p as int),
            forall|j: int| start.len() <= j < out@.len() ==> row_draws_particle_submesh(
                space_id,
                renderable_index,
                *renderer,
                *e,
                #[trigger] out@[j],
            ),
        decreases e.point_count - p,
    {
        let ghost before = out@;
        append_point_rows(out, space_id, renderable_index, renderer, e, p);
        proof {
            assert(out@ =~= start + point_major_rows(space_id, renderable_index, *renderer, *e, p + 1));
        }
        p += 1;
    }
}

} // verus!
