use renderide_prep::mesh_particles::{
    expand_mesh_render_buffer_renderer, mesh_particle_renderer_instance_id, MeshParticleExpansion,
    MeshRenderBufferRenderer,
};
use renderide_prep::prepared::FramePreparedDraw;
use renderide_prep::shared::{LayerType, MeshRendererInstanceId, RenderSpaceId, ShadowCastMode};

fn particle_renderer() -> MeshRenderBufferRenderer {
    MeshRenderBufferRenderer { node_id: 5, mesh_asset_id: 20, material_asset_id: 30, point_render_buffer_asset_id: 40 }
}

fn expansion(point_count: usize, submeshes: Vec<(u32, u32)>) -> MeshParticleExpansion {
    MeshParticleExpansion { point_count, submeshes, special_layer: None }
}

#[test]
fn mesh_particle_instance_ids_pack_kind_renderer_and_point() {
    assert_eq!(mesh_particle_renderer_instance_id(2, 5), MeshRendererInstanceId(0x8003_0000_0200_0005));
    assert_eq!(mesh_particle_renderer_instance_id(0, 0), MeshRendererInstanceId(0x8003_0000_0000_0000));
}

#[test]
fn mesh_particles_expand_point_major_over_active_submeshes() {
    let mut out = Vec::new();
    let e = MeshParticleExpansion { special_layer: Some(LayerType::Overlay), ..expansion(2, vec![(0, 6), (6, 0), (6, 3)]) };
    expand_mesh_render_buffer_renderer(&mut out, RenderSpaceId(7), 1, &particle_renderer(), Some(&e));

    let layout: Vec<(u64, usize, u32, u32)> =
        out.iter().map(|d: &FramePreparedDraw| (d.instance_id.0 & 0xff, d.slot_index, d.first_index, d.index_count)).collect();
    assert_eq!(layout, vec![(0, 0, 0, 6), (0, 2, 6, 3), (1, 0, 0, 6), (1, 2, 6, 3)]);
    let first = out[0];
    assert_eq!(first.instance_id, mesh_particle_renderer_instance_id(1, 0));
    assert_eq!((first.space_id, first.renderable_index, first.node_id), (RenderSpaceId(7), 1, 5));
    assert_eq!((first.mesh_asset_id, first.material_asset_id), (20, 30));
    assert!(first.is_overlay && !first.is_hidden);
    assert_eq!(first.shadow_cast_mode, ShadowCastMode::Off);
    assert_eq!(first.material_stack_order, None);
    assert_eq!(first.property_block_id, None);
}

#[test]
fn mesh_particles_append_after_existing_rows() {
    let mut out = Vec::new();
    expand_mesh_render_buffer_renderer(&mut out, RenderSpaceId(1), 0, &particle_renderer(), Some(&expansion(1, vec![(0, 3)])));
    expand_mesh_render_buffer_renderer(&mut out, RenderSpaceId(1), 3, &particle_renderer(), Some(&expansion(1, vec![(0, 3)])));
    assert_eq!(out.iter().map(|d| d.renderable_index).collect::<Vec<_>>(), vec![0, 3]);
}

#[test]
fn mesh_particle_guards_expand_nothing() {
    let mut out = Vec::new();
    let mut bad = particle_renderer();
    bad.material_asset_id = -1;
    expand_mesh_render_buffer_renderer(&mut out, RenderSpaceId(1), 0, &bad, Some(&expansion(2, vec![(0, 3)])));
    let mut detached = particle_renderer();
    detached.node_id = -1;
    expand_mesh_render_buffer_renderer(&mut out, RenderSpaceId(1), 0, &detached, Some(&expansion(2, vec![(0, 3)])));
    expand_mesh_render_buffer_renderer(&mut out, RenderSpaceId(1), 0, &particle_renderer(), None);
    expand_mesh_render_buffer_renderer(&mut out, RenderSpaceId(1), 0, &particle_renderer(), Some(&expansion(0, vec![(0, 3)])));
    expand_mesh_render_buffer_renderer(&mut out, RenderSpaceId(1), 0, &particle_renderer(), Some(&expansion(2, vec![(0, 0)])));
    expand_mesh_render_buffer_renderer(&mut out, RenderSpaceId(1), 0, &particle_renderer(), Some(&expansion(2, Vec::new())));
    assert!(out.is_empty());
}
