use renderide_prep::frame_expand::{
    estimated_draw_count, expand_space_into, push_expansion_chunks, renderer_count_for_space, ExpansionChunkSpec,
};
use renderide_prep::prepared_snapshot::FramePreparedRenderables;
use renderide_prep::render_world::{RenderWorld, RenderingContext};
use renderide_prep::retained::RenderWorldSpace;
use renderide_prep::renderer_expand::RenderableExpansion;
use renderide_prep::retained_refresh::{refresh_render_world_space, SceneRendererRow, SceneSpaceRenderers};
use renderide_prep::shared::{
    MeshMaterialSlot, MeshRendererInstanceId, RenderSpaceId, RenderWorldRendererKind, ShadowCastMode, StaticMeshRenderer,
};

fn expansion(submeshes: Vec<(u32, u32)>) -> RenderableExpansion {
    RenderableExpansion {
        submeshes,
        world_space_deformed: false,
        blendshape_deformed: false,
        tangent_blendshape_deform_active: false,
        node_in_overlay_layer: false,
        node_in_hidden_layer: false,
        material_overrides: Vec::new(),
    }
}

fn drawable(instance: u64, mesh_asset_id: i32, materials: &[i32]) -> SceneRendererRow {
    SceneRendererRow {
        renderer: StaticMeshRenderer {
            instance_id: MeshRendererInstanceId(instance),
            node_id: 0,
            mesh_asset_id,
            material_slots: materials
                .iter()
                .map(|&material_asset_id| MeshMaterialSlot { material_asset_id, property_block_id: None })
                .collect(),
            ..Default::default()
        },
        expansion: Some(expansion(vec![(0, 3), (3, 6)])),
    }
}

fn space(id: i32, active: bool, static_rows: Vec<SceneRendererRow>, skinned_rows: Vec<SceneRendererRow>) -> SceneSpaceRenderers {
    SceneSpaceRenderers { id: RenderSpaceId(id), active, static_rows, skinned_rows }
}

fn renderer_with_mode(shadow_cast_mode: ShadowCastMode) -> SceneRendererRow {
    SceneRendererRow { renderer: StaticMeshRenderer { shadow_cast_mode, ..Default::default() }, expansion: None }
}

#[test]
fn build_for_frame_on_empty_scene_is_empty() {
    let prepared = FramePreparedRenderables::build_for_frame(&[], &[], RenderingContext(0));
    assert!(prepared.is_empty());
    assert_eq!(prepared.len(), 0);
}

#[test]
fn build_for_frame_with_empty_active_space_is_empty() {
    let scene = vec![space(1, true, Vec::new(), Vec::new())];
    let prepared = FramePreparedRenderables::build_for_frame(&[RenderSpaceId(1)], &scene, RenderingContext(0));
    assert!(prepared.is_empty());
    assert_eq!(prepared.active_space_ids(), &[RenderSpaceId(1)]);
}

#[test]
fn mesh_material_pairs_empty_scene_yields_nothing() {
    let prepared = FramePreparedRenderables::build_for_frame(&[], &[], RenderingContext(0));
    assert_eq!(prepared.mesh_material_pairs().len(), 0);
}

#[test]
fn estimated_draw_count_includes_static_shadow_only_renderers() {
    let scene = vec![space(
        1,
        true,
        vec![renderer_with_mode(ShadowCastMode::On), renderer_with_mode(ShadowCastMode::ShadowOnly)],
        Vec::new(),
    )];
    assert_eq!(estimated_draw_count(&scene, RenderSpaceId(1)), 4);
}

#[test]
fn estimated_draw_count_includes_skinned_shadow_only_renderers() {
    let scene = vec![space(
        1,
        true,
        Vec::new(),
        vec![renderer_with_mode(ShadowCastMode::DoubleSided), renderer_with_mode(ShadowCastMode::ShadowOnly)],
    )];
    assert_eq!(estimated_draw_count(&scene, RenderSpaceId(1)), 4);
}

#[test]
fn estimated_draw_count_is_zero_for_missing_space() {
    assert_eq!(estimated_draw_count(&[], RenderSpaceId(9)), 0);
}

#[test]
fn renderer_count_covers_active_spaces_only() {
    let scene = vec![
        space(1, true, vec![drawable(1, 5, &[1])], vec![drawable(2, 5, &[1]), drawable(3, 5, &[1])]),
        space(2, false, vec![drawable(4, 5, &[1])], Vec::new()),
    ];
    assert_eq!(renderer_count_for_space(&scene, RenderSpaceId(1)), 3);
    assert_eq!(renderer_count_for_space(&scene, RenderSpaceId(2)), 0);
    assert_eq!(renderer_count_for_space(&scene, RenderSpaceId(3)), 0);
}

#[test]
fn space_expansion_emits_static_rows_before_skinned_rows() {
    let scene_space = space(7, true, vec![drawable(1, 5, &[10, 11])], vec![drawable(2, 6, &[20])]);
    let mut out = Vec::new();

    expand_space_into(&mut out, RenderSpaceId(7), &scene_space);

    assert_eq!(out.len(), 3);
    assert_eq!((out[0].material_asset_id, out[0].skinned, out[0].slot_index), (10, false, 0));
    assert_eq!((out[1].material_asset_id, out[1].skinned, out[1].slot_index), (11, false, 1));
    assert_eq!((out[2].material_asset_id, out[2].skinned, out[2].index_count), (20, true, 3));
    assert!(out.iter().all(|draw| draw.space_id == RenderSpaceId(7)));
}

#[test]
fn build_for_frame_expands_active_spaces_in_scene_order_with_runs() {
    let scene = vec![
        space(1, true, vec![drawable(1, 5, &[10, 11]), drawable(2, 6, &[12])], Vec::new()),
        space(2, false, vec![drawable(3, 7, &[13])], Vec::new()),
        space(3, true, Vec::new(), vec![drawable(4, 8, &[14])]),
    ];
    let ids = [RenderSpaceId(3), RenderSpaceId(2), RenderSpaceId(1)];

    let prepared = FramePreparedRenderables::build_for_frame(&ids, &scene, RenderingContext(1));

    assert_eq!(prepared.render_context(), RenderingContext(1));
    assert_eq!(prepared.active_space_ids(), &[RenderSpaceId(3), RenderSpaceId(1)]);
    assert_eq!(prepared.mesh_material_pairs(), vec![(8, 14), (5, 10), (5, 11), (6, 12)]);
    assert_eq!(prepared.runs().len(), 3);
    assert_eq!(prepared.unique_material_property_pairs(), &[(14, None), (10, None), (11, None), (12, None)]);
    let skinned_ordinal = prepared.draws()[0].renderer_ordinal;
    assert_eq!(skinned_ordinal, 0);
    assert_eq!(prepared.draws()[3].renderer_ordinal, 1);
}

#[test]
fn expansion_chunks_preserve_static_then_skinned_order() {
    let mut specs = Vec::new();
    push_expansion_chunks(&mut specs, RenderWorldRendererKind::Static, 130);
    push_expansion_chunks(&mut specs, RenderWorldRendererKind::Skinned, 70);

    let chunk = |kind, start, end| ExpansionChunkSpec { kind, start, end };
    assert_eq!(specs.len(), 5);
    assert_eq!(specs[0], chunk(RenderWorldRendererKind::Static, 0, 64));
    assert_eq!(specs[1], chunk(RenderWorldRendererKind::Static, 64, 128));
    assert_eq!(specs[2], chunk(RenderWorldRendererKind::Static, 128, 130));
    assert_eq!(specs[3], chunk(RenderWorldRendererKind::Skinned, 0, 64));
    assert_eq!(specs[4], chunk(RenderWorldRendererKind::Skinned, 64, 70));
}

#[test]
fn retained_snapshot_matches_direct_build_of_the_scene() {
    let scene = vec![
        space(3, true, vec![drawable(1, 10, &[100, 101]), drawable(2, 11, &[102])], vec![drawable(3, 12, &[103])]),
        space(4, false, vec![drawable(4, 13, &[104])], Vec::new()),
        space(5, true, vec![drawable(5, 14, &[105, 106, 107])], Vec::new()),
    ];
    let ids: Vec<RenderSpaceId> = scene.iter().map(|s| s.id).collect();
    let mut world = RenderWorld::default();
    for scene_space in &scene {
        let mut cached = RenderWorldSpace::new(scene_space.active);
        refresh_render_world_space(&mut cached, Some(scene_space), scene_space.id);
        world.spaces.insert(scene_space.id.0, cached);
    }

    world.rebuild_prepared_snapshot(&ids, &scene, &[], RenderingContext(1), None);
    let direct = FramePreparedRenderables::build_for_frame(&ids, &scene, RenderingContext(1));

    assert_eq!(world.prepared.active_space_ids(), &[RenderSpaceId(3), RenderSpaceId(5)]);
    assert_eq!(world.prepared.active_space_ids(), direct.active_space_ids());
    assert_eq!(world.prepared.draws(), direct.draws());
    assert_eq!(
        world.prepared.mesh_material_pairs(),
        vec![(10, 100), (10, 101), (11, 102), (12, 103), (14, 105), (14, 106), (14, 107)]
    );
}
