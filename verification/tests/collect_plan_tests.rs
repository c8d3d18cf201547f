use renderide_prep::collect_plan::{
    build_chunk_specs, estimate_active_renderable_count, WorldMeshChunkSpec, WORLD_MESH_COLLECT_CHUNK_SIZE,
};
use renderide_prep::renderer_expand::RenderableExpansion;
use renderide_prep::retained_refresh::{SceneRendererRow, SceneSpaceRenderers};
use renderide_prep::shared::{
    MeshMaterialSlot, RenderSpaceId, RenderWorldRendererKind, ShadowCastMode, StaticMeshRenderer,
};

fn expansion(submeshes: usize) -> RenderableExpansion {
    RenderableExpansion {
        submeshes: (0..submeshes).map(|i| (i as u32 * 3, 3)).collect(),
        world_space_deformed: false,
        blendshape_deformed: false,
        tangent_blendshape_deform_active: false,
        node_in_overlay_layer: false,
        node_in_hidden_layer: false,
        material_overrides: Vec::new(),
    }
}

fn row(slots: usize, resident: bool) -> SceneRendererRow {
    SceneRendererRow {
        renderer: StaticMeshRenderer {
            node_id: 1,
            mesh_asset_id: 2,
            material_slots: (0..slots)
                .map(|i| MeshMaterialSlot { material_asset_id: i as i32, property_block_id: None })
                .collect(),
            ..Default::default()
        },
        expansion: if resident { Some(expansion(1)) } else { None },
    }
}

fn space(id: i32, active: bool, n_static: usize, n_skinned: usize) -> SceneSpaceRenderers {
    SceneSpaceRenderers {
        id: RenderSpaceId(id),
        active,
        static_rows: (0..n_static).map(|_| row(1, true)).collect(),
        skinned_rows: (0..n_skinned).map(|_| row(1, true)).collect(),
    }
}

#[test]
fn chunk_specs_slice_static_then_skinned_tables_per_active_space() {
    let scene = vec![space(1, true, 70, 5), space(2, false, 10, 0), space(3, true, 0, 32)];
    let ids = [RenderSpaceId(1), RenderSpaceId(2), RenderSpaceId(3), RenderSpaceId(4)];

    let chunks = build_chunk_specs(&ids, &scene);

    let spec = |id: i32, kind: RenderWorldRendererKind, start: usize, end: usize| WorldMeshChunkSpec {
        space_id: RenderSpaceId(id),
        kind,
        start,
        end,
    };
    assert_eq!(WORLD_MESH_COLLECT_CHUNK_SIZE, 32);
    assert_eq!(
        chunks,
        vec![
            spec(1, RenderWorldRendererKind::Static, 0, 32),
            spec(1, RenderWorldRendererKind::Static, 32, 64),
            spec(1, RenderWorldRendererKind::Static, 64, 70),
            spec(1, RenderWorldRendererKind::Skinned, 0, 5),
            spec(3, RenderWorldRendererKind::Skinned, 0, 32),
        ]
    );
}

#[test]
fn chunk_specs_follow_the_listed_space_order() {
    let scene = vec![space(1, true, 1, 0), space(2, true, 1, 0)];

    let chunks = build_chunk_specs(&[RenderSpaceId(2), RenderSpaceId(1)], &scene);

    assert_eq!(chunks.len(), 2);
    assert_eq!(chunks[0].space_id, RenderSpaceId(2));
    assert_eq!(chunks[1].space_id, RenderSpaceId(1));
}

#[test]
fn renderable_estimate_counts_resolved_slots_of_drawable_rows() {
    let mut shadow_only = row(4, true);
    shadow_only.renderer.shadow_cast_mode = ShadowCastMode::ShadowOnly;
    let mut detached = row(4, true);
    detached.renderer.node_id = -1;
    let mut primary_only = row(0, true);
    primary_only.renderer.primary_material_asset_id = Some(9);
    let mut no_submeshes = row(2, true);
    no_submeshes.expansion = Some(expansion(0));
    let scene = vec![
        SceneSpaceRenderers {
            id: RenderSpaceId(1),
            active: true,
            static_rows: vec![row(3, true), shadow_only, detached, row(5, false), primary_only, no_submeshes],
            skinned_rows: vec![row(2, true)],
        },
        space(2, false, 4, 4),
    ];

    let estimate = estimate_active_renderable_count(&[RenderSpaceId(1), RenderSpaceId(2), RenderSpaceId(3)], &scene);

    assert_eq!(estimate, 3 + 1 + 2);
}

#[test]
fn renderable_estimate_is_zero_without_active_spaces() {
    let scene = vec![space(1, false, 3, 3)];
    assert_eq!(estimate_active_renderable_count(&[RenderSpaceId(1)], &scene), 0);
    assert_eq!(estimate_active_renderable_count(&[], &scene), 0);
}
