use renderide_prep::draw_queue::{
    draw_candidate_admitted, merge_collected_chunks, queue_capacity_hint, renderer_slot_plan, resolve_queue_space_ids,
    CollectedChunk, SlotDrawPlan,
};
use renderide_prep::hi_z_temporal::{hi_z_snapshot_matches_temporal, HiZCullDims, HiZSnapshotDims};
use renderide_prep::layer_policy::ViewLayerPolicy;
use renderide_prep::material_slots::MaterialStackOrder;
use renderide_prep::prepared::FramePreparedDraw;
use renderide_prep::renderer_expand::RenderableExpansion;
use renderide_prep::retained_refresh::{SceneRendererRow, SceneSpaceRenderers};
use renderide_prep::shared::{
    LayerType, MeshMaterialSlot, MeshRendererInstanceId, RenderSpaceId, ShadowCastMode, StaticMeshRenderer,
};

fn ids(values: &[i32]) -> Vec<RenderSpaceId> {
    values.iter().map(|&v| RenderSpaceId(v)).collect()
}

fn scene_space(id: i32, active: bool, static_rows: Vec<SceneRendererRow>) -> SceneSpaceRenderers {
    SceneSpaceRenderers { id: RenderSpaceId(id), active, static_rows, skinned_rows: Vec::new() }
}

fn renderer(materials: &[i32]) -> StaticMeshRenderer {
    StaticMeshRenderer {
        instance_id: MeshRendererInstanceId(1),
        node_id: 4,
        mesh_asset_id: 9,
        material_slots: materials
            .iter()
            .map(|&material_asset_id| MeshMaterialSlot { material_asset_id, property_block_id: None })
            .collect(),
        ..Default::default()
    }
}

fn resident_row(materials: &[i32]) -> SceneRendererRow {
    SceneRendererRow {
        renderer: renderer(materials),
        expansion: Some(RenderableExpansion {
            submeshes: vec![(0, 3)],
            world_space_deformed: false,
            blendshape_deformed: false,
            tangent_blendshape_deform_active: false,
            node_in_overlay_layer: false,
            node_in_hidden_layer: false,
            material_overrides: Vec::new(),
        }),
    }
}

fn prepared_draw(space: i32) -> FramePreparedDraw {
    FramePreparedDraw {
        space_id: RenderSpaceId(space),
        renderable_index: 0,
        instance_id: MeshRendererInstanceId(0),
        renderer_ordinal: 0,
        node_id: 0,
        mesh_asset_id: 1,
        is_overlay: false,
        is_hidden: false,
        sorting_order: 0,
        shadow_cast_mode: ShadowCastMode::On,
        skinned: false,
        world_space_deformed: false,
        blendshape_deformed: false,
        tangent_blendshape_deform_active: false,
        slot_index: 0,
        material_stack_order: None,
        first_index: 0,
        index_count: 3,
        material_asset_id: 1,
        property_block_id: None,
    }
}

#[test]
fn prepared_space_ids_are_filtered_to_the_scoped_space() {
    let active = ids(&[1, 2, 3]);
    assert_eq!(resolve_queue_space_ids(Some(&active), Some(RenderSpaceId(2)), &[], &[]), ids(&[2]));
    assert_eq!(resolve_queue_space_ids(Some(&active), Some(RenderSpaceId(7)), &[], &[]), ids(&[]));
    assert_eq!(resolve_queue_space_ids(Some(&active), None, &ids(&[9]), &[]), active);
}

#[test]
fn scene_space_ids_keep_only_an_active_scoped_space() {
    let scene = vec![scene_space(1, true, Vec::new()), scene_space(2, false, Vec::new())];
    let scene_ids = ids(&[1, 2]);
    assert_eq!(resolve_queue_space_ids(None, None, &scene_ids, &scene), scene_ids);
    assert_eq!(resolve_queue_space_ids(None, Some(RenderSpaceId(1)), &scene_ids, &scene), ids(&[1]));
    assert_eq!(resolve_queue_space_ids(None, Some(RenderSpaceId(2)), &scene_ids, &scene), ids(&[]));
    assert_eq!(resolve_queue_space_ids(None, Some(RenderSpaceId(5)), &scene_ids, &scene), ids(&[]));
}

#[test]
fn capacity_hint_counts_prepared_rows_or_scene_slots() {
    let draws = vec![prepared_draw(1), prepared_draw(2), prepared_draw(1)];
    assert_eq!(queue_capacity_hint(Some(&draws), Some(RenderSpaceId(1)), &[], &[]), 2);
    assert_eq!(queue_capacity_hint(Some(&draws), None, &[], &[]), 3);
    let scene = vec![scene_space(1, true, vec![resident_row(&[5, 6]), resident_row(&[7])])];
    assert_eq!(queue_capacity_hint(None, None, &ids(&[1]), &scene), 3);
}

#[test]
fn slot_plan_maps_slots_onto_stacked_submeshes() {
    let plan = renderer_slot_plan(
        &renderer(&[10, 11, 12]),
        &[(0, 6), (6, 3)],
        true,
        None,
        ViewLayerPolicy::MainView,
        false,
    );
    let stack = MaterialStackOrder::from_slot_counts(2, 3, 2);
    assert_eq!(stack, Some(MaterialStackOrder { first_stacked_slot_index: 1 }));
    assert_eq!(
        plan,
        vec![
            SlotDrawPlan {
                slot_index: 0,
                slot: MeshMaterialSlot { material_asset_id: 10, property_block_id: None },
                material_stack_order: None,
                first_index: 0,
                index_count: 6,
                is_overlay: false,
            },
            SlotDrawPlan {
                slot_index: 1,
                slot: MeshMaterialSlot { material_asset_id: 11, property_block_id: None },
                material_stack_order: MaterialStackOrder::from_slot_counts(1, 3, 2),
                first_index: 6,
                index_count: 3,
                is_overlay: false,
            },
            SlotDrawPlan {
                slot_index: 2,
                slot: MeshMaterialSlot { material_asset_id: 12, property_block_id: None },
                material_stack_order: stack,
                first_index: 6,
                index_count: 3,
                is_overlay: false,
            },
        ]
    );
}

#[test]
fn slot_plan_falls_back_to_the_primary_material_and_skips_empty_ranges() {
    let mut primary = renderer(&[]);
    primary.primary_material_asset_id = Some(42);
    primary.primary_property_block_id = Some(3);
    let plan = renderer_slot_plan(&primary, &[(0, 3), (3, 0)], true, None, ViewLayerPolicy::MainView, false);
    assert_eq!(plan.len(), 1);
    assert_eq!(plan[0].slot, MeshMaterialSlot { material_asset_id: 42, property_block_id: Some(3) });
    let empty = renderer_slot_plan(&renderer(&[5, 6]), &[(0, 0)], true, None, ViewLayerPolicy::MainView, false);
    assert!(empty.is_empty());
    assert!(renderer_slot_plan(&renderer(&[]), &[(0, 3)], true, None, ViewLayerPolicy::MainView, false).is_empty());
    assert!(renderer_slot_plan(&renderer(&[5]), &[], true, None, ViewLayerPolicy::MainView, false).is_empty());
}

#[test]
fn slot_plan_applies_view_filters_and_layer_policy() {
    let r = renderer(&[5]);
    let overlay = Some(LayerType::Overlay);
    assert!(renderer_slot_plan(&r, &[(0, 3)], false, None, ViewLayerPolicy::MainView, false).is_empty());
    assert!(renderer_slot_plan(&r, &[(0, 3)], true, overlay, ViewLayerPolicy::MainView, false).is_empty());
    let main = renderer_slot_plan(&r, &[(0, 3)], true, overlay, ViewLayerPolicy::MainView, true);
    assert!(main[0].is_overlay);
    let camera = renderer_slot_plan(&r, &[(0, 3)], true, overlay, ViewLayerPolicy::camera(false), true);
    assert!(!camera[0].is_overlay);
    assert!(renderer_slot_plan(&r, &[(0, 3)], true, None, ViewLayerPolicy::DesktopOverlay, false).is_empty());
    let mut detached = r.clone();
    detached.node_id = -1;
    let plan = renderer_slot_plan(&detached, &[(0, 3)], true, Some(LayerType::Hidden), ViewLayerPolicy::MainView, false);
    assert_eq!(plan.len(), 1);
}

#[test]
fn merged_chunks_get_dense_collect_order_and_summed_counters() {
    let chunks = vec![
        CollectedChunk { items: vec!['a', 'b'], draws_pre_cull: 3, draws_culled: 1, draws_hi_z_culled: 0 },
        CollectedChunk { items: Vec::new(), draws_pre_cull: 2, draws_culled: 2, draws_hi_z_culled: 0 },
        CollectedChunk { items: vec!['c'], draws_pre_cull: 4, draws_culled: 1, draws_hi_z_culled: 2 },
    ];
    let queued = merge_collected_chunks(chunks);
    assert_eq!(queued.items.iter().map(|q| q.item).collect::<Vec<_>>(), vec!['a', 'b', 'c']);
    assert_eq!(queued.items.iter().map(|q| q.collect_order).collect::<Vec<_>>(), vec![0, 1, 2]);
    assert_eq!((queued.draws_pre_cull, queued.draws_culled, queued.draws_hi_z_culled), (9, 4, 2));
    assert!(merge_collected_chunks(Vec::<CollectedChunk<u8>>::new()).items.is_empty());
}

#[test]
fn draw_candidates_need_indices_and_a_material() {
    assert!(draw_candidate_admitted(3, 0));
    assert!(!draw_candidate_admitted(0, 5));
    assert!(!draw_candidate_admitted(3, -1));
}

fn snapshot(base_width: u32, base_height: u32) -> HiZSnapshotDims {
    HiZSnapshotDims { base_width, base_height, mip_levels: 1 }
}

#[test]
fn desktop_matches_when_mip0_matches_temporal_viewport() {
    assert!(hi_z_snapshot_matches_temporal(&HiZCullDims::Desktop(snapshot(128, 96)), (128, 96)));
}

#[test]
fn desktop_mismatches_when_pyramid_resolution_differs() {
    assert!(!hi_z_snapshot_matches_temporal(&HiZCullDims::Desktop(snapshot(64, 96)), (128, 96)));
}

#[test]
fn stereo_matches_left_eye_mip0_against_temporal_viewport() {
    let hi = HiZCullDims::Stereo { left: snapshot(256, 144), right: snapshot(1, 1) };
    assert!(hi_z_snapshot_matches_temporal(&hi, (256, 144)));
}

#[test]
fn stereo_mismatches_when_left_eye_size_differs() {
    let hi = HiZCullDims::Stereo { left: snapshot(128, 144), right: snapshot(256, 144) };
    assert!(!hi_z_snapshot_matches_temporal(&hi, (256, 144)));
}
