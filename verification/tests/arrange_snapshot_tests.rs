use renderide_prep::arrange_order::{
    apply_validated_arranged_draw_order, materialize_arranged_draw_order, validate_arranged_draw_order,
    WorldMeshDrawArrangementOrder,
};
use renderide_prep::collections::RenderWorldRendererRef;
use renderide_prep::material_slots::WorldMeshDrawArrangementStats;
use renderide_prep::prepared::FramePreparedDraw;
use renderide_prep::retained::{RenderWorldRendererTemplate, RenderWorldSpace};
use renderide_prep::shared::{MeshRendererInstanceId, RenderSpaceId, RenderWorldRendererKind, ShadowCastMode};
use renderide_prep::snapshot::{build_snapshot_rebuild_tasks, SnapshotRebuildSource, SnapshotRendererTable};

fn prepared_draw(space_id: RenderSpaceId, renderable_index: usize) -> FramePreparedDraw {
    FramePreparedDraw {
        space_id,
        renderable_index,
        instance_id: MeshRendererInstanceId::default(),
        renderer_ordinal: 0,
        node_id: -1,
        mesh_asset_id: 1,
        is_overlay: false,
        is_hidden: false,
        sorting_order: 0,
        shadow_cast_mode: ShadowCastMode::On,
        skinned: false,
        world_space_deformed: false,
        blendshape_deformed: false,
        tangent_blendshape_deform_active: false,
        slot_index: 0,
        material_stack_order: None,
        first_index: 0,
        index_count: 3,
        material_asset_id: 1,
        property_block_id: None,
    }
}

fn static_ref(index: usize) -> RenderWorldRendererRef {
    RenderWorldRendererRef { kind: RenderWorldRendererKind::Static, index }
}

#[test]
fn arranged_order_must_cover_every_draw_once() {
    assert!(validate_arranged_draw_order(&[2, 0, 1], 3));
    assert!(!validate_arranged_draw_order(&[2, 0], 3));
    assert!(!validate_arranged_draw_order(&[2, 0, 0], 3));
    assert!(!validate_arranged_draw_order(&[2, 0, 3], 3));
    assert!(validate_arranged_draw_order(&[], 0));
}

#[test]
fn applying_an_order_moves_each_item_once() {
    assert_eq!(apply_validated_arranged_draw_order(vec!['a', 'b', 'c'], &[2, 0, 1]), vec!['c', 'a', 'b']);
    assert_eq!(apply_validated_arranged_draw_order(vec!['a', 'b', 'c'], &[1, 1, 7, 0]), vec!['b', 'a']);
}

#[test]
fn materialize_keeps_flattened_order_for_invalid_orders() {
    let stats = WorldMeshDrawArrangementStats { nontransparent_bins: 1, nontransparent_binned_draws: 2, strict_sorted_draws: 0 };
    let order = WorldMeshDrawArrangementOrder { indices: vec![1, 0], stats };
    assert_eq!(materialize_arranged_draw_order(vec![10, 20], &order), (vec![20, 10], stats));
    let bad = WorldMeshDrawArrangementOrder { indices: vec![0], stats };
    assert_eq!(materialize_arranged_draw_order(vec![10, 20], &bad), (vec![10, 20], stats));
    assert!(WorldMeshDrawArrangementOrder::empty().indices.is_empty());
}

#[test]
fn snapshot_rebuild_tasks_chunk_by_retained_template_count() {
    let space_id = RenderSpaceId(60);
    let mut space = RenderWorldSpace::new(true);
    space.static_renderers.push(RenderWorldRendererTemplate {
        draws: vec![prepared_draw(space_id, 0); 800],
        ..Default::default()
    });
    space.static_renderers.push(RenderWorldRendererTemplate {
        draws: vec![prepared_draw(space_id, 1); 224],
        ..Default::default()
    });
    space.static_renderers.push(RenderWorldRendererTemplate {
        draws: vec![prepared_draw(space_id, 2); 1],
        ..Default::default()
    });

    let tasks = build_snapshot_rebuild_tasks(&[(0, space_id, &space)]);

    assert_eq!(tasks.len(), 5);
    assert_eq!(
        &tasks[0].source,
        &SnapshotRebuildSource::RendererDrawRange { table: SnapshotRendererTable::Static, renderer_index: 0, range: 0..256 }
    );
    assert_eq!(
        &tasks[1].source,
        &SnapshotRebuildSource::RendererDrawRange { table: SnapshotRendererTable::Static, renderer_index: 0, range: 256..512 }
    );
    assert_eq!(
        &tasks[2].source,
        &SnapshotRebuildSource::RendererDrawRange { table: SnapshotRendererTable::Static, renderer_index: 0, range: 512..768 }
    );
    assert_eq!(
        &tasks[3].source,
        &SnapshotRebuildSource::RendererDrawRange { table: SnapshotRendererTable::Static, renderer_index: 0, range: 768..800 }
    );
    assert_eq!(
        &tasks[4].source,
        &SnapshotRebuildSource::RendererRange { table: SnapshotRendererTable::Static, range: 1..3 }
    );
    assert_eq!(tasks[0].retained_template_count(), 256);
    assert_eq!(tasks[3].retained_template_count(), 32);
    assert_eq!(tasks[4].retained_template_count(), 225);
}

#[test]
fn reverse_index_delta_replaces_stale_renderer_identity() {
    let mut cached = RenderWorldSpace::new(true);
    cached.static_renderers.push(RenderWorldRendererTemplate { mesh_asset_id: 55, node_id: 10, ..Default::default() });
    cached.static_renderers.push(RenderWorldRendererTemplate { mesh_asset_id: 55, node_id: 11, ..Default::default() });
    let first = static_ref(0);
    let second = static_ref(1);
    cached.push_reverse_indexes_for_ref(first);
    cached.push_reverse_indexes_for_ref(second);
    cached.remove_reverse_indexes_for_ref(first);
    cached.static_renderers[0].mesh_asset_id = 99;
    cached.static_renderers[0].node_id = 20;
    cached.push_reverse_indexes_for_ref(first);

    assert_eq!(cached.mesh_asset_index.get(55), Some(vec![second]));
    assert_eq!(cached.node_index.get(11), Some(vec![second]));
    assert_eq!(cached.mesh_asset_index.get(99), Some(vec![first]));
    assert_eq!(cached.node_index.get(20), Some(vec![first]));
    assert!(!cached.node_index.contains_key(10));
}

#[test]
fn retained_template_counts_cover_both_tables() {
    let space_id = RenderSpaceId(61);
    let mut space = RenderWorldSpace::new(true);
    space.static_renderers.push(RenderWorldRendererTemplate { draws: vec![prepared_draw(space_id, 0); 3], ..Default::default() });
    space.skinned_renderers.push(RenderWorldRendererTemplate { draws: vec![prepared_draw(space_id, 0); 2], ..Default::default() });
    assert_eq!(space.retained_template_count(), 5);
    assert_eq!(space.retained_static_template_count_for_range(0, 1), 3);
    assert_eq!(space.retained_skinned_template_count_for_range(0, 1), 2);
    let mut draws = Vec::new();
    space.append_static_draws_range_to(0, 1, &mut draws);
    space.append_skinned_renderer_draws_range_to(0, 0, 1, &mut draws);
    assert_eq!(draws.len(), 4);
}
