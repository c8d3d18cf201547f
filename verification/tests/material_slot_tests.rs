use renderide_prep::material_slots::{
    resolved_material_slot_count, resolved_material_slots, stacked_material_submesh_range,
    stacked_material_submesh_topology, MaterialStackOrder,
};
use renderide_prep::shared::{MeshMaterialSlot, RasterPrimitiveTopology, ShadowCastMode, StaticMeshRenderer};

#[test]
fn stacked_material_submesh_range_reuses_last_submesh_for_extra_slots() {
    let submeshes = [(0, 3), (3, 6)];

    assert_eq!(stacked_material_submesh_range(0, &submeshes), Some((0, 3)));
    assert_eq!(stacked_material_submesh_range(1, &submeshes), Some((3, 6)));
    assert_eq!(stacked_material_submesh_range(2, &submeshes), Some((3, 6)));
    assert_eq!(stacked_material_submesh_range(3, &submeshes), Some((3, 6)));
}

#[test]
fn stacked_material_submesh_range_leaves_unbacked_submeshes_to_callers() {
    let submeshes = [(0, 3), (3, 6), (9, 12)];
    let material_slot_count = 2usize;

    let ranges: Vec<_> = (0..material_slot_count)
        .filter_map(|slot| stacked_material_submesh_range(slot, &submeshes))
        .collect();

    assert_eq!(ranges, vec![(0, 3), (3, 6)]);
}

#[test]
fn stacked_material_submesh_range_returns_none_for_empty_submeshes() {
    assert_eq!(stacked_material_submesh_range(0, &[]), None);
}

#[test]
fn material_stack_order_none_when_slots_do_not_exceed_submeshes() {
    assert_eq!(MaterialStackOrder::from_slot_counts(0, 2, 2), None);
    assert_eq!(MaterialStackOrder::from_slot_counts(0, 1, 2), None);
}

#[test]
fn material_stack_order_starts_at_last_submesh_slot() {
    assert_eq!(MaterialStackOrder::from_slot_counts(0, 3, 2), None);
    assert_eq!(
        MaterialStackOrder::from_slot_counts(1, 3, 2),
        Some(MaterialStackOrder { first_stacked_slot_index: 1 }),
    );
    assert_eq!(
        MaterialStackOrder::from_slot_counts(2, 3, 2),
        Some(MaterialStackOrder { first_stacked_slot_index: 1 }),
    );
}

#[test]
fn material_stack_order_handles_single_submesh_stacks() {
    assert_eq!(
        MaterialStackOrder::from_slot_counts(0, 2, 1),
        Some(MaterialStackOrder { first_stacked_slot_index: 0 }),
    );
    assert_eq!(
        MaterialStackOrder::from_slot_counts(1, 2, 1),
        Some(MaterialStackOrder { first_stacked_slot_index: 0 }),
    );
}

#[test]
fn stacked_material_submesh_topology_reuses_last_topology_for_extra_slots() {
    let t = [RasterPrimitiveTopology::PointList, RasterPrimitiveTopology::TriangleList];

    assert_eq!(stacked_material_submesh_topology(0, &t), RasterPrimitiveTopology::PointList);
    assert_eq!(stacked_material_submesh_topology(1, &t), RasterPrimitiveTopology::TriangleList);
    assert_eq!(stacked_material_submesh_topology(99, &t), RasterPrimitiveTopology::TriangleList);
}

#[test]
fn stacked_material_submesh_topology_falls_back_when_empty() {
    assert_eq!(stacked_material_submesh_topology(0, &[]), RasterPrimitiveTopology::TriangleList);
}

#[test]
fn resolved_material_slot_count_suppresses_shadow_only_renderers() {
    let renderer = StaticMeshRenderer {
        shadow_cast_mode: ShadowCastMode::ShadowOnly,
        material_slots: vec![MeshMaterialSlot { material_asset_id: 5, property_block_id: None }],
        primary_material_asset_id: Some(5),
        ..Default::default()
    };

    assert_eq!(resolved_material_slot_count(&renderer), 0);
    assert_eq!(resolved_material_slots(&renderer).len(), 1);
}

#[test]
fn resolved_material_slot_count_keeps_non_shadow_only_renderers() {
    for shadow_cast_mode in [ShadowCastMode::Off, ShadowCastMode::On, ShadowCastMode::DoubleSided] {
        let renderer = StaticMeshRenderer {
            shadow_cast_mode,
            material_slots: vec![MeshMaterialSlot { material_asset_id: 5, property_block_id: None }],
            ..Default::default()
        };

        assert_eq!(resolved_material_slot_count(&renderer), 1);
    }
}

#[test]
fn resolved_material_slots_fall_back_to_primary_material() {
    let renderer = StaticMeshRenderer {
        primary_material_asset_id: Some(9),
        primary_property_block_id: Some(4),
        ..Default::default()
    };

    assert_eq!(resolved_material_slot_count(&renderer), 1);
    assert_eq!(
        resolved_material_slots(&renderer),
        vec![MeshMaterialSlot { material_asset_id: 9, property_block_id: Some(4) }]
    );
    assert_eq!(resolved_material_slot_count(&StaticMeshRenderer::default()), 0);
}

#[test]
fn resolved_material_slots_keep_explicit_slots_in_order() {
    let slots = vec![
        MeshMaterialSlot { material_asset_id: 1, property_block_id: None },
        MeshMaterialSlot { material_asset_id: 2, property_block_id: Some(7) },
    ];
    let renderer = StaticMeshRenderer {
        material_slots: slots.clone(),
        primary_material_asset_id: Some(9),
        ..Default::default()
    };

    assert_eq!(resolved_material_slot_count(&renderer), 2);
    assert_eq!(resolved_material_slots(&renderer), slots);
}
