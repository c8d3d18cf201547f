use renderide_prep::collections::MaterialKeySet;
use renderide_prep::prepared_snapshot::{
    populate_renderer_ordinals_from_scene, static_renderer_count, FramePreparedRenderables,
};
use renderide_prep::render_world::RenderingContext;
use renderide_prep::prepared::{
    empty_material_key_signature, mix_material_key_signature, populate_renderer_ordinals_from_runs,
    populate_run_chunks, populate_runs_and_material_keys, prepared_draws_share_renderer, FramePreparedDraw,
    FramePreparedRun, FramePreparedRunChunk,
};
use renderide_prep::shared::{MeshRendererInstanceId, RenderSpaceId, ShadowCastMode};

fn prepared_draw(renderable_index: usize, material_asset_id: i32, property_block_id: Option<i32>) -> FramePreparedDraw {
    FramePreparedDraw {
        space_id: RenderSpaceId(1),
        renderable_index,
        instance_id: MeshRendererInstanceId(renderable_index as u64 + 1),
        renderer_ordinal: 0,
        node_id: renderable_index as i32,
        mesh_asset_id: 10,
        is_overlay: false,
        is_hidden: false,
        sorting_order: 0,
        shadow_cast_mode: ShadowCastMode::On,
        skinned: false,
        world_space_deformed: false,
        blendshape_deformed: false,
        tangent_blendshape_deform_active: false,
        slot_index: 0,
        material_stack_order: None,
        first_index: 0,
        index_count: 3,
        material_asset_id,
        property_block_id,
    }
}

#[test]
fn populate_runs_also_deduplicates_material_property_keys() {
    let draws = vec![
        prepared_draw(0, 7, None),
        prepared_draw(0, 7, None),
        prepared_draw(1, 9, Some(3)),
        prepared_draw(1, 7, None),
    ];
    let mut runs = Vec::new();
    let mut keys = Vec::new();
    let mut seen = MaterialKeySet::new();

    let signature = populate_runs_and_material_keys(&draws, &mut runs, &mut keys, &mut seen);

    assert_eq!(runs, vec![FramePreparedRun { start: 0, end: 2 }, FramePreparedRun { start: 2, end: 4 }]);
    assert_eq!(keys, vec![(7, None), (9, Some(3))]);
    assert_ne!(signature, empty_material_key_signature());
    let expected = mix_material_key_signature(
        mix_material_key_signature(empty_material_key_signature(), 7, None),
        9,
        Some(3),
    ) ^ 2;
    assert_eq!(signature, expected);
}

#[test]
fn populate_run_chunks_keeps_renderer_runs_intact() {
    let runs = vec![
        FramePreparedRun { start: 0, end: 2 },
        FramePreparedRun { start: 2, end: 5 },
        FramePreparedRun { start: 5, end: 9 },
        FramePreparedRun { start: 9, end: 10 },
    ];
    let mut chunks = Vec::new();

    populate_run_chunks(&runs, &mut chunks, 4);

    assert_eq!(
        chunks,
        vec![
            FramePreparedRunChunk { start: 0, end: 2 },
            FramePreparedRunChunk { start: 2, end: 3 },
            FramePreparedRunChunk { start: 3, end: 4 },
        ]
    );
}

#[test]
fn renderer_ordinals_from_runs_count_runs_per_space() {
    let mut a = prepared_draw(0, 1, None);
    a.space_id = RenderSpaceId(1);
    let mut b = prepared_draw(1, 1, None);
    b.space_id = RenderSpaceId(2);
    let mut c = prepared_draw(2, 1, None);
    c.space_id = RenderSpaceId(1);
    let mut draws = vec![a, b, c, c];
    let runs = vec![
        FramePreparedRun { start: 0, end: 1 },
        FramePreparedRun { start: 1, end: 2 },
        FramePreparedRun { start: 2, end: 4 },
    ];

    populate_renderer_ordinals_from_runs(&mut draws, &runs);

    assert_eq!(draws[0].renderer_ordinal, 0);
    assert_eq!(draws[1].renderer_ordinal, 0);
    assert_eq!(draws[2].renderer_ordinal, 1);
    assert_eq!(draws[3].renderer_ordinal, 1);
}

#[test]
fn material_key_signature_depends_on_property_block() {
    let base = empty_material_key_signature();
    assert_ne!(mix_material_key_signature(base, 7, None), mix_material_key_signature(base, 7, Some(0)));
    assert_ne!(mix_material_key_signature(base, 7, None), base);
}

#[test]
fn share_renderer_requires_same_renderer_row() {
    let a = prepared_draw(0, 1, None);
    let mut b = prepared_draw(0, 2, Some(5));
    assert!(prepared_draws_share_renderer(&a, &b));
    b.skinned = true;
    assert!(!prepared_draws_share_renderer(&a, &b));
    let c = prepared_draw(1, 1, None);
    assert!(!prepared_draws_share_renderer(&a, &c));
}

#[test]
fn cached_rebuild_can_reuse_previous_space_ranges() {
    let user_view = RenderingContext(1);
    let camera = RenderingContext(2);
    let mut prepared = FramePreparedRenderables::empty(user_view);
    let draws = vec![prepared_draw(0, 10, None), prepared_draw(1, 11, None)];
    prepared.rebuild_from_cached_spaces(user_view, &[(RenderSpaceId(1), draws)]);

    prepared.begin_cached_rebuild(camera);
    assert!(prepared.has_previous_cached_draws_for_space(RenderSpaceId(1)));
    prepared.push_cached_space(RenderSpaceId(1));
    assert!(prepared.extend_previous_cached_draws_for_space(RenderSpaceId(1)));
    prepared.finish_cached_rebuild(&[]);

    assert_eq!(prepared.draws.len(), 2);
    assert_eq!(prepared.draws[0].material_asset_id, 10);
    assert_eq!(prepared.draws[1].material_asset_id, 11);
    assert!(prepared.cached_space_draw_ranges.contains_key(1));
}

#[test]
fn renderer_ordinals_follow_static_scene_table_even_when_rows_emit_no_draws() {
    let space_id = RenderSpaceId(9);
    let scene_static_counts = [(space_id, 3usize)];
    let mut static_draw = prepared_draw(1, 7, None);
    static_draw.space_id = space_id;
    static_draw.renderable_index = 1;
    static_draw.skinned = false;
    let mut draws = vec![static_draw];

    populate_renderer_ordinals_from_scene(&mut draws, &scene_static_counts);

    assert_eq!(draws[0].renderer_ordinal, 1);
}

#[test]
fn skinned_renderer_ordinals_follow_every_static_renderer_of_their_space() {
    let scene_static_counts = [(RenderSpaceId(4), 2usize), (RenderSpaceId(9), 3usize)];
    let mut skinned = prepared_draw(1, 7, None);
    skinned.space_id = RenderSpaceId(9);
    skinned.skinned = true;
    let mut unknown_space = skinned;
    unknown_space.space_id = RenderSpaceId(5);
    let mut draws = vec![skinned, unknown_space];

    populate_renderer_ordinals_from_scene(&mut draws, &scene_static_counts);

    assert_eq!(draws[0].renderer_ordinal, 4);
    assert_eq!(draws[1].renderer_ordinal, 1);
    assert_eq!(static_renderer_count(&scene_static_counts, RenderSpaceId(4)), 2);
    assert_eq!(static_renderer_count(&scene_static_counts, RenderSpaceId(7)), 0);
}

#[test]
fn rebuild_from_cached_spaces_records_space_ranges_runs_and_lookup() {
    let mut prepared = FramePreparedRenderables::empty(RenderingContext(1));
    let mut a0 = prepared_draw(0, 10, None);
    a0.space_id = RenderSpaceId(3);
    let mut a1 = a0;
    a1.slot_index = 1;
    a1.material_asset_id = 11;
    let mut b0 = prepared_draw(4, 10, Some(2));
    b0.space_id = RenderSpaceId(5);
    prepared.rebuild_from_cached_spaces(
        RenderingContext(1),
        &[(RenderSpaceId(3), vec![a0, a1]), (RenderSpaceId(5), vec![b0])],
    );

    assert_eq!(prepared.len(), 3);
    assert_eq!(prepared.active_space_ids(), &[RenderSpaceId(3), RenderSpaceId(5)]);
    assert_eq!(prepared.cached_space_draw_ranges.get(3), Some((0, 2)));
    assert_eq!(prepared.cached_space_draw_ranges.get(5), Some((2, 3)));
    assert_eq!(
        prepared.runs(),
        &[FramePreparedRun { start: 0, end: 2 }, FramePreparedRun { start: 2, end: 3 }]
    );
    assert_eq!(prepared.run_chunks(), &[FramePreparedRunChunk { start: 0, end: 2 }]);
    assert_eq!(prepared.unique_material_property_pairs(), &[(10, None), (11, None), (10, Some(2))]);
    assert_eq!(
        prepared.renderer_run(RenderSpaceId(3), false, 0, MeshRendererInstanceId(1)),
        Some(FramePreparedRun { start: 0, end: 2 })
    );
    assert_eq!(prepared.renderer_run(RenderSpaceId(3), true, 0, MeshRendererInstanceId(1)), None);
    assert_eq!(prepared.draws()[2].renderer_ordinal, 0);
    assert!(prepared.is_compatible_with_render_context(RenderingContext(1)));
    assert!(!prepared.is_compatible_with_render_context(RenderingContext(2)));
    let invariant = FramePreparedRenderables::empty_context_invariant(RenderingContext(1));
    assert!(invariant.is_compatible_with_render_context(RenderingContext(2)));
    assert!(invariant.is_empty());
}

#[test]
fn previous_rows_are_not_reused_for_spaces_without_a_recorded_range() {
    let mut prepared = FramePreparedRenderables::empty(RenderingContext(1));
    prepared.rebuild_from_cached_spaces(RenderingContext(1), &[(RenderSpaceId(1), vec![prepared_draw(0, 10, None)])]);
    prepared.begin_cached_rebuild(RenderingContext(1));
    assert!(!prepared.has_previous_cached_draws_for_space(RenderSpaceId(2)));
    assert!(!prepared.extend_previous_cached_draws_for_space(RenderSpaceId(2)));
    assert!(prepared.is_empty());
    assert_eq!(prepared.previous_draws.len(), 1);
}

#[test]
fn prepared_draws_share_renderer_groups_material_slots_only() {
    let space_id = RenderSpaceId(27);
    let mut first_slot = prepared_draw(0, 1, None);
    first_slot.space_id = space_id;
    let mut second_slot = first_slot.clone();
    second_slot.slot_index = 1;
    second_slot.first_index = 3;
    second_slot.material_asset_id = 10;
    let mut next_renderer = second_slot.clone();
    next_renderer.renderable_index = 1;
    next_renderer.instance_id = MeshRendererInstanceId(12);
    let mut hidden_slot = second_slot.clone();
    hidden_slot.is_hidden = true;

    assert!(prepared_draws_share_renderer(&first_slot, &second_slot));
    assert!(!prepared_draws_share_renderer(&second_slot, &hidden_slot));
    assert!(!prepared_draws_share_renderer(&second_slot, &next_renderer));
}
