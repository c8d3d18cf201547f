use renderide_prep::arrange_bins::{
    arrange_draw_items_order, arrange_draws_by_phase_bins, build_batch_ids, same_material_stack, phase_flatten_rank, post_skybox_rank, ArrangeDrawFacts,
    WorldMeshPhase,
};
use renderide_prep::arrange_order::{flatten_draw_chunks, materialize_arranged_draw_order};
use renderide_prep::material_slots::{MaterialStackOrder, WorldMeshDrawArrangementStats};
use renderide_prep::shared::{MeshRendererInstanceId, RenderSpaceId};

fn opaque(mesh_asset_id: i32, batch_id: u32, node_id: i32) -> ArrangeDrawFacts {
    ArrangeDrawFacts {
        strict_order: false,
        phase: WorldMeshPhase::ForwardOpaque,
        uses_transparent_sorting: false,
        batch_id,
        is_overlay: false,
        render_queue: 2000,
        sorting_order: 0,
        space_id: RenderSpaceId(1),
        skinned: false,
        node_id,
        mesh_asset_id,
        first_index: 0,
        index_count: 3,
        renderable_index: node_id as usize,
        instance_id: MeshRendererInstanceId(node_id as u64),
        slot_index: 0,
        material_stack_order: None,
    }
}

fn transparent(mesh_asset_id: i32, batch_id: u32, node_id: i32) -> ArrangeDrawFacts {
    ArrangeDrawFacts {
        strict_order: true,
        phase: WorldMeshPhase::Transparent,
        uses_transparent_sorting: true,
        render_queue: 3000,
        ..opaque(mesh_asset_id, batch_id, node_id)
    }
}

#[test]
fn phase_ranks_follow_pass_order() {
    assert_eq!(phase_flatten_rank(WorldMeshPhase::ForwardOpaque), 0);
    assert_eq!(phase_flatten_rank(WorldMeshPhase::ForwardAlphaTest), 1);
    assert_eq!(phase_flatten_rank(WorldMeshPhase::Intersection), 2);
    assert_eq!(phase_flatten_rank(WorldMeshPhase::Transparent), 3);
    assert_eq!(phase_flatten_rank(WorldMeshPhase::TransparentGrab), 4);
    assert_eq!(phase_flatten_rank(WorldMeshPhase::DepthOnly), 5);
    assert_eq!(phase_flatten_rank(WorldMeshPhase::ViewNormals), 6);
    assert_eq!(post_skybox_rank(), 3);
}

#[test]
fn empty_draw_list_arranges_to_empty_order() {
    let order = arrange_draw_items_order(&[], &[]);
    assert!(order.indices.is_empty());
    assert_eq!(
        order.stats,
        WorldMeshDrawArrangementStats { nontransparent_bins: 0, nontransparent_binned_draws: 0, strict_sorted_draws: 0 }
    );
}

#[test]
fn opaque_bins_keep_same_batch_contiguous() {
    let items = [opaque(10, 1, 0), opaque(20, 2, 1), opaque(10, 1, 2)];

    let order = arrange_draw_items_order(&items, &[]);

    assert_eq!(order.indices, vec![0, 2, 1]);
    assert_eq!(order.stats.nontransparent_bins, 2);
    assert_eq!(order.stats.nontransparent_binned_draws, 3);
    assert_eq!(order.stats.strict_sorted_draws, 0);
}

#[test]
fn pass_order_precedes_batch_order() {
    let mut alpha_test = opaque(10, 1, 0);
    alpha_test.phase = WorldMeshPhase::ForwardAlphaTest;
    let items = [alpha_test, opaque(10, 9, 1)];

    let order = arrange_draw_items_order(&items, &[]);

    assert_eq!(order.indices, vec![1, 0]);
}

#[test]
fn transparent_tail_keeps_strict_order_after_pre_skybox_bins() {
    let items = [transparent(30, 4, 0), opaque(10, 1, 1), transparent(31, 5, 2), opaque(11, 2, 3)];

    let order = arrange_draw_items_order(&items, &[2, 0]);

    assert_eq!(order.indices, vec![1, 3, 2, 0]);
    assert_eq!(order.stats.strict_sorted_draws, 2);
    assert_eq!(order.stats.nontransparent_binned_draws, 2);
}

#[test]
fn post_skybox_bins_merge_by_render_queue_with_strict_draws() {
    let mut late_bin = opaque(40, 7, 4);
    late_bin.phase = WorldMeshPhase::Transparent;
    late_bin.render_queue = 3500;
    let mut queue_bin = opaque(41, 8, 5);
    queue_bin.phase = WorldMeshPhase::Transparent;
    queue_bin.render_queue = 3000;
    let items = [transparent(30, 4, 0), late_bin, transparent(31, 5, 2), queue_bin];

    let order = arrange_draw_items_order(&items, &[2, 0]);

    // The render-queue-3000 bin ties with the transparent draws on queue and wins on the
    // transparent-sorting flag; the queue-3500 bin follows every queue-3000 draw.
    assert_eq!(order.indices, vec![3, 2, 0, 1]);
}

#[test]
fn pre_skybox_overlay_bins_precede_main_post_skybox_bins() {
    let mut overlay = opaque(10, 1, 0);
    overlay.is_overlay = true;
    let mut main_tail = opaque(20, 2, 1);
    main_tail.phase = WorldMeshPhase::Transparent;
    let items = [main_tail, overlay];

    let order = arrange_draw_items_order(&items, &[]);

    assert_eq!(order.indices, vec![1, 0]);
    assert_eq!(order.stats.nontransparent_bins, 2);
}

#[test]
fn stacked_material_layers_keep_slot_order_across_batches() {
    let mut base = opaque(10, 5, 50);
    base.first_index = 0;
    let mut layer_one = opaque(10, 9, 50);
    layer_one.slot_index = 1;
    layer_one.first_index = 3;
    layer_one.material_stack_order = Some(MaterialStackOrder { first_stacked_slot_index: 1 });
    let mut layer_two = layer_one;
    layer_two.slot_index = 2;
    layer_two.batch_id = 3;
    let items = [layer_two, base, layer_one];

    let order = arrange_draw_items_order(&items, &[]);

    assert_eq!(order.indices, vec![1, 2, 0]);
}

#[test]
fn shared_surfaces_keep_renderer_order_across_batches() {
    let mut first = opaque(10, 9, 7);
    first.renderable_index = 1;
    let mut second = opaque(10, 2, 7);
    second.renderable_index = 2;
    let items = [second, first];

    let order = arrange_draw_items_order(&items, &[]);

    assert_eq!(order.indices, vec![1, 0]);
    assert_eq!(order.stats.nontransparent_bins, 2);
}

#[test]
fn arranged_order_materializes_every_draw_once() {
    let items = [transparent(30, 4, 0), opaque(10, 1, 1), opaque(10, 1, 2), transparent(31, 5, 3)];
    let order = arrange_draw_items_order(&items, &[3, 0]);

    let (arranged, stats) = materialize_arranged_draw_order(vec!['a', 'b', 'c', 'd'], &order);

    assert_eq!(arranged, vec!['b', 'c', 'd', 'a']);
    assert_eq!(stats.nontransparent_bins, 1);
}

#[test]
fn arranged_draws_move_into_bin_order_once_each() {
    let facts = [opaque(20, 2, 0), transparent(30, 4, 1), opaque(10, 1, 2), transparent(31, 5, 3), opaque(20, 2, 4)];

    let (arranged, stats) = arrange_draws_by_phase_bins(vec![0u8, 1, 2, 3, 4], &facts, &[3, 1]);

    assert_eq!(arranged, vec![2, 0, 4, 3, 1]);
    let mut sorted = arranged.clone();
    sorted.sort();
    assert_eq!(sorted, vec![0, 1, 2, 3, 4]);
    assert_eq!(
        stats,
        WorldMeshDrawArrangementStats { nontransparent_bins: 2, nontransparent_binned_draws: 3, strict_sorted_draws: 2 }
    );
}

#[test]
fn incomplete_strict_order_leaves_draws_in_flattened_order() {
    let facts = [opaque(20, 2, 0), transparent(30, 4, 1)];

    let (arranged, _) = arrange_draws_by_phase_bins(vec!['x', 'y'], &facts, &[]);

    assert_eq!(arranged, vec!['x', 'y']);
}

/// A draw of the given mesh and material, with its material's batch id.
fn material_draw(mesh_asset_id: i32, material: u32, node_id: i32) -> ArrangeDrawFacts {
    opaque(mesh_asset_id, material, node_id)
}

/// Marks a draw as one layer of the same two-submesh, three-material stack.
fn mark_stacked_layer(item: &mut ArrangeDrawFacts, slot_index: usize) {
    item.node_id = 50;
    item.renderable_index = 7;
    item.instance_id = MeshRendererInstanceId(7);
    item.slot_index = slot_index;
    item.material_stack_order = MaterialStackOrder::from_slot_counts(slot_index, 3, 2);
    item.first_index = 3;
    item.index_count = 6;
}

fn set_renderer_identity(item: &mut ArrangeDrawFacts, node_id: i32, renderable_index: usize, instance_id: u64) {
    item.node_id = node_id;
    item.renderable_index = renderable_index;
    item.instance_id = MeshRendererInstanceId(instance_id);
}

#[test]
fn opaque_bins_keep_same_material_contiguous_without_full_item_sort() {
    let draws = vec![material_draw(10, 1, 100), material_draw(20, 2, 1), material_draw(11, 1, 2), material_draw(10, 1, 3)];

    let (draws, stats) = arrange_draws_by_phase_bins(draws.clone(), &draws, &[]);

    assert_eq!(stats.nontransparent_binned_draws, 4);
    assert_eq!(stats.strict_sorted_draws, 0);
    let material_runs = draws.iter().map(|draw| draw.batch_id).fold(Vec::<u32>::new(), |mut runs, material| {
        if runs.last().copied() != Some(material) {
            runs.push(material);
        }
        runs
    });
    assert_eq!(material_runs.len(), 2);
    let material_one: Vec<_> = draws.iter().filter(|draw| draw.batch_id == 1).map(|draw| draw.mesh_asset_id).collect();
    assert_eq!(material_one, vec![10, 10, 11]);
}

#[test]
fn nontransparent_stacked_layers_preserve_slot_order_across_material_bins() {
    let mut first_layer = material_draw(10, 200, 0);
    mark_stacked_layer(&mut first_layer, 1);
    let mut second_layer = material_draw(10, 100, 1);
    mark_stacked_layer(&mut second_layer, 2);
    let draws = vec![second_layer, first_layer];

    let (draws, stats) = arrange_draws_by_phase_bins(draws.clone(), &draws, &[]);

    assert_eq!(stats.nontransparent_binned_draws, 2);
    assert_eq!(draws.iter().map(|item| item.slot_index).collect::<Vec<_>>(), vec![1, 2]);
}

#[test]
fn nontransparent_same_surface_layers_preserve_renderer_creation_order_across_material_bins() {
    let mut first_layer = material_draw(10, 2, 0);
    set_renderer_identity(&mut first_layer, 50, 10, 10);
    let mut second_layer = material_draw(10, 1, 1);
    set_renderer_identity(&mut second_layer, 50, 20, 20);
    let draws = vec![second_layer, first_layer];

    let (draws, stats) = arrange_draws_by_phase_bins(draws.clone(), &draws, &[]);

    assert_eq!(stats.nontransparent_binned_draws, 2);
    assert_eq!(draws.iter().map(|item| item.instance_id.0).collect::<Vec<_>>(), vec![10, 20]);
}

#[test]
fn chunked_surface_stack_preserves_renderer_order_across_chunks() {
    let mut first_layer = material_draw(10, 2, 0);
    set_renderer_identity(&mut first_layer, 50, 10, 10);
    let mut second_layer = material_draw(10, 1, 1);
    set_renderer_identity(&mut second_layer, 50, 20, 20);
    let chunks = vec![vec![second_layer], vec![first_layer]];
    let draws: Vec<ArrangeDrawFacts> = chunks.into_iter().flatten().collect();

    let (draws, stats) = arrange_draws_by_phase_bins(draws.clone(), &draws, &[]);

    assert_eq!(stats.nontransparent_binned_draws, 2);
    assert_eq!(draws.iter().map(|item| item.instance_id.0).collect::<Vec<_>>(), vec![10, 20]);
}

#[test]
fn nontransparent_layers_on_different_nodes_keep_batch_order() {
    let mut first_layer = material_draw(10, 2, 0);
    set_renderer_identity(&mut first_layer, 50, 10, 10);
    let mut second_layer = material_draw(10, 1, 1);
    set_renderer_identity(&mut second_layer, 51, 20, 20);
    let draws = vec![first_layer, second_layer];

    let (draws, stats) = arrange_draws_by_phase_bins(draws.clone(), &draws, &[]);

    assert_eq!(stats.nontransparent_binned_draws, 2);
    assert_eq!(draws.iter().map(|item| item.instance_id.0).collect::<Vec<_>>(), vec![20, 10]);
}

#[test]
fn alpha_test_and_intersection_bins_flatten_before_transparent_tail() {
    let mut alpha_test = material_draw(1, 1, 0);
    alpha_test.phase = WorldMeshPhase::ForwardAlphaTest;
    alpha_test.render_queue = 2450;
    let mut intersect = material_draw(1, 2, 1);
    intersect.phase = WorldMeshPhase::Intersection;
    let transparent = transparent(1, 3, 2);
    let draws = vec![transparent, intersect, alpha_test];

    let (draws, stats) = arrange_draws_by_phase_bins(draws.clone(), &draws, &[0]);

    assert_eq!(stats.nontransparent_binned_draws, 2);
    assert_eq!(stats.strict_sorted_draws, 1);
    assert_eq!(draws[0].render_queue, 2450);
    assert_eq!(draws[1].phase, WorldMeshPhase::Intersection);
    assert!(draws[2].uses_transparent_sorting);
}

#[test]
fn geometry_last_queue_bins_before_transparent_tail_without_transparent_sorting() {
    let mut alpha = transparent(1, 1, 1);
    alpha.render_queue = 2501;
    let mut geometry_last = material_draw(1, 2, 1);
    geometry_last.render_queue = 2500;
    let transparent = transparent(1, 3, 3);
    let draws = vec![transparent, geometry_last, alpha];

    let (draws, stats) = arrange_draws_by_phase_bins(draws.clone(), &draws, &[2, 0]);

    assert_eq!(stats.nontransparent_binned_draws, 1);
    assert_eq!(stats.strict_sorted_draws, 2);
    assert_eq!(draws.iter().map(|item| item.render_queue).collect::<Vec<_>>(), vec![2500, 2501, 3000]);
    assert!(!draws[0].uses_transparent_sorting);
}

#[test]
fn batch_ids_are_dense_in_identity_order() {
    // Draws 2 and 0 share the first identity, draw 3 has the second and draw 1 the third.
    let sorted = vec![2usize, 0, 3, 1];
    let starts = vec![false, false, true, true];
    assert_eq!(build_batch_ids(&sorted, &starts), vec![0u32, 2, 0, 1]);
}

#[test]
fn batch_ids_ignore_a_start_flag_on_the_first_draw() {
    assert_eq!(build_batch_ids(&[1usize, 0], &[true, false]), vec![0u32, 0]);
    assert_eq!(build_batch_ids(&[], &[]), Vec::<u32>::new());
}

#[test]
fn material_stack_layers_match_only_with_markers_on_the_same_submesh() {
    let stack = Some(MaterialStackOrder { first_stacked_slot_index: 1 });
    let base = ArrangeDrawFacts { material_stack_order: stack, slot_index: 1, ..opaque(7, 0, 4) };
    let layer = ArrangeDrawFacts { slot_index: 2, batch_id: 9, ..base };
    assert!(same_material_stack(&base, &layer));
    let unmarked = ArrangeDrawFacts { material_stack_order: None, ..layer };
    assert!(!same_material_stack(&base, &unmarked));
    assert!(!same_material_stack(&unmarked, &unmarked));
    let other_range = ArrangeDrawFacts { first_index: 3, ..layer };
    assert!(!same_material_stack(&base, &other_range));
    let other_marker = ArrangeDrawFacts { material_stack_order: Some(MaterialStackOrder { first_stacked_slot_index: 0 }), ..layer };
    assert!(!same_material_stack(&base, &other_marker));
}

#[test]
fn chunked_arrangement_assigns_collect_order_across_chunks() {
    let chunks = vec![
        vec![material_draw(10, 1, 99), material_draw(10, 1, 98)],
        vec![material_draw(10, 1, 97), material_draw(10, 1, 96)],
    ];
    let facts = flatten_draw_chunks(chunks);
    assert_eq!(facts.iter().map(|item| item.node_id).collect::<Vec<_>>(), vec![99, 98, 97, 96]);
    let collect_orders: Vec<usize> = (0..facts.len()).collect();

    let (draws, stats) = arrange_draws_by_phase_bins(collect_orders, &facts, &[]);

    assert_eq!(stats.nontransparent_bins, 1);
    assert_eq!(stats.nontransparent_binned_draws, 4);
    assert_eq!(draws, vec![0, 1, 2, 3]);
}

#[test]
fn flatten_draw_chunks_keeps_chunk_and_item_order() {
    assert_eq!(flatten_draw_chunks(vec![vec![1, 2], Vec::new(), vec![3]]), vec![1, 2, 3]);
    assert_eq!(flatten_draw_chunks(Vec::<Vec<u8>>::new()), Vec::<u8>::new());
}
