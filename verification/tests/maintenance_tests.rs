use renderide_prep::maintenance::{
    mesh_asset_expansion_admission, transform_root_expansion_admission, transform_root_node_scan_admission,
    RenderWorldMaintenanceStats, DIRTY_ROOT_NODE_SCAN_PARALLEL_CHUNK_NODES, DIRTY_ROOT_NODE_SCAN_PARALLEL_MIN_NODES,
};
use renderide_prep::parallel::{FrameCpuWorkload, FrameParallelPolicy, ParallelAdmission};
use renderide_prep::transform_tree::{node_is_descendant_or_self, node_is_under_any_root};

#[test]
fn accumulate_adds_every_counter() {
    let mut total = RenderWorldMaintenanceStats::zero();
    let mut frame = RenderWorldMaintenanceStats::zero();
    frame.topology_dirty_count = 3;
    frame.steady_state_skip_count = 1;
    frame.retained_template_count = 40;
    total.accumulate(frame);
    total.accumulate(frame);
    assert_eq!(total.topology_dirty_count, 6);
    assert_eq!(total.steady_state_skip_count, 2);
    assert_eq!(total.retained_template_count, 80);
    assert_eq!(total.material_dirty_count, 0);
}

#[test]
fn profile_sample_copies_counters() {
    let mut stats = RenderWorldMaintenanceStats::zero();
    stats.full_space_rebuild_count = 2;
    stats.spatial_refit_count = 5;
    stats.context_invariant_count = 1;
    let sample = stats.profile_sample();
    assert_eq!(sample.spatial_refit_count, 5);
    assert_eq!(sample.context_invariant_count, 1);
    assert_eq!(sample.topology_dirty_count, 0);
}

#[test]
fn node_scan_parallelism_requires_large_index() {
    let policy = FrameParallelPolicy::new(4);
    assert_eq!(
        transform_root_node_scan_admission(policy, DIRTY_ROOT_NODE_SCAN_PARALLEL_MIN_NODES - 1),
        ParallelAdmission::Serial
    );
    assert_eq!(
        transform_root_node_scan_admission(policy, DIRTY_ROOT_NODE_SCAN_PARALLEL_MIN_NODES),
        ParallelAdmission::Parallel { chunk_size: DIRTY_ROOT_NODE_SCAN_PARALLEL_CHUNK_NODES }
    );
    assert_eq!(transform_root_expansion_admission(policy, 1), ParallelAdmission::Serial);
    assert!(transform_root_expansion_admission(policy, 2).is_parallel());
    assert_eq!(mesh_asset_expansion_admission(FrameParallelPolicy::new(1), 8), ParallelAdmission::Serial);
    assert_eq!(
        FrameParallelPolicy::new(2).admit_independent_items(FrameCpuWorkload::independent_items(3), 1).chunk_size(),
        Some(1)
    );
}

#[test]
fn descendant_checks_follow_parent_chain() {
    let parents = [-1, 0, 1, 0];
    assert!(node_is_descendant_or_self(&parents, 2, 0));
    assert!(node_is_descendant_or_self(&parents, 2, 2));
    assert!(!node_is_descendant_or_self(&parents, 3, 1));
    assert!(!node_is_descendant_or_self(&parents, -1, 0));
    assert!(node_is_under_any_root(&parents, 2, &[3, 1]));
    assert!(!node_is_under_any_root(&parents, 3, &[1, 2]));
}

#[test]
fn descendant_check_terminates_on_cycles() {
    let parents = [1, 0];
    assert!(!node_is_descendant_or_self(&parents, 0, 5));
}
