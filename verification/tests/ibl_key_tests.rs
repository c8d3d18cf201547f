use renderide_prep::ibl_key::{should_schedule_ibl_bake, MAX_IN_FLIGHT_IBL_BAKES};
use renderide_prep::ibl_key::{
    build_key, clamp_face_size, convolve_sample_count, dispatch_groups, mip_extent, mip_levels_for_edge,
    CubemapIblSource, RuntimeCubemapIblSource, SkyboxIblKey, SkyboxIblSource,
};

fn cubemap_key(
    allocation_generation: u64,
    content_generation: u64,
    material_generation: u64,
    mip_levels_resident: u32,
    face_size: u32,
) -> SkyboxIblKey {
    SkyboxIblKey::Cubemap {
        material_asset_id: 21,
        material_generation,
        route_hash: 99,
        asset_id: 7,
        allocation_generation,
        mip_levels_resident,
        content_generation,
        storage_v_inverted: false,
        face_size,
    }
}

fn runtime_cubemap_key(storage_v_inverted: bool) -> SkyboxIblKey {
    SkyboxIblKey::RuntimeCubemap {
        render_space_id: 7,
        renderable_index: 2,
        generation: 5,
        mip_levels: 1,
        storage_v_inverted,
        face_size: 128,
    }
}

#[test]
fn roughness_lod_round_trip() {
    for i in 0..=20u32 {
        let r = i as f32 / 20.0;
        let lod = r * (2.0 - r);
        let r_back = 1.0 - (1.0 - lod).max(0.0).sqrt();
        assert!((r - r_back).abs() < 1e-6, "r={r} r_back={r_back}");
    }
}

#[test]
fn mip_levels_for_edge_includes_tail_mip() {
    assert_eq!(mip_levels_for_edge(1), 1);
    assert_eq!(mip_levels_for_edge(2), 2);
    assert_eq!(mip_levels_for_edge(128), 8);
    assert_eq!(mip_levels_for_edge(256), 9);
}

#[test]
fn convolve_sample_count_envelope() {
    assert_eq!(convolve_sample_count(0), 1);
    assert_eq!(convolve_sample_count(1), 64);
    assert_eq!(convolve_sample_count(2), 128);
    assert_eq!(convolve_sample_count(3), 256);
    assert_eq!(convolve_sample_count(4), 512);
    assert_eq!(convolve_sample_count(5), 1024);
    assert_eq!(convolve_sample_count(8), 1024);
}

#[test]
fn runtime_cubemap_key_invalidates_on_storage_orientation() {
    let base = runtime_cubemap_key(false);
    let flipped = runtime_cubemap_key(true);

    assert_ne!(base, flipped);
}

#[test]
fn cubemap_key_invalidates_on_residency_or_face_change() {
    let a = cubemap_key(1, 1, 0, 1, 256);
    let b = cubemap_key(1, 1, 0, 4, 256);
    let c = cubemap_key(1, 1, 0, 1, 128);
    assert_ne!(a, b);
    assert_ne!(a, c);
    let d = cubemap_key(1, 2, 0, 1, 256);
    assert_ne!(a, d);
}

#[test]
fn cubemap_key_invalidates_on_allocation_or_material_change() {
    let base = cubemap_key(1, 1, 5, 1, 256);
    let reallocated_same_upload_generation = cubemap_key(2, 1, 5, 1, 256);
    let material_changed = cubemap_key(1, 1, 6, 1, 256);

    assert_ne!(base, reallocated_same_upload_generation);
    assert_ne!(base, material_changed);
}

#[test]
fn mip_levels_for_edge_handles_zero_and_non_powers() {
    assert_eq!(mip_levels_for_edge(0), 1);
    assert_eq!(mip_levels_for_edge(3), 2);
    assert_eq!(mip_levels_for_edge(255), 8);
    assert_eq!(mip_levels_for_edge(u32::MAX), 32);
}

#[test]
fn clamp_face_size_bounds_to_device_limit() {
    assert_eq!(clamp_face_size(256, 128), 128);
    assert_eq!(clamp_face_size(64, 128), 64);
    assert_eq!(clamp_face_size(0, 128), 1);
    assert_eq!(clamp_face_size(64, 0), 1);
}

#[test]
fn dispatch_groups_round_up_to_workgroup_edge() {
    assert_eq!(dispatch_groups(0), 1);
    assert_eq!(dispatch_groups(1), 1);
    assert_eq!(dispatch_groups(8), 1);
    assert_eq!(dispatch_groups(9), 2);
    assert_eq!(dispatch_groups(256), 32);
}

#[test]
fn mip_extent_halves_and_floors_at_one() {
    assert_eq!(mip_extent(256, 0), 256);
    assert_eq!(mip_extent(256, 3), 32);
    assert_eq!(mip_extent(256, 8), 1);
    assert_eq!(mip_extent(256, 12), 1);
}

#[test]
fn build_key_copies_cubemap_identity_and_face_size() {
    let source = SkyboxIblSource::Cubemap(CubemapIblSource {
        material_asset_id: 21,
        material_generation: 5,
        route_hash: 99,
        asset_id: 7,
        allocation_generation: 1,
        mip_levels_resident: 1,
        content_generation: 1,
        storage_v_inverted: false,
    });
    let key = build_key(&source, 256);
    assert_eq!(key, cubemap_key(1, 1, 5, 1, 256));
    assert_eq!(key.face_size(), 256);
}

#[test]
fn build_key_distinguishes_runtime_and_solid_sources() {
    let runtime = build_key(
        &SkyboxIblSource::RuntimeCubemap(RuntimeCubemapIblSource {
            render_space_id: 7,
            renderable_index: 2,
            generation: 5,
            mip_levels: 1,
            storage_v_inverted: true,
        }),
        128,
    );
    assert_eq!(runtime, runtime_cubemap_key(true));
    let solid = build_key(&SkyboxIblSource::SolidColor { identity: 3, color_hash: 9 }, 64);
    assert_eq!(solid, SkyboxIblKey::SolidColor { identity: 3, color_hash: 9, face_size: 64 });
    assert_ne!(solid, build_key(&SkyboxIblSource::SolidColor { identity: 3, color_hash: 10 }, 64));
}

#[test]
fn ibl_bake_scheduling_skips_known_keys_and_full_queues() {
    assert_eq!(MAX_IN_FLIGHT_IBL_BAKES, 2);
    assert!(should_schedule_ibl_bake(false, false, false, 0));
    assert!(should_schedule_ibl_bake(false, false, false, 1));
    assert!(!should_schedule_ibl_bake(false, false, false, 2));
    assert!(!should_schedule_ibl_bake(true, false, false, 0));
    assert!(!should_schedule_ibl_bake(false, true, false, 0));
    assert!(!should_schedule_ibl_bake(false, false, true, 0));
}
