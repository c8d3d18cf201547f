//! Verified CPU-side planning logic for the world-mesh and image-based-lighting renderer paths.
pub mod ibl_key;
pub mod parallel;
pub mod shared;
pub mod upload_slot;
pub mod layer_policy;
pub mod material_slots;
pub mod transform_tree;
pub mod maintenance;
pub mod collections;
pub mod prepared;
pub mod retained;
pub mod snapshot;
pub mod spatial;
pub mod lod;
pub mod command_cache;
pub mod render_world;
pub mod dirty_expansion;
pub mod arrange_order;
pub mod prepared_snapshot;
pub mod renderer_expand;
pub mod retained_refresh;
pub mod frame_maintenance;
pub mod snapshot_rebuild;
pub mod frame_prepare;
pub mod collect_plan;
pub mod arrange_bins;
pub mod frame_expand;
pub mod mesh_particles;
pub mod draw_queue;
pub mod hi_z_temporal;
