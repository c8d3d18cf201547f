//! Stale-pyramid guard of temporal Hi-Z occlusion: the CPU Hi-Z snapshot is only used when its
//! base mip matches the depth viewport the temporal state was recorded for.
use vstd::prelude::*;

verus! {

/// Dimensions of one CPU Hi-Z pyramid snapshot (the depth values stay with the caller).
#[derive(Clone, Copy, Debug, PartialEq, Eq, Structural)]
pub struct HiZSnapshotDims {
    /// Width of mip 0 in texels.
    pub base_width: u32,
    /// Height of mip 0 in texels.
    pub base_height: u32,
    /// Number of mips in the pyramid.
    pub mip_levels: u32,
}

/// The Hi-Z pyramids of one view: one for desktop, one per eye for stereo.
#[derive(Clone, Copy, Debug, PartialEq, Eq, Structural)]
pub enum HiZCullDims {
    /// Single desktop pyramid.
    Desktop(HiZSnapshotDims),
    /// Left and right eye pyramids.
    Stereo {
        /// Left eye pyramid.
        left: HiZSnapshotDims,
        /// Right eye pyramid.
        right: HiZSnapshotDims,
    },
}

/// Whether the pyramid's base mip (the left eye's in stereo) has the temporal depth viewport size.
pub open spec fn spec_hi_z_snapshot_matches_temporal(hi: HiZCullDims, depth_viewport_px: (u32, u32)) -> bool {
    match hi {
        HiZCullDims::Desktop(s) => s.base_width == depth_viewport_px.0 && s.base_height == depth_viewport_px.1,
        HiZCullDims::Stereo { left, .. } => left.base_width == depth_viewport_px.0 && left.base_height == depth_viewport_px.1,
    }
}

/// Ensures CPU Hi-Z dimensions match the temporal viewport used when the pyramid was built.
pub fn hi_z_snapshot_matches_temporal(hi: &HiZCullDims, depth_viewport_px: (u32, u32)) -> (r: bool)
    ensures
        r == spec_hi_z_snapshot_matches_temporal(*hi, depth_viewport_px),
{
    let (w, h) = depth_viewport_px;
    match hi {
        HiZCullDims::Desktop(s) => s.base_width == w && s.base_height == h,
        HiZCullDims::Stereo { left, .. } => left.base_width == w && left.base_height == h,
    }
}

} // verus!
