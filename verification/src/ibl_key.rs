//! Image-based-lighting bake keys and the integer mip/dispatch helpers used by the bake passes.
use vstd::arithmetic::power2::{lemma2_to64, lemma_pow2_unfold, pow2};
use vstd::bits::{lemma_u32_shl_is_mul, lemma_u32_shr_is_div};
use vstd::prelude::*;

verus! {

/// Compute workgroup edge used by every mip-0 producer and the GGX convolve.
pub const IBL_WORKGROUP_EDGE: u32 = 8;

/// Base GGX importance sample count for mip 1; doubles per mip up to [`IBL_MAX_SAMPLES`].
pub const IBL_BASE_SAMPLE_COUNT: u32 = 64;

/// Cap on GGX importance sample count for the highest-roughness mips.
pub const IBL_MAX_SAMPLES: u32 = 1024;

/// Smaller of two integers.
pub open spec fn min_int(a: int, b: int) -> int {
    if a <= b {
        a
    } else {
        b
    }
}

/// Larger of two integers.
pub open spec fn max_int(a: int, b: int) -> int {
    if a >= b {
        a
    } else {
        b
    }
}

/// Number of times `edge` can be halved before it reaches zero (its binary length).
pub open spec fn bit_length(edge: nat) -> nat
    decreases edge,
{
    if edge == 0 {
        0
    } else {
        1 + bit_length(edge / 2)
    }
}

/// Binary length is characterised by `2^(len-1) <= edge < 2^len` for positive `edge`.
pub proof fn lemma_bit_length_bounds(edge: nat)
    requires
        edge >= 1,
    ensures
        bit_length(edge) >= 1,
        pow2((bit_length(edge) - 1) as nat) <= edge,
        edge < pow2(bit_length(edge)),
    decreases edge,
{
    if edge / 2 >= 1 {
        let h = edge / 2;
        lemma_bit_length_bounds(h);
        let l = bit_length(h);
        assert(bit_length(edge) == l + 1);
        lemma_pow2_unfold(l);
        lemma_pow2_unfold(l + 1);
        assert(pow2(l) == 2 * pow2((l - 1) as nat));
        assert(pow2((l + 1) as nat) == 2 * pow2(l));
        assert(((l + 1) - 1) as nat == l);
    } else {
        lemma2_to64();
        assert(edge == 1);
        assert(bit_length(0) == 0);
    }
}

/// Destination face size: the configured size clamped to the device limit, never below one texel.
pub open spec fn clamped_face_size(face_size: int, max_texture_dimension_2d: int) -> int {
    max_int(min_int(face_size, max_texture_dimension_2d), 1)
}

/// Clamps the configured cube face size against the device texture limit.
pub fn clamp_face_size(face_size: u32, max_texture_dimension_2d: u32) -> (r: u32)
    ensures
        r == clamped_face_size(face_size as int, max_texture_dimension_2d as int),
{
    let m = if face_size < max_texture_dimension_2d {
        face_size
    } else {
        max_texture_dimension_2d
    };
    if m < 1 {
        1
    } else {
        m
    }
}

/// Identity for one IBL bake.
#[derive(Clone, Copy, Debug, PartialEq, Eq, Structural, Hash)]
pub enum SkyboxIblKey {
    /// Host-uploaded cubemap identity.
    Cubemap {
        /// Material asset id when this source came from a material, or `-1` for direct probe sources.
        material_asset_id: i32,
        /// Material property generation when this source came from a material.
        material_generation: u64,
        /// Stable hash of the shader route stem when this source came from a material.
        route_hash: u64,
        /// Source cubemap asset id.
        asset_id: i32,
        /// Source GPU allocation generation.
        allocation_generation: u64,
        /// Source resident mip count; growth re-bakes once more mips arrive.
        mip_levels_resident: u32,
        /// Source content generation; re-uploading the same mips re-bakes.
        content_generation: u64,
        /// Storage V-flip flag for the source cube.
        storage_v_inverted: bool,
        /// Destination cube face edge.
        face_size: u32,
    },
    /// Constant-color reflection-probe identity.
    SolidColor {
        /// Renderer-side identity for this color source.
        identity: u64,
        /// Linear RGBA color bit hash.
        color_hash: u64,
        /// Destination cube face edge.
        face_size: u32,
    },
    /// Renderer-captured OnChanges reflection-probe cubemap identity.
    RuntimeCubemap {
        /// Render space that owns the captured probe.
        render_space_id: i32,
        /// Dense reflection-probe renderable index.
        renderable_index: i32,
        /// Monotonic renderer-side capture generation.
        generation: u64,
        /// Source mip count resident on the captured cubemap.
        mip_levels: u32,
        /// Storage V-flip flag for the captured source cube.
        storage_v_inverted: bool,
        /// Destination cube face edge.
        face_size: u32,
    },
}

impl SkyboxIblKey {
    /// Destination face size recorded in any key variant.
    pub open spec fn spec_face_size(self) -> u32 {
        match self {
            SkyboxIblKey::Cubemap { face_size, .. } => face_size,
            SkyboxIblKey::SolidColor { face_size, .. } => face_size,
            SkyboxIblKey::RuntimeCubemap { face_size, .. } => face_size,
        }
    }

    /// Returns the destination face size for this bake.
    pub fn face_size(&self) -> (r: u32)
        ensures
            r == self.spec_face_size(),
    {
        match *self {
            SkyboxIblKey::Cubemap { face_size, .. } => face_size,
            SkyboxIblKey::SolidColor { face_size, .. } => face_size,
            SkyboxIblKey::RuntimeCubemap { face_size, .. } => face_size,
        }
    }
}

/// Host-uploaded cubemap source identity.
#[derive(Clone, Copy, Debug, PartialEq, Eq)]
pub struct CubemapIblSource {
    /// Material asset id, or `-1` for direct probe sources.
    pub material_asset_id: i32,
    /// Material property generation.
    pub material_generation: u64,
    /// Stable hash of the shader route stem.
    pub route_hash: u64,
    /// Source cubemap asset id.
    pub asset_id: i32,
    /// Source GPU allocation generation.
    pub allocation_generation: u64,
    /// Source resident mip count.
    pub mip_levels_resident: u32,
    /// Source content generation.
    pub content_generation: u64,
    /// Storage V-flip flag.
    pub storage_v_inverted: bool,
}

/// Renderer-captured cubemap source identity.
#[derive(Clone, Copy, Debug, PartialEq, Eq)]
pub struct RuntimeCubemapIblSource {
    /// Render space that owns the captured probe.
    pub render_space_id: i32,
    /// Dense reflection-probe renderable index.
    pub renderable_index: i32,
    /// Monotonic capture generation.
    pub generation: u64,
    /// Resident source mip count.
    pub mip_levels: u32,
    /// Storage V-flip flag.
    pub storage_v_inverted: bool,
}

/// Active reflection source, with the constant color already reduced to its bit hash.
#[derive(Clone, Copy, Debug, PartialEq, Eq)]
pub enum SkyboxIblSource {
    /// Host-uploaded cubemap.
    Cubemap(CubemapIblSource),
    /// Constant color, identified by renderer identity and the hash of its RGBA bit patterns.
    SolidColor {
        /// Renderer-side identity.
        identity: u64,
        /// Hash of the four color channel bit patterns.
        color_hash: u64,
    },
    /// Renderer-captured cubemap.
    RuntimeCubemap(RuntimeCubemapIblSource),
}

/// The bake key that identifies `source` at destination edge `face_size`.
pub open spec fn spec_build_key(source: SkyboxIblSource, face_size: u32) -> SkyboxIblKey {
    match source {
        SkyboxIblSource::Cubemap(src) => SkyboxIblKey::Cubemap {
            material_asset_id: src.material_asset_id,
            material_generation: src.material_generation,
            route_hash: src.route_hash,
            asset_id: src.asset_id,
            allocation_generation: src.allocation_generation,
            mip_levels_resident: src.mip_levels_resident,
            content_generation: src.content_generation,
            storage_v_inverted: src.storage_v_inverted,
            face_size,
        },
        SkyboxIblSource::SolidColor { identity, color_hash } => SkyboxIblKey::SolidColor {
            identity,
            color_hash,
            face_size,
        },
        SkyboxIblSource::RuntimeCubemap(src) => SkyboxIblKey::RuntimeCubemap {
            render_space_id: src.render_space_id,
            renderable_index: src.renderable_index,
            generation: src.generation,
            mip_levels: src.mip_levels,
            storage_v_inverted: src.storage_v_inverted,
            face_size,
        },
    }
}

/// Builds a cache key for an active source using an already-clamped destination face size.
pub fn build_key(source: &SkyboxIblSource, face_size: u32) -> (key: SkyboxIblKey)
    ensures
        key == spec_build_key(*source, face_size),
        key.spec_face_size() == face_size,
{
    match source {
        SkyboxIblSource::Cubemap(src) => SkyboxIblKey::Cubemap {
            material_asset_id: src.material_asset_id,
            material_generation: src.material_generation,
            route_hash: src.route_hash,
            asset_id: src.asset_id,
            allocation_generation: src.allocation_generation,
            mip_levels_resident: src.mip_levels_resident,
            content_generation: src.content_generation,
            storage_v_inverted: src.storage_v_inverted,
            face_size,
        },
        SkyboxIblSource::SolidColor { identity, color_hash } => SkyboxIblKey::SolidColor {
            identity: *identity,
            color_hash: *color_hash,
            face_size,
        },
        SkyboxIblSource::RuntimeCubemap(src) => SkyboxIblKey::RuntimeCubemap {
            render_space_id: src.render_space_id,
            renderable_index: src.renderable_index,
            generation: src.generation,
            mip_levels: src.mip_levels,
            storage_v_inverted: src.storage_v_inverted,
            face_size,
        },
    }
}

/// Distinct sources, or one source at distinct face sizes, never share a bake key.
pub proof fn lemma_build_key_injective(a: SkyboxIblSource, fa: u32, b: SkyboxIblSource, fb: u32)
    requires
        spec_build_key(a, fa) == spec_build_key(b, fb),
    ensures
        a == b,
        fa == fb,
{
}

/// Returns the full mip count for a cube face edge (mip 0 through the one-texel mip).
pub fn mip_levels_for_edge(edge: u32) -> (r: u32)
    ensures
        r == bit_length(max_int(edge as int, 1) as nat),
        1 <= r <= 32,
        pow2((r - 1) as nat) <= max_int(edge as int, 1),
        max_int(edge as int, 1) < pow2(r as nat),
{
    let mut e: u32 = if edge < 1 { 1 } else { edge };
    let ghost start = e as nat;
    let mut n: u32 = 0;
    proof {
        lemma_bit_length_bounds(start);
        lemma2_to64();
        if bit_length(start) > 32 {
            vstd::arithmetic::power2::lemma_pow2_strictly_increases(32, (bit_length(start) - 1) as nat);
        }
    }
    while e > 0
        invariant
            n + bit_length(e as nat) == bit_length(start),
            bit_length(start) <= 32,
        decreases e,
    {
        e = e / 2;
        n = n + 1;
    }
    n
}

/// Dispatch group count: `ceil(max(size, 1) / 8)`.
pub open spec fn spec_dispatch_groups(size: int) -> int {
    (max_int(size, 1) + IBL_WORKGROUP_EDGE - 1) / IBL_WORKGROUP_EDGE as int
}

/// Returns the dispatch group count along one 8x8 compute dimension.
pub fn dispatch_groups(size: u32) -> (r: u32)
    ensures
        r == spec_dispatch_groups(size as int),
        r >= 1,
{
    let s: u32 = if size < 1 { 1 } else { size };
    s / IBL_WORKGROUP_EDGE + if s % IBL_WORKGROUP_EDGE == 0 { 0 } else { 1 }
}

/// Mip edge: `base / 2^mip`, clamped to one texel.
pub open spec fn spec_mip_extent(base: int, mip: nat) -> int {
    max_int(base / pow2(mip) as int, 1)
}

/// Returns a mip edge clamped to one texel.
pub fn mip_extent(base: u32, mip: u32) -> (r: u32)
    requires
        mip < 32,
    ensures
        r == spec_mip_extent(base as int, mip as nat),
{
    let shifted = base >> mip;
    proof {
        lemma_u32_shr_is_div(base, mip);
    }
    if shifted < 1 {
        1
    } else {
        shifted
    }
}

/// GGX sample count: one for mip 0, then `64 * 2^min(mip-1, 4)` (the cap of 1024 is reached at mip 5).
pub open spec fn spec_convolve_sample_count(mip_index: int) -> int {
    if mip_index == 0 {
        1
    } else {
        min_int(IBL_BASE_SAMPLE_COUNT * pow2(min_int(mip_index - 1, 4) as nat), IBL_MAX_SAMPLES as int)
    }
}

/// Returns the GGX importance sample count for the given convolve mip.
pub fn convolve_sample_count(mip_index: u32) -> (r: u32)
    ensures
        r == spec_convolve_sample_count(mip_index as int),
        1 <= r <= IBL_MAX_SAMPLES,
{
    if mip_index == 0 {
        return 1;
    }
    let exponent: u32 = if mip_index - 1 < 4 { mip_index - 1 } else { 4 };
    proof {
        lemma2_to64();
        assert(IBL_BASE_SAMPLE_COUNT * pow2(exponent as nat) <= 1024);
        lemma_u32_shl_is_mul(IBL_BASE_SAMPLE_COUNT, exponent);
    }
    let samples = IBL_BASE_SAMPLE_COUNT << exponent;
    if samples < IBL_MAX_SAMPLES {
        samples
    } else {
        IBL_MAX_SAMPLES
    }
}

/// Maximum concurrent in-flight IBL bakes.
pub const MAX_IN_FLIGHT_IBL_BAKES: usize = 2;

/// Returns whether a source must be scheduled for baking: no completed cube, pending bake or
/// in-flight job holds its key, and fewer than [`MAX_IN_FLIGHT_IBL_BAKES`] jobs are in flight.
pub fn should_schedule_ibl_bake(completed: bool, pending: bool, in_flight: bool, in_flight_jobs: usize) -> (r: bool)
    ensures
        r == (!completed && !pending && !in_flight && in_flight_jobs < MAX_IN_FLIGHT_IBL_BAKES),
{
    !(completed || pending || in_flight || in_flight_jobs >= MAX_IN_FLIGHT_IBL_BAKES)
}

} // verus!
