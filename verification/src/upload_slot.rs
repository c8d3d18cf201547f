//! Persistent upload arena slot lifecycle, slot selection, and slot growth policy.
use vstd::prelude::*;

verus! {

/// Number of persistent upload arena slots.
pub const UPLOAD_ARENA_SLOTS: usize = 3;

/// Floor capacity of one persistent slot.
pub const DEFAULT_SLOT_BYTES: u64 = 1024 * 1024;

/// Lifecycle of one persistent upload arena slot.
#[derive(Clone, Copy, Debug, PartialEq, Eq, Structural)]
pub enum UploadArenaSlotState {
    /// No buffer has been allocated for this slot yet.
    Empty,
    /// Buffer is mapped and available for a new frame's writes.
    Free,
    /// Buffer is currently being filled on the main thread.
    Writing {
        /// Frame generation that owns the write.
        generation: u64,
    },
    /// Buffer is referenced by submitted GPU work.
    InFlight {
        /// Frame generation that submitted the slot.
        generation: u64,
    },
    /// GPU work completed; the buffer is waiting for its remap to finish.
    Remapping {
        /// Frame generation being remapped.
        generation: u64,
    },
}

impl UploadArenaSlotState {
    /// Whether a slot in this state may receive a new frame's writes.
    pub open spec fn spec_can_write(self) -> bool {
        self is Empty || self is Free
    }

    /// Returns whether a slot in this state may receive a new frame's writes.
    pub fn can_write(self) -> (r: bool)
        ensures
            r == self.spec_can_write(),
    {
        matches!(self, UploadArenaSlotState::Empty | UploadArenaSlotState::Free)
    }
}

/// Bookkeeping for one persistent upload arena slot (its GPU buffer is owned by the caller).
#[derive(Clone, Copy, Debug, PartialEq, Eq)]
pub struct UploadArenaSlot {
    /// Allocated buffer capacity in bytes.
    pub capacity: u64,
    /// Lifecycle state.
    pub state: UploadArenaSlotState,
}

impl UploadArenaSlot {
    /// A slot with no buffer.
    pub fn empty() -> (r: Self)
        ensures
            r.capacity == 0,
            r.state == UploadArenaSlotState::Empty,
    {
        UploadArenaSlot { capacity: 0, state: UploadArenaSlotState::Empty }
    }
}

/// Slot `i` can take `required` bytes without growing.
pub open spec fn fits_without_growth(slot: UploadArenaSlot, required: u64) -> bool {
    slot.state.spec_can_write() && slot.capacity >= required
}

/// `i` is the first index of `slots` satisfying `p`.
pub open spec fn is_first_where(slots: Seq<UploadArenaSlot>, i: int, p: spec_fn(UploadArenaSlot) -> bool) -> bool {
    &&& 0 <= i < slots.len()
    &&& p(slots[i])
    &&& forall|j: int| 0 <= j < i ==> !p(#[trigger] slots[j])
}

/// No slot satisfies `p`.
pub open spec fn none_where(slots: Seq<UploadArenaSlot>, p: spec_fn(UploadArenaSlot) -> bool) -> bool {
    forall|j: int| 0 <= j < slots.len() ==> !p(#[trigger] slots[j])
}

/// Slot selection: first writable slot that already fits, else the first empty slot, else the
/// first free slot (which will grow), else none.
pub open spec fn spec_select_writable_slot(slots: Seq<UploadArenaSlot>, required: u64, r: Option<usize>) -> bool {
    let fits = |s: UploadArenaSlot| fits_without_growth(s, required);
    let is_empty = |s: UploadArenaSlot| s.state is Empty;
    let is_free = |s: UploadArenaSlot| s.state is Free;
    match r {
        Some(i) => {
            ||| is_first_where(slots, i as int, fits)
            ||| none_where(slots, fits) && is_first_where(slots, i as int, is_empty)
            ||| none_where(slots, fits) && none_where(slots, is_empty) && is_first_where(slots, i as int, is_free)
        },
        None => none_where(slots, fits) && none_where(slots, is_empty) && none_where(slots, is_free),
    }
}

/// Picks the slot that receives this frame's staged writes.
pub fn select_writable_slot(slots: &[UploadArenaSlot; UPLOAD_ARENA_SLOTS], required: u64) -> (r: Option<usize>)
    ensures
        spec_select_writable_slot(slots@, required, r),
{
    let mut i: usize = 0;
    while i < UPLOAD_ARENA_SLOTS
        invariant
            i <= UPLOAD_ARENA_SLOTS,
            slots@.len() == UPLOAD_ARENA_SLOTS,
            forall|j: int| 0 <= j < i ==> !fits_without_growth(#[trigger] slots@[j], required),
        decreases UPLOAD_ARENA_SLOTS - i,
    {
        if slots[i].state.can_write() && slots[i].capacity >= required {
            return Some(i);
        }
        i += 1;
    }
    let mut i: usize = 0;
    while i < UPLOAD_ARENA_SLOTS
        invariant
            i <= UPLOAD_ARENA_SLOTS,
            slots@.len() == UPLOAD_ARENA_SLOTS,
            forall|j: int| 0 <= j < UPLOAD_ARENA_SLOTS ==> !fits_without_growth(#[trigger] slots@[j], required),
            forall|j: int| 0 <= j < i ==> !((#[trigger] slots@[j]).state is Empty),
        decreases UPLOAD_ARENA_SLOTS - i,
    {
        if matches!(slots[i].state, UploadArenaSlotState::Empty) {
            return Some(i);
        }
        i += 1;
    }
    let mut i: usize = 0;
    while i < UPLOAD_ARENA_SLOTS
        invariant
            i <= UPLOAD_ARENA_SLOTS,
            slots@.len() == UPLOAD_ARENA_SLOTS,
            forall|j: int| 0 <= j < UPLOAD_ARENA_SLOTS ==> !fits_without_growth(#[trigger] slots@[j], required),
            forall|j: int| 0 <= j < UPLOAD_ARENA_SLOTS ==> !((#[trigger] slots@[j]).state is Empty),
            forall|j: int| 0 <= j < i ==> !((#[trigger] slots@[j]).state is Free),
        decreases UPLOAD_ARENA_SLOTS - i,
    {
        if matches!(slots[i].state, UploadArenaSlotState::Free) {
            return Some(i);
        }
        i += 1;
    }
    None
}

/// Smallest power of two that is at least `t`, searching upward from the power of two `p`.
pub open spec fn next_pow2_from(p: nat, t: nat) -> nat
    decreases (if p < t { t - p } else { 0 }),
{
    if p == 0 || p >= t {
        p
    } else {
        next_pow2_from(2 * p, t)
    }
}

/// Smallest power of two that is at least `t` (one for `t <= 1`).
pub open spec fn next_pow2(t: nat) -> nat {
    next_pow2_from(1, t)
}

/// Larger of two integers.
pub open spec fn max_u(a: int, b: int) -> int {
    if a >= b {
        a
    } else {
        b
    }
}

/// Growth target before rounding: the default floor, the request, and double the current size.
pub open spec fn slot_growth_target(required: int, current: int) -> int {
    max_u(max_u(DEFAULT_SLOT_BYTES as int, required), if 2 * current > u64::MAX { u64::MAX as int } else { 2 * current })
}

/// Capacity of a grown slot: the growth target rounded up to a power of two (or the device maximum
/// when that rounding does not fit in 64 bits), clamped to the device maximum, never below the
/// request. `None` for empty requests and requests larger than the device maximum.
pub open spec fn spec_next_slot_capacity(required: u64, current: u64, max_buffer_size: u64) -> Option<u64> {
    if required == 0 || required > max_buffer_size {
        None
    } else {
        let target = slot_growth_target(required as int, current as int);
        let rounded = if next_pow2(target as nat) <= u64::MAX { next_pow2(target as nat) as int } else { max_buffer_size as int };
        let clamped = if rounded <= max_buffer_size { rounded } else { max_buffer_size as int };
        Some(max_u(clamped, required as int) as u64)
    }
}

proof fn lemma_next_pow2_step(p: nat, t: nat)
    requires
        p >= 1,
        p < t,
    ensures
        next_pow2_from(p, t) == next_pow2_from(2 * p, t),
{
}

/// Power-of-two rounding of `target`, or `None` when it does not fit in 64 bits.
fn checked_next_pow2(target: u64) -> (r: Option<u64>)
    ensures
        r == (if next_pow2(target as nat) <= u64::MAX { Some(next_pow2(target as nat) as u64) } else { None::<u64> }),
{
    let mut p: u64 = 1;
    while p < target
        invariant
            p >= 1,
            next_pow2_from(p as nat, target as nat) == next_pow2(target as nat),
        decreases (if p < target { target - p } else { 0 }),
    {
        if p > u64::MAX / 2 {
            proof {
                lemma_next_pow2_step(p as nat, target as nat);
                lemma_next_pow2_ge(2 * p as nat, target as nat);
            }
            return None;
        }
        proof {
            lemma_next_pow2_step(p as nat, target as nat);
        }
        p = p * 2;
    }
    Some(p)
}

/// The upward search never returns less than its starting point.
proof fn lemma_next_pow2_ge(p: nat, t: nat)
    requires
        p >= 1,
    ensures
        next_pow2_from(p, t) >= p,
    decreases (if p < t { t - p } else { 0 }),
{
    if p < t {
        lemma_next_pow2_ge(2 * p, t);
    }
}

/// Capacity for a persistent slot that must hold `required` bytes.
pub fn next_slot_capacity(required: u64, current: u64, max_buffer_size: u64) -> (r: Option<u64>)
    ensures
        r == spec_next_slot_capacity(required, current, max_buffer_size),
{
    if required == 0 || required > max_buffer_size {
        return None;
    }
    let doubled: u64 = if current > u64::MAX / 2 { u64::MAX } else { current * 2 };
    let floor: u64 = if DEFAULT_SLOT_BYTES >= required { DEFAULT_SLOT_BYTES } else { required };
    let target: u64 = if floor >= doubled { floor } else { doubled };
    let rounded: u64 = match checked_next_pow2(target) {
        Some(p) => p,
        None => max_buffer_size,
    };
    let clamped: u64 = if rounded <= max_buffer_size { rounded } else { max_buffer_size };
    Some(if clamped >= required { clamped } else { required })
}

} // verus!
