use renderide_prep::upload_slot::{
    next_slot_capacity, select_writable_slot, UploadArenaSlot, UploadArenaSlotState, UPLOAD_ARENA_SLOTS,
};

fn empty_slots() -> [UploadArenaSlot; UPLOAD_ARENA_SLOTS] {
    [UploadArenaSlot::empty(), UploadArenaSlot::empty(), UploadArenaSlot::empty()]
}

#[test]
fn slot_capacity_grows_to_power_of_two_with_default_floor() {
    assert_eq!(next_slot_capacity(64, 0, 8 * 1024 * 1024), Some(1024 * 1024));
    assert_eq!(
        next_slot_capacity(2 * 1024 * 1024 + 1, 1024 * 1024, 8 * 1024 * 1024),
        Some(4 * 1024 * 1024)
    );
}

#[test]
fn slot_capacity_clamps_to_device_max_without_underallocating() {
    assert_eq!(next_slot_capacity(900, 0, 1000), Some(1000));
    assert_eq!(next_slot_capacity(1001, 0, 1000), None);
}

#[test]
fn select_writable_slot_prefers_existing_capacity() {
    let mut slots = empty_slots();
    slots[0].state = UploadArenaSlotState::Free;
    slots[0].capacity = 64;
    slots[1].state = UploadArenaSlotState::Free;
    slots[1].capacity = 1024;

    assert_eq!(select_writable_slot(&slots, 512), Some(1));
}

#[test]
fn select_writable_slot_uses_empty_before_growing_small_free_slot() {
    let mut slots = empty_slots();
    slots[0].state = UploadArenaSlotState::Free;
    slots[0].capacity = 64;

    assert_eq!(select_writable_slot(&slots, 512), Some(1));
}

#[test]
fn select_writable_slot_returns_none_when_all_slots_are_busy() {
    let mut slots = empty_slots();
    for (i, slot) in slots.iter_mut().enumerate() {
        slot.state = UploadArenaSlotState::InFlight { generation: i as u64 + 1 };
    }

    assert_eq!(select_writable_slot(&slots, 512), None);
}

#[test]
fn select_writable_slot_grows_free_slot_when_nothing_else_is_writable() {
    let mut slots = empty_slots();
    slots[0].state = UploadArenaSlotState::Free;
    slots[0].capacity = 64;
    slots[1].state = UploadArenaSlotState::Writing { generation: 3 };
    slots[2].state = UploadArenaSlotState::Remapping { generation: 2 };

    assert_eq!(select_writable_slot(&slots, 512), Some(0));
}

#[test]
fn slot_capacity_doubles_current_capacity_and_rejects_empty_requests() {
    assert_eq!(next_slot_capacity(100, 2 * 1024 * 1024, 8 * 1024 * 1024), Some(4 * 1024 * 1024));
    assert_eq!(next_slot_capacity(100, 6 * 1024 * 1024, 8 * 1024 * 1024), Some(8 * 1024 * 1024));
    assert_eq!(next_slot_capacity(0, 0, 8 * 1024 * 1024), None);
}
