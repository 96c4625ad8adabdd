use open_station::joysticks::JoystickSlots;

fn names(slots: &JoystickSlots) -> Vec<(u8, String)> {
    slots.joystick_info().into_iter().map(|j| (j.slot, j.uuid)).collect()
}

#[test]
fn devices_fill_empty_slots_in_order() {
    let mut slots = JoystickSlots::new(Vec::new());
    slots.on_device_connected("a".to_string(), "Pad A".to_string(), 10);
    slots.on_device_connected("b".to_string(), "Pad B".to_string(), 11);
    assert_eq!(names(&slots), vec![(0, "a".to_string()), (1, "b".to_string())]);
    let info = slots.joystick_info();
    assert_eq!(info[0].name, "Pad A");
    assert_eq!((info[0].axis_count, info[0].button_count, info[0].pov_count), (6, 10, 1));
    assert!(slots.any_connected());
    assert_eq!(
        slots.connected_devices(),
        vec![Some(10), Some(11), None, None, None, None]
    );
}

#[test]
fn locked_device_returns_to_its_slot() {
    let mut slots = JoystickSlots::new(vec![("pad".to_string(), 4)]);
    slots.on_device_connected("pad".to_string(), "Pad".to_string(), 3);
    assert_eq!(names(&slots), vec![(4, "pad".to_string())]);
    assert!(slots.joystick_info()[0].locked);
    slots.on_device_disconnected(3);
    let info = slots.joystick_info();
    assert_eq!(info.len(), 1);
    assert!(!info[0].connected);
    assert!(!slots.any_connected());
    slots.on_device_connected("pad".to_string(), "Pad".to_string(), 8);
    assert_eq!(slots.connected_devices()[4], Some(8));
}

#[test]
fn unlocked_device_leaves_on_disconnect() {
    let mut slots = JoystickSlots::new(Vec::new());
    slots.on_device_connected("a".to_string(), "A".to_string(), 1);
    slots.on_device_disconnected(1);
    assert!(slots.joystick_info().is_empty());
    slots.on_device_disconnected(99);
    assert!(slots.joystick_info().is_empty());
}

#[test]
fn lock_unlock_and_rescan() {
    let mut slots = JoystickSlots::new(Vec::new());
    slots.on_device_connected("a".to_string(), "A".to_string(), 1);
    slots.on_device_connected("b".to_string(), "B".to_string(), 2);
    slots.lock("b", 0);
    assert_eq!(slots.locked_slot_of("b"), None);
    slots.lock("b", 1);
    assert_eq!(slots.locked_slot_of("b"), Some(1));
    slots.clear_unlocked();
    assert_eq!(names(&slots), vec![(1, "b".to_string())]);
    slots.unlock("b");
    assert_eq!(slots.locked_slot_of("b"), None);
    slots.clear_unlocked();
    assert!(slots.joystick_info().is_empty());
}

#[test]
fn reorder_moves_named_devices_first() {
    let mut slots = JoystickSlots::new(Vec::new());
    for (i, id) in ["a", "b", "c"].iter().enumerate() {
        slots.on_device_connected(id.to_string(), id.to_uppercase(), i);
    }
    slots.reorder(vec!["c".to_string(), "x".to_string()]);
    assert_eq!(
        names(&slots),
        vec![(0, "c".to_string()), (1, "a".to_string()), (2, "b".to_string())]
    );
    slots.reorder(vec!["b".to_string(), "a".to_string(), "c".to_string()]);
    assert_eq!(
        names(&slots),
        vec![(0, "b".to_string()), (1, "a".to_string()), (2, "c".to_string())]
    );
}
