use kmrp::event::{RecordedEvent, keep_event, filter_events, is_mouse_event, is_keyboard_event};
use kmrp::playback::{is_abort_key, virtual_device_codes, virtual_device_sets};
use kmrp::record::{
    InputAction, trim_exit_events, finish_recording, has_mouse_buttons, keep_device, recording_setup_error,
    is_permission_error,
    input_action_events, mouse_move_events,
};
use kmrp::keys::InputKey;

fn ev(time_us: u64, event_type: u16, code: u16, value: i32) -> RecordedEvent {
    RecordedEvent { time_us, event_type, code, value }
}

#[test]
fn classifies_mouse_and_keyboard_events() {
    assert!(is_mouse_event(2, 0));
    assert!(is_mouse_event(1, 272));
    assert!(is_mouse_event(1, 287));
    assert!(!is_mouse_event(1, 288));
    assert!(!is_mouse_event(1, 30));
    assert!(is_keyboard_event(1, 30));
    assert!(!is_keyboard_event(1, 272));
    assert!(!is_keyboard_event(0, 0));
}

#[test]
fn keeps_events_by_filters() {
    assert!(keep_event(1, 30, true, false));
    assert!(!keep_event(1, 30, false, true));
    assert!(!keep_event(2, 0, true, false));
    assert!(!keep_event(1, 273, true, false));
    assert!(keep_event(0, 0, true, false));
    assert!(!keep_event(0, 0, true, true));
    assert!(keep_event(4, 4, true, true));
}

#[test]
fn filters_events_in_order() {
    let events = vec![ev(1, 1, 30, 1), ev(2, 2, 0, 5), ev(3, 0, 0, 0), ev(4, 1, 272, 1), ev(5, 1, 31, 0)];
    assert_eq!(filter_events(&events, false, false), events);
    assert_eq!(filter_events(&events, true, false), vec![ev(1, 1, 30, 1), ev(3, 0, 0, 0), ev(5, 1, 31, 0)]);
    assert_eq!(filter_events(&events, false, true), vec![ev(2, 2, 0, 5), ev(3, 0, 0, 0), ev(4, 1, 272, 1)]);
    assert_eq!(filter_events(&events, true, true), Vec::<RecordedEvent>::new());
}

#[test]
fn trims_trailing_exit_keys() {
    let mut events = vec![ev(1, 1, 30, 1), ev(2, 1, 30, 0), ev(3, 1, 16, 1), ev(4, 0, 0, 0), ev(5, 1, 1, 1)];
    trim_exit_events(&mut events);
    assert_eq!(events, vec![ev(1, 1, 30, 1), ev(2, 1, 30, 0)]);
    trim_exit_events(&mut events);
    assert_eq!(events.len(), 2);
    let mut only_exit = vec![ev(1, 1, 1, 1), ev(2, 0, 0, 0)];
    trim_exit_events(&mut only_exit);
    assert!(only_exit.is_empty());
    let mut inner = vec![ev(1, 1, 16, 1), ev(2, 1, 30, 1)];
    trim_exit_events(&mut inner);
    assert_eq!(inner.len(), 2);
}

#[test]
fn finishes_recording_sorted_and_trimmed() {
    let events = vec![ev(30, 1, 16, 1), ev(10, 1, 30, 1), ev(20, 2, 0, 3), ev(10, 1, 31, 1), ev(31, 0, 0, 0)];
    let done = finish_recording(events);
    assert_eq!(done, vec![ev(10, 1, 30, 1), ev(10, 1, 31, 1), ev(20, 2, 0, 3)]);
}

#[test]
fn recognises_abort_keys() {
    assert!(is_abort_key(1, 1, 1));
    assert!(is_abort_key(1, 16, 1));
    assert!(!is_abort_key(1, 16, 0));
    assert!(!is_abort_key(1, 30, 1));
    assert!(!is_abort_key(2, 1, 1));
}

#[test]
fn selects_recording_devices() {
    assert!(has_mouse_buttons(&vec![30, 31, 272]));
    assert!(!has_mouse_buttons(&vec![30, 31, 288]));
    // a keyboard
    assert!(keep_device(true, false, false, false, false));
    assert!(!keep_device(true, false, false, false, true));
    // a mouse
    assert!(keep_device(true, true, true, false, true));
    assert!(!keep_device(true, true, true, true, false));
    // neither keys nor motion
    assert!(!keep_device(false, false, false, false, false));
}

#[test]
fn reports_recording_setup_errors() {
    assert_eq!(
        recording_setup_error(true),
        "Permission denied: Cannot access input devices in /dev/input/. Please run as root or add user to group."
    );
    assert_eq!(
        recording_setup_error(false),
        "No compatible keyboard or mouse input devices found in /dev/input/."
    );
}

#[test]
fn lists_virtual_device_codes() {
    let events = vec![ev(1, 1, 30, 1), ev(2, 2, 11, 1), ev(3, 1, 30, 0), ev(4, 0, 0, 0)];
    let (mut keys, mut axes) = virtual_device_codes(&events);
    keys.sort();
    keys.dedup();
    axes.sort();
    axes.dedup();
    assert_eq!(keys, vec![30, 272, 273, 274]);
    assert_eq!(axes, vec![0, 1, 6, 8, 11]);
}

#[test]
fn records_hook_inputs() {
    assert_eq!(input_action_events(InputAction::KeyPress(InputKey::KeyA), 5, false, false), vec![ev(5, 1, 30, 1)]);
    assert_eq!(input_action_events(InputAction::KeyRelease(InputKey::Escape), 6, false, false), vec![ev(6, 1, 1, 0)]);
    assert!(input_action_events(InputAction::KeyPress(InputKey::KeyA), 5, false, true).is_empty());
    assert!(input_action_events(InputAction::KeyPress(InputKey::Other), 5, false, false).is_empty());
    assert_eq!(input_action_events(InputAction::ButtonPress(1), 7, false, false), vec![ev(7, 1, 273, 1)]);
    assert!(input_action_events(InputAction::ButtonRelease(1), 7, true, false).is_empty());
    assert_eq!(
        input_action_events(InputAction::Wheel { delta_x: 2, delta_y: -1 }, 8, false, false),
        vec![ev(8, 2, 8, -1), ev(8, 2, 6, 2), ev(8, 0, 0, 0)]
    );
    assert!(input_action_events(InputAction::Wheel { delta_x: 0, delta_y: 0 }, 8, false, false).is_empty());
    assert_eq!(
        input_action_events(InputAction::Wheel { delta_x: 0, delta_y: 4294967297 }, 9, false, false),
        vec![ev(9, 2, 8, 1), ev(9, 0, 0, 0)]
    );
    assert_eq!(mouse_move_events(3, 4, 0), vec![ev(3, 2, 0, 4), ev(3, 0, 0, 0)]);
    assert_eq!(mouse_move_events(3, -2, 5), vec![ev(3, 2, 0, -2), ev(3, 2, 1, 5), ev(3, 0, 0, 0)]);
    assert!(mouse_move_events(3, 0, 0).is_empty());
}

#[test]
fn a_finished_recording_is_ordered_and_ends_cleanly() {
    let events = vec![ev(9, 0, 0, 0), ev(3, 1, 44, 1), ev(8, 1, 1, 1), ev(1, 2, 0, 1), ev(3, 1, 44, 0)];
    let done = finish_recording(events);
    assert!(done.windows(2).all(|w| w[0].time_us <= w[1].time_us));
    let last = done.last().unwrap();
    assert!(!(last.event_type == 0 || (last.event_type == 1 && (last.code == 1 || last.code == 16))));
    assert_eq!(done, vec![ev(1, 2, 0, 1), ev(3, 1, 44, 1), ev(3, 1, 44, 0)]);
}

#[test]
fn names_recordings_and_devices() {
    assert_eq!(kmrp::record::recording_name("  demo \n"), Some("demo".to_string()));
    assert_eq!(kmrp::record::recording_name("\u{3000}take two\t"), Some("take two".to_string()));
    assert_eq!(kmrp::record::recording_name(" \t\n"), None);
    assert_eq!(kmrp::record::recording_name(""), None);
    assert!(kmrp::event::is_event_device("event3"));
    assert!(!kmrp::event::is_event_device("mouse0"));
    assert!(!kmrp::event::is_event_device("even"));
    assert!(kmrp::playback::abort_listener_device("AT Translated Set 2 keyboard", true));
    assert!(!kmrp::playback::abort_listener_device("Virtual Macro Device", true));
    assert!(!kmrp::playback::abort_listener_device("Optical Mouse", false));
}

#[test]
fn high_button_numbers_leave_the_mouse_range() {
    let events = input_action_events(InputAction::ButtonPress(20), 1, false, true);
    assert_eq!(events, vec![ev(1, 1, 292, 1)]);
    assert!(is_keyboard_event(events[0].event_type, events[0].code));
}

#[test]
fn tells_permission_errors_apart() {
    assert!(is_permission_error(&recording_setup_error(true)));
    assert!(!is_permission_error(&recording_setup_error(false)));
    assert!(is_permission_error(
        "Permission denied: Accessibility permissions are required to record inputs."
    ));
    assert!(is_permission_error("open failed: Permission denied (os error 13)"));
    assert!(!is_permission_error("permission denied"));
    assert!(!is_permission_error("Permission denie"));
    assert!(!is_permission_error(""));
}

#[test]
fn fills_virtual_device_sets() {
    let events = vec![ev(1, 1, 30, 1), ev(2, 2, 11, 1), ev(3, 1, 30, 0), ev(4, 0, 0, 0), ev(5, 1, 767, 1)];
    let (keys, axes) = virtual_device_sets(&events);
    let key_codes: Vec<u16> = keys.set.iter().map(|k| k.0).collect();
    let axis_codes: Vec<u16> = axes.set.iter().map(|a| a.0).collect();
    assert_eq!(key_codes, vec![30, 272, 273, 274, 767]);
    assert_eq!(axis_codes, vec![0, 1, 6, 8, 11]);
    let (keys, axes) = virtual_device_sets(&Vec::new());
    assert_eq!(keys.set.iter().map(|k| k.0).collect::<Vec<u16>>(), vec![272, 273, 274]);
    assert_eq!(axes.set.iter().map(|a| a.0).collect::<Vec<u16>>(), vec![0, 1, 6, 8]);
}
