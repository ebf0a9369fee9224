use kmrp::event::RecordedEvent;
use kmrp::keys::{InputKey, evdev_to_rdev_key, rdev_key_to_evdev};
use kmrp::order::stable_sort;

fn ev(time_us: u64, code: u16) -> RecordedEvent {
    RecordedEvent { time_us, event_type: 1, code, value: 1 }
}

#[test]
fn sorts_by_time_keeping_ties_in_order() {
    let events = vec![ev(5, 1), ev(3, 2), ev(5, 3), ev(1, 4), ev(3, 5), ev(5, 6)];
    let sorted = stable_sort(events);
    let codes: Vec<u16> = sorted.iter().map(|e| e.code).collect();
    assert_eq!(codes, vec![4, 2, 5, 1, 3, 6]);
    assert!(stable_sort(Vec::<RecordedEvent>::new()).is_empty());
}

#[test]
fn key_codes_follow_the_linux_table() {
    assert_eq!(rdev_key_to_evdev(InputKey::Escape), 1);
    assert_eq!(rdev_key_to_evdev(InputKey::KeyQ), 16);
    assert_eq!(rdev_key_to_evdev(InputKey::Space), 57);
    assert_eq!(rdev_key_to_evdev(InputKey::MetaRight), 126);
    assert_eq!(rdev_key_to_evdev(InputKey::Other), 0);
    assert_eq!(evdev_to_rdev_key(30), Some(InputKey::KeyA));
    assert_eq!(evdev_to_rdev_key(119), Some(InputKey::Pause));
    assert_eq!(evdev_to_rdev_key(0), None);
    assert_eq!(evdev_to_rdev_key(84), None);
    assert_eq!(evdev_to_rdev_key(272), None);
}

#[test]
fn key_codes_round_trip() {
    let mut named = 0;
    for code in 0u16..300 {
        if let Some(k) = evdev_to_rdev_key(code) {
            assert_eq!(rdev_key_to_evdev(k), code);
            named += 1;
        }
    }
    assert_eq!(named, 103);
}
