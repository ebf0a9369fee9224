use kmrp::event::RecordedEvent;
use kmrp::playback::{PlaybackError, WaitAction, prepare_playback, wait_action};

fn ev(time_us: u64, event_type: u16, code: u16, value: i32) -> RecordedEvent {
    RecordedEvent { time_us, event_type, code, value }
}

#[test]
fn refuses_empty_macros() {
    assert_eq!(prepare_playback(Vec::new(), false, false), Err(PlaybackError::NoEvents));
    assert_eq!(PlaybackError::NoEvents.message(), "Macro contains no events.");
}

#[test]
fn refuses_macros_emptied_by_filters() {
    let events = vec![ev(1, 2, 0, 3), ev(2, 1, 272, 1)];
    assert_eq!(prepare_playback(events, true, false), Err(PlaybackError::NothingToPlay));
    assert_eq!(PlaybackError::NothingToPlay.message(), "No events left to play back after filtering.");
}

#[test]
fn orders_and_filters_the_events_to_play() {
    let events = vec![ev(9, 1, 30, 0), ev(2, 2, 0, 3), ev(4, 1, 30, 1), ev(2, 0, 0, 0), ev(9, 1, 31, 1)];
    let played = prepare_playback(events, true, false).unwrap();
    assert_eq!(played, vec![ev(2, 0, 0, 0), ev(4, 1, 30, 1), ev(9, 1, 30, 0), ev(9, 1, 31, 1)]);
}

#[test]
fn waits_until_each_event_is_due() {
    assert_eq!(wait_action(100, 100), WaitAction::Emit);
    assert_eq!(wait_action(200, 100), WaitAction::Emit);
    assert_eq!(wait_action(0, 3000), WaitAction::Spin);
    assert_eq!(wait_action(0, 3001), WaitAction::Sleep(2001));
    assert_eq!(wait_action(1000, 11000), WaitAction::Sleep(9000));
}
