//! The decisions of macro playback: which events are replayed, in what
//! order, and how to wait for each one's moment.
use vstd::prelude::*;
use crate::event::{RecordedEvent, EV_KEY, EV_REL, KEY_ESC, KEY_Q, filter_events, kept_by};
use crate::order::{stable_sort, stably_sorted};
use crate::text::{text, same_text};
use crate::keys::{InputKey, key_code};

verus! {

/// Why a macro cannot be played back.
#[derive(Clone, Copy, Debug, PartialEq, Eq, Structural)]
pub enum PlaybackError {
    /// The macro holds no events at all.
    NoEvents,
    /// Every event of the macro was filtered out.
    NothingToPlay,
}

impl PlaybackError {
    /// The message reported for this error.
    pub fn message(&self) -> (r: String)
        ensures
            *self == PlaybackError::NoEvents ==> r@ == "Macro contains no events."@,
            *self == PlaybackError::NothingToPlay ==> r@ == "No events left to play back after filtering."@,
    {
        match self {
            PlaybackError::NoEvents => text("Macro contains no events."),
            PlaybackError::NothingToPlay => text("No events left to play back after filtering."),
        }
    }
}

/// The events to replay from a macro: those the filters keep, ordered by
/// time, events with equal times in their order in the file. Fails when the
/// macro is empty, or when nothing is left after filtering.
pub fn prepare_playback(events: Vec<RecordedEvent>, no_mouse: bool, no_keyboard: bool) -> (r: Result<Vec<RecordedEvent>, PlaybackError>)
    ensures
        (r == Err::<Vec<RecordedEvent>, PlaybackError>(PlaybackError::NoEvents)) <==> events@.len() == 0,
        (r == Err::<Vec<RecordedEvent>, PlaybackError>(PlaybackError::NothingToPlay)) <==> (events@.len() > 0
            && events@.filter(kept_by(no_mouse, no_keyboard)).len() == 0),
        r matches Ok(v) ==> v@.len() > 0 && stably_sorted(v@, events@.filter(kept_by(no_mouse, no_keyboard))),
{
    if events.len() == 0 {
        return Err(PlaybackError::NoEvents);
    }
    let kept = filter_events(&events, no_mouse, no_keyboard);
    if kept.len() == 0 {
        return Err(PlaybackError::NothingToPlay);
    }
    let sorted = stable_sort(kept);
    Ok(sorted)
}

/// What to do while waiting for an event's moment.
#[derive(Clone, Copy, Debug, PartialEq, Eq, Structural)]
pub enum WaitAction {
    /// The moment has come: send the event.
    Emit,
    /// Sleep this many microseconds, then look again.
    Sleep(u64),
    /// Spin briefly, then look again.
    Spin,
}

/// How to wait for an event due `target_us` microseconds into the playback
/// when `elapsed_us` have passed: send it once due; sleep until a
/// millisecond before it when more than three milliseconds remain; spin
/// otherwise.
pub open spec fn wait_plan(elapsed_us: u64, target_us: u64) -> WaitAction {
    if elapsed_us >= target_us {
        WaitAction::Emit
    } else if target_us - elapsed_us > 3000 {
        WaitAction::Sleep((target_us - elapsed_us - 1000) as u64)
    } else {
        WaitAction::Spin
    }
}

/// How to wait for an event's moment.
pub fn wait_action(elapsed_us: u64, target_us: u64) -> (r: WaitAction)
    ensures
        r == wait_plan(elapsed_us, target_us),
{
    if elapsed_us >= target_us {
        return WaitAction::Emit;
    }
    let remaining = target_us - elapsed_us;
    if remaining > 3000 {
        WaitAction::Sleep(remaining - 1000)
    } else {
        WaitAction::Spin
    }
}

/// An event is sent only once it is due, and a sleep always ends a
/// millisecond before the event's moment, so no event is sent late because
/// of a sleep; within the last three milliseconds the wait spins.
pub proof fn lemma_wait_never_overshoots(elapsed_us: u64, target_us: u64)
    ensures
        wait_plan(elapsed_us, target_us) == WaitAction::Emit <==> elapsed_us >= target_us,
        wait_plan(elapsed_us, target_us) matches WaitAction::Sleep(us) ==> elapsed_us + us + 1000 == target_us,
        wait_plan(elapsed_us, target_us) == WaitAction::Spin <==> elapsed_us < target_us && target_us - elapsed_us <= 3000,
{
}

/// Whether a key event pressed on a physical keyboard asks to abort a
/// playback: the escape or Q key going down.
pub open spec fn is_abort_press(event_type: u16, code: u16, value: i32) -> bool {
    event_type == EV_KEY && value == 1 && (code == KEY_ESC || code == KEY_Q)
}

/// Whether this key event aborts a playback.
pub fn is_abort_key(event_type: u16, code: u16, value: i32) -> (r: bool)
    ensures
        r == is_abort_press(event_type, code, value),
{
    event_type == EV_KEY && value == 1 && (code == KEY_ESC || code == KEY_Q)
}


/// Only a press (value 1) of the escape key (code 1) or of the Q key
/// (code 16) aborts a playback; releases, auto-repeats and other keys never
/// do. These are the codes of the keys `Escape` and `KeyQ`.
pub proof fn lemma_abort_keys(event_type: u16, code: u16, value: i32)
    ensures
        is_abort_press(event_type, code, value) <==> event_type == 1 && value == 1 && (code == 1 || code == 16),
        key_code(InputKey::Escape) == KEY_ESC && key_code(InputKey::KeyQ) == KEY_Q,
{
}

/// Whether some event of `events` has this type and code.
pub open spec fn has_event_code(events: Seq<RecordedEvent>, event_type: u16, code: u16) -> bool {
    exists|i: int| 0 <= i < events.len() && #[trigger] events[i].event_type == event_type && events[i].code == code
}

/// The key codes a virtual device replaying `events` declares: the three
/// main mouse buttons and every key that `events` presses or releases.
pub open spec fn device_key_code(events: Seq<RecordedEvent>, c: u16) -> bool {
    c == 272 || c == 273 || c == 274 || has_event_code(events, EV_KEY, c)
}

/// The relative axes a virtual device replaying `events` declares: the two
/// motion axes, both wheels, and every axis that `events` moves.
pub open spec fn device_axis_code(events: Seq<RecordedEvent>, c: u16) -> bool {
    c == 0 || c == 1 || c == 8 || c == 6 || has_event_code(events, EV_REL, c)
}

/// A virtual device declares the left, right and middle mouse buttons
/// (codes 272 to 274) and the motion axes `REL_X`, `REL_Y`, `REL_HWHEEL`
/// and `REL_WHEEL` (codes 0, 1, 6 and 8) whatever the macro holds, and
/// besides them exactly the key codes (type 1) and axis codes (type 2) that
/// the macro's events use, so every event of the macro can be replayed.
pub proof fn lemma_device_declares(events: Seq<RecordedEvent>, c: u16)
    ensures
        device_key_code(events, c) <==> (272 <= c <= 274 || exists|i: int| 0 <= i < events.len()
            && #[trigger] events[i].event_type == 1 && events[i].code == c),
        device_axis_code(events, c) <==> (c == 0 || c == 1 || c == 6 || c == 8 || exists|i: int| 0 <= i < events.len()
            && #[trigger] events[i].event_type == 2 && events[i].code == c),
{
}

/// The key codes and the relative axis codes that a virtual device needs to
/// replay `events`.
pub fn virtual_device_codes(events: &Vec<RecordedEvent>) -> (r: (Vec<u16>, Vec<u16>))
    ensures
        forall|c: u16| #[trigger] r.0@.contains(c) <==> device_key_code(events@, c),
        forall|c: u16| #[trigger] r.1@.contains(c) <==> device_axis_code(events@, c),
{
    let mut keys: Vec<u16> = vec![272, 273, 274];
    let mut axes: Vec<u16> = vec![0, 1, 8, 6];
    let mut i: usize = 0;
    while i < events.len()
        invariant
            i <= events@.len(),
            forall|c: u16| #[trigger] keys@.contains(c) <==> (c == 272 || c == 273 || c == 274
                || has_event_code(events@.take(i as int), EV_KEY, c)),
            forall|c: u16| #[trigger] axes@.contains(c) <==> (c == 0 || c == 1 || c == 8 || c == 6
                || has_event_code(events@.take(i as int), EV_REL, c)),
        decreases events@.len() - i,
    {
        let e = events[i];
        let ghost pre = events@.take(i as int);
        let ghost post = events@.take(i as int + 1);
        let ghost old_keys = keys@;
        let ghost old_axes = axes@;
        if e.event_type == EV_KEY {
            keys.push(e.code);
        } else if e.event_type == EV_REL {
            axes.push(e.code);
        }
        proof {
            assert(post =~= pre.push(e));
            assert forall|t: u16, c: u16| has_event_code(post, t, c) <==> (has_event_code(pre, t, c)
                || (e.event_type == t && e.code == c)) by {
                if has_event_code(post, t, c) {
                    let j = choose|j: int| 0 <= j < post.len() && #[trigger] post[j].event_type == t && post[j].code == c;
                    if j < pre.len() {
                        assert(pre[j] == post[j]);
                    }
                }
                if has_event_code(pre, t, c) {
                    let j = choose|j: int| 0 <= j < pre.len() && #[trigger] pre[j].event_type == t && pre[j].code == c;
                    assert(post[j] == pre[j]);
                }
                if e.event_type == t && e.code == c {
                    assert(post[i as int] == e);
                }
            }
            assert forall|c: u16| #[trigger] keys@.contains(c) <==> (c == 272 || c == 273 || c == 274
                || has_event_code(post, EV_KEY, c)) by {
                if e.event_type == EV_KEY {
                    assert(keys@ == old_keys.push(e.code));
                    if keys@.contains(c) && !old_keys.contains(c) {
                        let j = choose|j: int| 0 <= j < keys@.len() && keys@[j] == c;
                        assert(j == old_keys.len());
                    }
                    if old_keys.contains(c) {
                        let j = choose|j: int| 0 <= j < old_keys.len() && old_keys[j] == c;
                        assert(keys@[j] == c);
                    }
                    if c == e.code {
                        assert(keys@[old_keys.len() as int] == c);
                    }
                }
            }
            assert forall|c: u16| #[trigger] axes@.contains(c) <==> (c == 0 || c == 1 || c == 8 || c == 6
                || has_event_code(post, EV_REL, c)) by {
                if e.event_type == EV_REL {
                    assert(axes@ == old_axes.push(e.code));
                    if axes@.contains(c) && !old_axes.contains(c) {
                        let j = choose|j: int| 0 <= j < axes@.len() && axes@[j] == c;
                        assert(j == old_axes.len());
                    }
                    if old_axes.contains(c) {
                        let j = choose|j: int| 0 <= j < old_axes.len() && old_axes[j] == c;
                        assert(axes@[j] == c);
                    }
                    if c == e.code {
                        assert(axes@[old_axes.len() as int] == c);
                    }
                }
            }
        }
        i = i + 1;
    }
    assert(events@.take(events@.len() as int) =~= events@);
    (keys, axes)
}



/// How many key codes evdev's key sets hold: codes from 0 up to `KEY_MAX`.
pub const KEY_CODE_COUNT: u16 = 768;

/// How many relative axis codes evdev's axis sets hold: codes from 0 up to
/// `REL_MAX`.
pub const AXIS_CODE_COUNT: u16 = 16;

/// The key codes a virtual device declares, held in evdev's
/// `AttributeSet<KeyCode>`, the set the device builder takes. The field is
/// public so that the program can hand the set to evdev's device builder:
/// no function of the library can take or return the set's own type, and
/// the library never touches the field.
#[verifier::external_body]
pub struct DeviceKeys {
    pub set: evdev::AttributeSet<evdev::KeyCode>,
}

/// The relative axes a virtual device declares, held in evdev's
/// `AttributeSet<RelativeAxisCode>`; its field is public for the same
/// reason.
#[verifier::external_body]
pub struct DeviceAxes {
    pub set: evdev::AttributeSet<evdev::RelativeAxisCode>,
}

/// The key codes that `keys` holds.
pub uninterp spec fn key_codes_held(keys: DeviceKeys) -> Set<u16>;

/// The relative axis codes that `axes` holds.
pub uninterp spec fn axis_codes_held(axes: DeviceAxes) -> Set<u16>;

/// An empty key set, by evdev's `AttributeSet::new`, whose bits all start
/// cleared.
#[verifier::external_body]
fn empty_device_keys() -> (r: DeviceKeys)
    ensures
        key_codes_held(r) == Set::<u16>::empty(),
{
    DeviceKeys { set: evdev::AttributeSet::new() }
}

/// An empty axis set, by evdev's `AttributeSet::new`.
#[verifier::external_body]
fn empty_device_axes() -> (r: DeviceAxes)
    ensures
        axis_codes_held(r) == Set::<u16>::empty(),
{
    DeviceAxes { set: evdev::AttributeSet::new() }
}

/// Adds `code` to a key set, by evdev's `AttributeSetRef::insert`, which sets
/// the bit at index `code` and leaves the others; an index past the set's
/// bits panics, so `code` is below the count of key codes.
#[verifier::external_body]
fn insert_device_key(keys: &mut DeviceKeys, code: u16)
    requires
        code < KEY_CODE_COUNT,
    ensures
        key_codes_held(*final(keys)) == key_codes_held(*old(keys)).insert(code),
{
    keys.set.insert(evdev::KeyCode(code));
}

/// Adds `code` to an axis set, by evdev's `AttributeSetRef::insert`; `code`
/// is below the count of relative axis codes.
#[verifier::external_body]
fn insert_device_axis(axes: &mut DeviceAxes, code: u16)
    requires
        code < AXIS_CODE_COUNT,
    ensures
        axis_codes_held(*final(axes)) == axis_codes_held(*old(axes)).insert(code),
{
    axes.set.insert(evdev::RelativeAxisCode(code));
}

/// Whether every key and axis that `events` uses fits in evdev's sets.
pub open spec fn device_codes_fit(events: Seq<RecordedEvent>) -> bool {
    forall|i: int| 0 <= i < events.len() ==> {
        &&& (#[trigger] events[i]).event_type == EV_KEY ==> events[i].code < KEY_CODE_COUNT
        &&& events[i].event_type == EV_REL ==> events[i].code < AXIS_CODE_COUNT
    }
}

/// The key set and the axis set of the virtual device that replays
/// `events`: the codes of `virtual_device_codes`, in evdev's sets.
pub fn virtual_device_sets(events: &Vec<RecordedEvent>) -> (r: (DeviceKeys, DeviceAxes))
    requires
        device_codes_fit(events@),
    ensures
        key_codes_held(r.0) == Set::new(|c: u16| device_key_code(events@, c)),
        axis_codes_held(r.1) == Set::new(|c: u16| device_axis_code(events@, c)),
{
    let (key_list, axis_list) = virtual_device_codes(events);
    let mut keys = empty_device_keys();
    let mut i: usize = 0;
    while i < key_list.len()
        invariant
            i <= key_list@.len(),
            device_codes_fit(events@),
            forall|c: u16| #[trigger] key_list@.contains(c) <==> device_key_code(events@, c),
            key_codes_held(keys) == key_list@.take(i as int).to_set(),
        decreases key_list@.len() - i,
    {
        let c = key_list[i];
        assert(key_list@.contains(c));
        proof {
            if !(c == 272 || c == 273 || c == 274) {
                let j = choose|j: int| 0 <= j < events@.len() && #[trigger] events@[j].event_type == EV_KEY
                    && events@[j].code == c;
                assert(events@[j].code < KEY_CODE_COUNT);
            }
        }
        insert_device_key(&mut keys, c);
        assert(key_list@.take(i as int + 1) =~= key_list@.take(i as int).push(c));
        proof {
            key_list@.take(i as int).lemma_push_to_set_commute(c);
        }
        i = i + 1;
    }
    let mut axes = empty_device_axes();
    let mut i: usize = 0;
    while i < axis_list.len()
        invariant
            i <= axis_list@.len(),
            device_codes_fit(events@),
            forall|c: u16| #[trigger] axis_list@.contains(c) <==> device_axis_code(events@, c),
            axis_codes_held(axes) == axis_list@.take(i as int).to_set(),
        decreases axis_list@.len() - i,
    {
        let c = axis_list[i];
        assert(axis_list@.contains(c));
        proof {
            if !(c == 0 || c == 1 || c == 8 || c == 6) {
                let j = choose|j: int| 0 <= j < events@.len() && #[trigger] events@[j].event_type == EV_REL
                    && events@[j].code == c;
                assert(events@[j].code < AXIS_CODE_COUNT);
            }
        }
        insert_device_axis(&mut axes, c);
        assert(axis_list@.take(i as int + 1) =~= axis_list@.take(i as int).push(c));
        proof {
            axis_list@.take(i as int).lemma_push_to_set_commute(c);
        }
        i = i + 1;
    }
    assert(key_list@.take(key_list@.len() as int) =~= key_list@);
    assert(axis_list@.take(axis_list@.len() as int) =~= axis_list@);
    assert(key_codes_held(keys) =~= Set::new(|c: u16| device_key_code(events@, c)));
    assert(axis_codes_held(axes) =~= Set::new(|c: u16| device_axis_code(events@, c)));
    (keys, axes)
}

/// Whether a physical input device is watched for the abort keys during a
/// playback: it reports keys, and it is not the virtual device that replays
/// the macro.
pub fn abort_listener_device(name: &str, supports_keys: bool) -> (r: bool)
    ensures
        r == (name@ != "Virtual Macro Device"@ && supports_keys),
{
    !same_text(name, "Virtual Macro Device") && supports_keys
}

} // verus!
