//! Recording: which input devices are listened to, the events a desktop
//! input hook's reports become, and the cleanup of a finished recording.
use vstd::prelude::*;
use crate::event::{RecordedEvent, EV_SYN, EV_KEY, EV_REL, KEY_ESC, KEY_Q, BTN_FIRST, BTN_LAST, is_mouse_button,
    is_mouse_input, is_keyboard_input};
use crate::keys::{InputKey, key_code, rdev_key_to_evdev, lemma_key_code_roundtrip};
use crate::order::{SortKey, stable_sort, stably_sorted, sorted_by_key};
use crate::text::{text, trim, trimmed, has_infix, contains_text};

verus! {

/// Whether `e` is one of the events that end a recording: a synchronisation
/// marker, or the escape or Q key.
pub open spec fn is_exit_event(e: RecordedEvent) -> bool {
    e.event_type == EV_SYN || (e.event_type == EV_KEY && (e.code == KEY_Q || e.code == KEY_ESC))
}

/// `s` without its trailing run of exit events.
pub open spec fn without_exit_tail(s: Seq<RecordedEvent>) -> Seq<RecordedEvent>
    decreases s.len(),
{
    if s.len() > 0 && is_exit_event(s.last()) {
        without_exit_tail(s.drop_last())
    } else {
        s
    }
}

/// `without_exit_tail(s)` is the prefix of `s` that ends just before its
/// trailing run of exit events.
pub proof fn lemma_without_exit_tail(s: Seq<RecordedEvent>)
    ensures
        ({
            let t = without_exit_tail(s);
            &&& t.len() <= s.len()
            &&& t == s.take(t.len() as int)
            &&& forall|j: int| t.len() <= j < s.len() ==> is_exit_event(#[trigger] s[j])
            &&& t.len() == 0 || !is_exit_event(t.last())
        }),
    decreases s.len(),
{
    if s.len() > 0 && is_exit_event(s.last()) {
        let d = s.drop_last();
        lemma_without_exit_tail(d);
        let t = without_exit_tail(d);
        assert(t == s.take(t.len() as int)) by {
            assert(d.take(t.len() as int) =~= s.take(t.len() as int));
        }
        assert forall|j: int| t.len() <= j < s.len() implies is_exit_event(#[trigger] s[j]) by {
            if j < s.len() - 1 {
                assert(s[j] == d[j]);
            }
        }
    } else {
        assert(s.take(s.len() as int) =~= s);
    }
}

/// Removing the exit tail a second time changes nothing.
pub proof fn lemma_without_exit_tail_idempotent(s: Seq<RecordedEvent>)
    ensures
        without_exit_tail(without_exit_tail(s)) == without_exit_tail(s),
{
    lemma_without_exit_tail(s);
}

/// The events that a finished recording drops from its end are exactly the
/// synchronisation markers (type 0) and the escape (code 1) and Q (code 16)
/// key events (type 1), pressed or released; a recording that ends in any
/// other event keeps it.
pub proof fn lemma_exit_events(e: RecordedEvent, s: Seq<RecordedEvent>)
    ensures
        is_exit_event(e) <==> e.event_type == 0 || (e.event_type == 1 && (e.code == 1 || e.code == 16)),
        s.len() > 0 && !(s.last().event_type == 0 || (s.last().event_type == 1 && (s.last().code == 1
            || s.last().code == 16))) ==> without_exit_tail(s) == s,
{
}

/// Whether `e` is an exit event.
pub fn is_exit(e: &RecordedEvent) -> (r: bool)
    ensures
        r == is_exit_event(*e),
{
    e.event_type == EV_SYN || (e.event_type == EV_KEY && (e.code == KEY_Q || e.code == KEY_ESC))
}

/// Drops the trailing synchronisation markers and escape or Q keys, the
/// keystrokes that stopped the recording.
pub fn trim_exit_events(events: &mut Vec<RecordedEvent>)
    ensures
        final(events)@ == without_exit_tail(old(events)@),
{
    while events.len() > 0 && is_exit(&events[events.len() - 1])
        invariant
            without_exit_tail(events@) == without_exit_tail(old(events)@),
        decreases events@.len(),
    {
        let ghost before = events@;
        events.pop();
        assert(events@ =~= before.drop_last());
    }
}

/// The events of a finished recording: ordered by time, the order of events
/// with equal times kept, then without the trailing exit keystrokes.
pub fn finish_recording(events: Vec<RecordedEvent>) -> (r: Vec<RecordedEvent>)
    ensures
        exists|sorted: Seq<RecordedEvent>| #[trigger] stably_sorted(sorted, events@) && r@ == without_exit_tail(sorted),
{
    let mut sorted = stable_sort(events);
    let ghost s = sorted@;
    trim_exit_events(&mut sorted);
    assert(stably_sorted(s, events@));
    sorted
}

/// A finished recording is ordered by time and does not end in an exit
/// keystroke.
pub proof fn lemma_finished_recording_ordered(sorted: Seq<RecordedEvent>, events: Seq<RecordedEvent>)
    requires
        stably_sorted(sorted, events),
    ensures
        sorted_by_key(without_exit_tail(sorted)),
        without_exit_tail(sorted).len() == 0 || !is_exit_event(without_exit_tail(sorted).last()),
{
    lemma_without_exit_tail(sorted);
    let t = without_exit_tail(sorted);
    assert forall|i: int, j: int| 0 <= i <= j < t.len() implies #[trigger] t[i].sort_key() <= #[trigger] t[j].sort_key() by {
        assert(t[i] == sorted[i] && t[j] == sorted[j]);
    }
}

/// Whether a code list holds a mouse button.
pub fn has_mouse_buttons(codes: &Vec<u16>) -> (r: bool)
    ensures
        r == exists|i: int| 0 <= i < codes@.len() && is_mouse_button(#[trigger] codes@[i]),
{
    let mut i: usize = 0;
    while i < codes.len()
        invariant
            i <= codes@.len(),
            forall|j: int| 0 <= j < i ==> !is_mouse_button(#[trigger] codes@[j]),
        decreases codes@.len() - i,
    {
        if codes[i] >= BTN_FIRST && codes[i] <= BTN_LAST {
            return true;
        }
        i = i + 1;
    }
    false
}

/// Whether an input device is listened to while recording: it counts as a
/// mouse when it reports relative motion or has mouse buttons, as a keyboard
/// when it has keys but no mouse buttons; it is kept when one of the kinds
/// it counts as is being recorded and it reports keys or relative motion.
pub open spec fn device_kept(
    supports_keys: bool,
    supports_rel: bool,
    has_mouse_keys: bool,
    no_mouse: bool,
    no_keyboard: bool,
) -> bool {
    let is_mouse = supports_rel || has_mouse_keys;
    let is_keyboard = supports_keys && !has_mouse_keys;
    &&& (is_mouse && !no_mouse) || (is_keyboard && !no_keyboard)
    &&& supports_keys || supports_rel
}

/// Which devices are recorded: with no filter, every device that reports
/// keys or relative motion; without the mouse, exactly the keyboards (keys
/// and no mouse buttons); without the keyboard, exactly the devices with
/// relative motion or mouse buttons that report keys or motion; with both
/// filters, none.
pub proof fn lemma_devices_recorded(supports_keys: bool, supports_rel: bool, has_mouse_keys: bool)
    ensures
        device_kept(supports_keys, supports_rel, has_mouse_keys, false, false) == (supports_keys || supports_rel),
        device_kept(supports_keys, supports_rel, has_mouse_keys, true, false) == (supports_keys && !has_mouse_keys),
        device_kept(supports_keys, supports_rel, has_mouse_keys, false, true) == ((supports_rel || has_mouse_keys)
            && (supports_keys || supports_rel)),
        !device_kept(supports_keys, supports_rel, has_mouse_keys, true, true),
{
}

/// Whether an input device with these capabilities is recorded.
pub fn keep_device(
    supports_keys: bool,
    supports_rel: bool,
    has_mouse_keys: bool,
    no_mouse: bool,
    no_keyboard: bool,
) -> (r: bool)
    ensures
        r == device_kept(supports_keys, supports_rel, has_mouse_keys, no_mouse, no_keyboard),
{
    let is_mouse = supports_rel || has_mouse_keys;
    let is_keyboard = supports_keys && !has_mouse_keys;
    let mut keep = false;
    if is_mouse && !no_mouse {
        keep = true;
    }
    if is_keyboard && !no_keyboard {
        keep = true;
    }
    keep && (supports_keys || supports_rel)
}

/// The error reported when no input device can be recorded: a permission
/// problem when opening some device was refused, otherwise the absence of
/// suitable devices.
pub open spec fn setup_error_message(permission_denied: bool) -> Seq<char> {
    if permission_denied {
        "Permission denied: Cannot access input devices in /dev/input/. Please run as root or add user to group."@
    } else {
        "No compatible keyboard or mouse input devices found in /dev/input/."@
    }
}

/// The error reported when no input device can be recorded.
pub fn recording_setup_error(permission_denied: bool) -> (r: String)
    ensures
        r@ == setup_error_message(permission_denied),
{
    if permission_denied {
        text("Permission denied: Cannot access input devices in /dev/input/. Please run as root or add user to group.")
    } else {
        text("No compatible keyboard or mouse input devices found in /dev/input/.")
    }
}

/// Whether a recording setup error reports a permission problem: its text
/// mentions `Permission denied`.
pub fn is_permission_error(message: &str) -> (r: bool)
    ensures
        r == has_infix(message@, "Permission denied"@),
{
    contains_text(message, "Permission denied")
}

/// A setup error is reported as a permission problem exactly when opening a
/// device was refused.
pub proof fn lemma_setup_error_kind(permission_denied: bool)
    ensures
        has_infix(setup_error_message(permission_denied), "Permission denied"@) == permission_denied,
{
    reveal_strlit("Permission denied");
    reveal_strlit("Permission denied: Cannot access input devices in /dev/input/. Please run as root or add user to group.");
    reveal_strlit("No compatible keyboard or mouse input devices found in /dev/input/.");
    let m = setup_error_message(permission_denied);
    let part = "Permission denied"@;
    if permission_denied {
        assert(m.subrange(0int, 0int + part.len()) =~= part);
        assert(has_infix(m, part));
    } else {
        assert forall|i: int| 0 <= i && i + part.len() <= m.len() implies #[trigger] m.subrange(i, i + part.len()) != part by {
            assert(m.subrange(i, i + part.len())[0] == m[i]);
            assert(m[i] != 'P');
        }
        assert(!has_infix(m, part));
    }
}

/// An input reported by a desktop input hook, as recording reads it.
#[derive(Clone, Copy, Debug, PartialEq, Eq, Structural)]
pub enum InputAction {
    KeyPress(InputKey),
    KeyRelease(InputKey),
    /// A mouse button went down; the button's number, counted from the first
    /// mouse button.
    ButtonPress(u8),
    /// A mouse button went up.
    ButtonRelease(u8),
    /// The wheel turned by these amounts.
    Wheel { delta_x: i64, delta_y: i64 },
}

/// The event with these fields.
pub open spec fn event(time_us: u64, event_type: u16, code: u16, value: i32) -> RecordedEvent {
    RecordedEvent { time_us, event_type, code, value }
}

/// `ev` as a one-event sequence when `present`, else nothing.
pub open spec fn optional(present: bool, ev: RecordedEvent) -> Seq<RecordedEvent> {
    if present {
        seq![ev]
    } else {
        Seq::empty()
    }
}

/// The events recorded for `action` at time `time_us`: a key goes down
/// (value 1) or up (value 0) under its code, unless keyboard input is not
/// recorded or the key has no code; a mouse button likewise under code
/// `272 + n`, unless mouse input is not recorded; a wheel turn gives a
/// vertical (`REL_WHEEL`) then a horizontal (`REL_HWHEEL`) motion for each
/// nonzero amount, then a synchronisation marker when there was one.
pub open spec fn action_events(action: InputAction, time_us: u64, no_mouse: bool, no_keyboard: bool) -> Seq<RecordedEvent> {
    match action {
        InputAction::KeyPress(k) => optional(
            !no_keyboard && key_code(k) != 0,
            event(time_us, EV_KEY, key_code(k), 1),
        ),
        InputAction::KeyRelease(k) => optional(
            !no_keyboard && key_code(k) != 0,
            event(time_us, EV_KEY, key_code(k), 0),
        ),
        InputAction::ButtonPress(n) => optional(!no_mouse, event(time_us, EV_KEY, (272 + n) as u16, 1)),
        InputAction::ButtonRelease(n) => optional(!no_mouse, event(time_us, EV_KEY, (272 + n) as u16, 0)),
        InputAction::Wheel { delta_x, delta_y } => if no_mouse {
            Seq::empty()
        } else {
            optional(delta_y != 0, event(time_us, EV_REL, 8, delta_y as i32))
                + optional(delta_x != 0, event(time_us, EV_REL, 6, delta_x as i32))
                + optional(delta_x != 0 || delta_y != 0, event(time_us, EV_SYN, 0, 0))
        },
    }
}

/// The events recorded for a pointer motion of `(dx, dy)`: a horizontal
/// (`REL_X`) then a vertical (`REL_Y`) motion for each nonzero amount, then a
/// synchronisation marker when there was one.
pub open spec fn motion_events(time_us: u64, dx: i32, dy: i32) -> Seq<RecordedEvent> {
    optional(dx != 0, event(time_us, EV_REL, 0, dx))
        + optional(dy != 0, event(time_us, EV_REL, 1, dy))
        + optional(dx != 0 || dy != 0, event(time_us, EV_SYN, 0, 0))
}

fn push_if(v: &mut Vec<RecordedEvent>, present: bool, ev: RecordedEvent)
    ensures
        final(v)@ == old(v)@ + optional(present, ev),
{
    if present {
        v.push(ev);
    }
    assert(v@ =~= old(v)@ + optional(present, ev));
}

/// The events to record for `action` at time `time_us`.
pub fn input_action_events(action: InputAction, time_us: u64, no_mouse: bool, no_keyboard: bool) -> (r: Vec<RecordedEvent>)
    ensures
        r@ == action_events(action, time_us, no_mouse, no_keyboard),
{
    let mut r: Vec<RecordedEvent> = Vec::new();
    match action {
        InputAction::KeyPress(k) => {
            let code = rdev_key_to_evdev(k);
            push_if(&mut r, !no_keyboard && code != 0, RecordedEvent { time_us, event_type: EV_KEY, code, value: 1 });
        },
        InputAction::KeyRelease(k) => {
            let code = rdev_key_to_evdev(k);
            push_if(&mut r, !no_keyboard && code != 0, RecordedEvent { time_us, event_type: EV_KEY, code, value: 0 });
        },
        InputAction::ButtonPress(n) => {
            let code: u16 = 272 + n as u16;
            push_if(&mut r, !no_mouse, RecordedEvent { time_us, event_type: EV_KEY, code, value: 1 });
        },
        InputAction::ButtonRelease(n) => {
            let code: u16 = 272 + n as u16;
            push_if(&mut r, !no_mouse, RecordedEvent { time_us, event_type: EV_KEY, code, value: 0 });
        },
        InputAction::Wheel { delta_x, delta_y } => {
            if !no_mouse {
                push_if(&mut r, delta_y != 0, RecordedEvent { time_us, event_type: EV_REL, code: 8, value: delta_y as i32 });
                push_if(&mut r, delta_x != 0, RecordedEvent { time_us, event_type: EV_REL, code: 6, value: delta_x as i32 });
                push_if(&mut r, delta_x != 0 || delta_y != 0, RecordedEvent { time_us, event_type: EV_SYN, code: 0, value: 0 });
            }
        },
    }
    assert(r@ =~= action_events(action, time_us, no_mouse, no_keyboard));
    r
}

/// The events to record for a pointer motion of `(dx, dy)`.
pub fn mouse_move_events(time_us: u64, dx: i32, dy: i32) -> (r: Vec<RecordedEvent>)
    ensures
        r@ == motion_events(time_us, dx, dy),
{
    let mut r: Vec<RecordedEvent> = Vec::new();
    push_if(&mut r, dx != 0, RecordedEvent { time_us, event_type: EV_REL, code: 0, value: dx });
    push_if(&mut r, dy != 0, RecordedEvent { time_us, event_type: EV_REL, code: 1, value: dy });
    push_if(&mut r, dx != 0 || dy != 0, RecordedEvent { time_us, event_type: EV_SYN, code: 0, value: 0 });
    assert(r@ =~= motion_events(time_us, dx, dy));
    r
}


/// Pressing and releasing a mouse button are recorded, when the mouse is
/// recorded, as exactly one event each at the time of the input: a key-type
/// event under code `BTN_LEFT + n`, with value 1 for the press and value 0
/// for the release, so that a replayed button goes down and comes up again.
/// Without the mouse neither is recorded.
pub proof fn lemma_button_press_release(n: u8, t: u64, no_mouse: bool, no_keyboard: bool)
    ensures
        ({
            let press = action_events(InputAction::ButtonPress(n), t, no_mouse, no_keyboard);
            let release = action_events(InputAction::ButtonRelease(n), t, no_mouse, no_keyboard);
            &&& !no_mouse ==> press.len() == 1 && release.len() == 1
            &&& !no_mouse ==> press[0].time_us == t && press[0].event_type == 1 && press[0].code == 272 + n
                && press[0].value == 1
            &&& !no_mouse ==> release[0].time_us == t && release[0].event_type == 1 && release[0].code == 272 + n
                && release[0].value == 0
            &&& no_mouse ==> press.len() == 0 && release.len() == 0
        }),
{
}

/// Pressing and releasing a key are recorded, when the keyboard is recorded
/// and the key has a Linux code, as exactly one event each at the time of
/// the input: a key-type event under the key's code, with value 1 for the
/// press and value 0 for the release. Otherwise neither is recorded.
pub proof fn lemma_key_press_release(key: InputKey, t: u64, no_mouse: bool, no_keyboard: bool)
    ensures
        ({
            let press = action_events(InputAction::KeyPress(key), t, no_mouse, no_keyboard);
            let release = action_events(InputAction::KeyRelease(key), t, no_mouse, no_keyboard);
            let recorded = !no_keyboard && key != InputKey::Other;
            &&& recorded ==> press.len() == 1 && release.len() == 1
            &&& recorded ==> press[0].time_us == t && press[0].event_type == 1 && press[0].code == key_code(key)
                && press[0].value == 1
            &&& recorded ==> release[0].time_us == t && release[0].event_type == 1
                && release[0].code == key_code(key) && release[0].value == 0
            &&& !recorded ==> press.len() == 0 && release.len() == 0
        }),
{
    if key != InputKey::Other {
        lemma_key_code_roundtrip(key);
    }
}

/// A wheel turn, when the mouse is recorded, gives at the time of the input
/// a vertical wheel motion (`EV_REL`, `REL_WHEEL`) by the vertical amount
/// when there is one, then a horizontal one (`REL_HWHEEL`) by the
/// horizontal amount when there is one, then one synchronisation marker when
/// the wheel moved at all, and nothing else.
pub proof fn lemma_wheel_events(delta_x: i64, delta_y: i64, t: u64, no_keyboard: bool)
    requires
        i32::MIN <= delta_x <= i32::MAX,
        i32::MIN <= delta_y <= i32::MAX,
    ensures
        ({
            let w = action_events(InputAction::Wheel { delta_x, delta_y }, t, false, no_keyboard);
            let h = if delta_y != 0 { 1int } else { 0int };
            &&& w.len() == h + (if delta_x != 0 { 1int } else { 0int })
                + (if delta_x != 0 || delta_y != 0 { 1int } else { 0int })
            &&& forall|i: int| 0 <= i < w.len() ==> (#[trigger] w[i]).time_us == t
            &&& delta_y != 0 ==> w[0].event_type == 2 && w[0].code == 8 && w[0].value == delta_y
            &&& delta_x != 0 ==> w[h].event_type == 2 && w[h].code == 6 && w[h].value == delta_x
            &&& (delta_x != 0 || delta_y != 0) ==> w.last().event_type == 0 && w.last().code == 0
                && w.last().value == 0
        }),
        action_events(InputAction::Wheel { delta_x, delta_y }, t, true, no_keyboard).len() == 0,
{
    let w = action_events(InputAction::Wheel { delta_x, delta_y }, t, false, no_keyboard);
    assert forall|i: int| 0 <= i < w.len() implies (#[trigger] w[i]).time_us == t by {
        let a = optional(delta_y != 0, event(t, EV_REL, 8, delta_y as i32));
        let b = optional(delta_x != 0, event(t, EV_REL, 6, delta_x as i32));
        let c = optional(delta_x != 0 || delta_y != 0, event(t, EV_SYN, 0, 0));
        assert(w == a + b + c);
        if i < a.len() {
        } else if i < a.len() + b.len() {
            assert(w[i] == b[i - a.len()]);
        } else {
            assert(w[i] == c[i - a.len() - b.len()]);
        }
    }
}

/// A pointer motion gives at the time of the input a horizontal motion
/// (`EV_REL`, `REL_X`) by `dx` when it is nonzero, then a vertical one
/// (`REL_Y`) by `dy` when it is nonzero, then one synchronisation marker
/// when the pointer moved at all, and nothing else.
pub proof fn lemma_motion_events(t: u64, dx: i32, dy: i32)
    ensures
        ({
            let m = motion_events(t, dx, dy);
            let h = if dx != 0 { 1int } else { 0int };
            &&& m.len() == h + (if dy != 0 { 1int } else { 0int }) + (if dx != 0 || dy != 0 { 1int } else { 0int })
            &&& forall|i: int| 0 <= i < m.len() ==> (#[trigger] m[i]).time_us == t
            &&& dx != 0 ==> m[0].event_type == 2 && m[0].code == 0 && m[0].value == dx
            &&& dy != 0 ==> m[h].event_type == 2 && m[h].code == 1 && m[h].value == dy
            &&& (dx != 0 || dy != 0) ==> m.last().event_type == 0 && m.last().code == 0 && m.last().value == 0
        }),
{
    let m = motion_events(t, dx, dy);
    assert forall|i: int| 0 <= i < m.len() implies (#[trigger] m[i]).time_us == t by {
        let a = optional(dx != 0, event(t, EV_REL, 0, dx));
        let b = optional(dy != 0, event(t, EV_REL, 1, dy));
        let c = optional(dx != 0 || dy != 0, event(t, EV_SYN, 0, 0));
        assert(m == a + b + c);
        if i < a.len() {
        } else if i < a.len() + b.len() {
            assert(m[i] == b[i - a.len()]);
        } else {
            assert(m[i] == c[i - a.len() - b.len()]);
        }
    }
}

proof fn lemma_key_codes_below_buttons(k: InputKey)
    ensures
        key_code(k) <= 126,
{
}

/// Recording without the mouse records no mouse input from the input hook.
pub proof fn lemma_no_mouse_records_no_mouse(action: InputAction, time_us: u64, no_keyboard: bool, i: int)
    requires
        0 <= i < action_events(action, time_us, true, no_keyboard).len(),
    ensures
        ({
            let e = action_events(action, time_us, true, no_keyboard)[i];
            !is_mouse_input(e.event_type, e.code)
        }),
{
    match action {
        InputAction::KeyPress(k) => lemma_key_codes_below_buttons(k),
        InputAction::KeyRelease(k) => lemma_key_codes_below_buttons(k),
        _ => {},
    }
}

/// Recording without the keyboard records no keyboard input from the input
/// hook, for mouse buttons within the mouse button range (a button numbered
/// 16 or more gets a code past that range, which counts as a key).
pub proof fn lemma_no_keyboard_records_no_keys(action: InputAction, time_us: u64, no_mouse: bool, i: int)
    requires
        0 <= i < action_events(action, time_us, no_mouse, true).len(),
        action matches InputAction::ButtonPress(n) ==> n < 16,
        action matches InputAction::ButtonRelease(n) ==> n < 16,
    ensures
        ({
            let e = action_events(action, time_us, no_mouse, true)[i];
            !is_keyboard_input(e.event_type, e.code)
        }),
{
    match action {
        InputAction::Wheel { delta_x, delta_y } => {
            let a = optional(delta_y != 0, event(time_us, EV_REL, 8, delta_y as i32));
            let b = optional(delta_x != 0, event(time_us, EV_REL, 6, delta_x as i32));
            let c = optional(delta_x != 0 || delta_y != 0, event(time_us, EV_SYN, 0, 0));
            if !no_mouse {
                let s = a + b + c;
                assert(s[i] == a[i] || s[i] == b[i - a.len()] || s[i] == c[i - a.len() - b.len()]);
            }
        },
        _ => {},
    }
}

/// A device that only counts as a mouse is not listened to when the mouse
/// is not recorded, and one that only counts as a keyboard is not listened
/// to when the keyboard is not recorded.
pub proof fn lemma_devices_follow_filters(supports_keys: bool, supports_rel: bool, has_mouse_keys: bool)
    ensures
        !(supports_keys && !has_mouse_keys) ==> !device_kept(supports_keys, supports_rel, has_mouse_keys, true, false),
        !(supports_rel || has_mouse_keys) ==> !device_kept(supports_keys, supports_rel, has_mouse_keys, false, true),
        !device_kept(supports_keys, supports_rel, has_mouse_keys, true, true),
{
}

/// The name typed for a new recording: the line without surrounding white
/// space, or none when nothing else was typed (the time stamp is used then).
pub fn recording_name(line: &str) -> (r: Option<String>)
    ensures
        trimmed(line@).len() == 0 <==> r is None,
        r matches Some(n) ==> n@ == trimmed(line@),
{
    let name = trim(line);
    if name.unicode_len() == 0 {
        None
    } else {
        Some(name)
    }
}

} // verus!
