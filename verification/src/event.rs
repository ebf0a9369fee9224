//! Recorded input events: their classification as mouse or keyboard input,
//! and the filters applied when recording and replaying.
use vstd::prelude::*;
use crate::order::SortKey;
use crate::text::{starts_with, has_prefix};

verus! {

/// One input event as it is stored in a macro file: a Linux input event
/// (type, code, value) stamped with its time in microseconds.
#[derive(Clone, Copy, Debug, PartialEq, Eq, Structural)]
pub struct RecordedEvent {
    pub time_us: u64,
    pub event_type: u16,
    pub code: u16,
    pub value: i32,
}

impl SortKey for RecordedEvent {
    open spec fn sort_key(&self) -> int {
        self.time_us as int
    }

    fn key_le(&self, other: &Self) -> (r: bool) {
        self.time_us <= other.time_us
    }
}

/// Synchronisation marker (`EV_SYN`).
pub const EV_SYN: u16 = 0;
/// Key or button event (`EV_KEY`).
pub const EV_KEY: u16 = 1;
/// Relative axis event (`EV_REL`).
pub const EV_REL: u16 = 2;
/// First mouse button code (`BTN_MOUSE`).
pub const BTN_FIRST: u16 = 272;
/// Last code of the mouse button range.
pub const BTN_LAST: u16 = 287;
/// Code of the escape key.
pub const KEY_ESC: u16 = 1;
/// Code of the Q key.
pub const KEY_Q: u16 = 16;

/// Whether `code` lies in the range of mouse buttons.
pub open spec fn is_mouse_button(code: u16) -> bool {
    BTN_FIRST <= code && code <= BTN_LAST
}

/// Whether an event of this type and code comes from a mouse: a relative
/// motion, or a mouse button.
pub open spec fn is_mouse_input(event_type: u16, code: u16) -> bool {
    event_type == EV_REL || (event_type == EV_KEY && is_mouse_button(code))
}

/// Whether an event of this type and code comes from a keyboard: a key that
/// is not a mouse button.
pub open spec fn is_keyboard_input(event_type: u16, code: u16) -> bool {
    event_type == EV_KEY && !is_mouse_input(event_type, code)
}

/// Whether an event survives the filters: mouse input is dropped under
/// `no_mouse`, keyboard input under `no_keyboard`, and synchronisation
/// markers when both are set.
pub open spec fn event_kept(event_type: u16, code: u16, no_mouse: bool, no_keyboard: bool) -> bool {
    &&& !(is_mouse_input(event_type, code) && no_mouse)
    &&& !(is_keyboard_input(event_type, code) && no_keyboard)
    &&& !(event_type == EV_SYN && no_mouse && no_keyboard)
}

/// The filter `event_kept` as a predicate on events.
pub open spec fn kept_by(no_mouse: bool, no_keyboard: bool) -> spec_fn(RecordedEvent) -> bool {
    |e: RecordedEvent| event_kept(e.event_type, e.code, no_mouse, no_keyboard)
}

/// Whether an event of this type and code comes from a mouse.
pub fn is_mouse_event(event_type: u16, code: u16) -> (r: bool)
    ensures
        r == is_mouse_input(event_type, code),
{
    event_type == EV_REL || (event_type == EV_KEY && code >= BTN_FIRST && code <= BTN_LAST)
}

/// Whether an event of this type and code comes from a keyboard.
pub fn is_keyboard_event(event_type: u16, code: u16) -> (r: bool)
    ensures
        r == is_keyboard_input(event_type, code),
{
    event_type == EV_KEY && !is_mouse_event(event_type, code)
}

/// Whether an event of this type and code is kept under the given filters.
pub fn keep_event(event_type: u16, code: u16, no_mouse: bool, no_keyboard: bool) -> (r: bool)
    ensures
        r == event_kept(event_type, code, no_mouse, no_keyboard),
{
    let is_mouse = is_mouse_event(event_type, code);
    let is_keyboard = is_keyboard_event(event_type, code);
    if is_mouse && no_mouse {
        return false;
    }
    if is_keyboard && no_keyboard {
        return false;
    }
    if event_type == EV_SYN && no_mouse && no_keyboard {
        return false;
    }
    true
}

/// The events of `events` that the filters keep, in their order.
pub fn filter_events(events: &Vec<RecordedEvent>, no_mouse: bool, no_keyboard: bool) -> (r: Vec<RecordedEvent>)
    ensures
        r@ == events@.filter(kept_by(no_mouse, no_keyboard)),
{
    let mut r: Vec<RecordedEvent> = Vec::new();
    let mut i: usize = 0;
    while i < events.len()
        invariant
            i <= events@.len(),
            r@ == events@.take(i as int).filter(kept_by(no_mouse, no_keyboard)),
        decreases events@.len() - i,
    {
        let e = events[i];
        proof {
            reveal(Seq::filter);
            assert(events@.take(i as int + 1).drop_last() =~= events@.take(i as int));
            assert(events@.take(i as int + 1).last() == e);
        }
        if keep_event(e.event_type, e.code, no_mouse, no_keyboard) {
            r.push(e);
        }
        i = i + 1;
    }
    assert(events@.take(events@.len() as int) =~= events@);
    r
}

/// With no filter set, every event is kept.
pub proof fn lemma_no_filter_keeps_all(s: Seq<RecordedEvent>)
    ensures
        s.filter(kept_by(false, false)) == s,
    decreases s.len(),
{
    reveal(Seq::filter);
    if s.len() > 0 {
        lemma_no_filter_keeps_all(s.drop_last());
        assert(s.drop_last().push(s.last()) =~= s);
    }
}

/// Filtering leaves no mouse input when mouse input is excluded and no
/// keyboard input when keyboard input is excluded.
pub proof fn lemma_filter_excludes(s: Seq<RecordedEvent>, no_mouse: bool, no_keyboard: bool, i: int)
    requires
        0 <= i < s.filter(kept_by(no_mouse, no_keyboard)).len(),
    ensures
        ({
            let e = s.filter(kept_by(no_mouse, no_keyboard))[i];
            &&& no_mouse ==> !is_mouse_input(e.event_type, e.code)
            &&& no_keyboard ==> !is_keyboard_input(e.event_type, e.code)
        }),
{
    s.lemma_filter_pred(kept_by(no_mouse, no_keyboard), i);
}


/// What each filter drops: without the mouse, every relative motion and
/// every key event under a mouse button code (272 to 287) is dropped and
/// every other key event kept; without the keyboard, exactly the key events
/// outside that range are dropped; synchronisation markers are dropped only
/// when both filters are set, and events of any other type are always kept.
pub proof fn lemma_filter_cases(code: u16, event_type: u16, no_mouse: bool, no_keyboard: bool)
    ensures
        event_kept(2, code, true, no_keyboard) == false,
        event_kept(2, code, false, no_keyboard) == true,
        event_kept(1, code, true, false) == !(272 <= code && code <= 287),
        event_kept(1, code, false, true) == (272 <= code && code <= 287),
        event_kept(1, code, true, true) == false,
        event_kept(1, code, false, false) == true,
        event_kept(0, code, no_mouse, no_keyboard) == !(no_mouse && no_keyboard),
        event_type > 2 ==> event_kept(event_type, code, no_mouse, no_keyboard),
{
}

/// Whether a file of `/dev/input` is an event device node: its name starts
/// with `event`.
pub fn is_event_device(file_name: &str) -> (r: bool)
    ensures
        r == has_prefix(file_name@, "event"@),
{
    starts_with(file_name, "event")
}

} // verus!
