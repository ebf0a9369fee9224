//! The dashboard's state machine: which macro is selected, the replay
//! delay, the input popups and the status line, and what each key press
//! does to them. The terminal itself, the macro files and the replay speed
//! stay with the caller, which carries out the returned actions.
use vstd::prelude::*;
use crate::text::{decimal_of, parsed_i64, format_i64, parse_i64, text, append_chars, push_char, string_of,
    chars_of, lemma_parse_format_roundtrip};

verus! {

/// A key press on the dashboard.
#[derive(Clone, Copy, Debug, PartialEq, Eq, Structural)]
pub enum TuiKey {
    Enter,
    Esc,
    Backspace,
    Up,
    Down,
    Char(char),
    /// Any other key.
    Other,
}

/// What the caller has to do after a key press.
#[derive(Clone, Copy, Debug, PartialEq, Eq, Structural)]
pub enum TuiAction {
    /// Nothing beyond redrawing.
    Nothing,
    /// The selection moved: analyse the newly selected macro.
    Analyze,
    /// Record a new macro, then list the macros again.
    Record,
    /// Play the macro at this position of the listing.
    Play(usize),
    /// Delete the macro at this position of the listing.
    Delete(usize),
    /// The speed popup opened: fill its input with the current speed.
    EditSpeed,
    /// The speed popup was confirmed: apply its input as the new speed.
    ApplySpeed,
}

/// The dashboard state as the contracts see it.
pub struct TuiView {
    pub selected: int,
    pub count: int,
    pub delay: int,
    pub delay_input: bool,
    pub speed_input: bool,
    pub input: Seq<char>,
    pub status: Seq<char>,
    pub quit: bool,
}

/// The dashboard state.
pub struct TuiState {
    selected_index: usize,
    macro_count: usize,
    delay_ms: i64,
    show_delay_input: bool,
    show_speed_input: bool,
    input: Vec<char>,
    status_msg: String,
    should_quit: bool,
}

impl View for TuiState {
    type V = TuiView;

    closed spec fn view(&self) -> TuiView {
        TuiView {
            selected: self.selected_index as int,
            count: self.macro_count as int,
            delay: self.delay_ms as int,
            delay_input: self.show_delay_input,
            speed_input: self.show_speed_input,
            input: self.input@,
            status: self.status_msg@,
            quit: self.should_quit,
        }
    }
}

/// The status line after a delay input: the delay that was set, or that
/// the input was not an integer.
pub open spec fn delay_status(value: Option<i64>) -> Seq<char> {
    match value {
        Some(v) => "Delay offset set to "@ + decimal_of(v as int) + " ms"@,
        None => "Invalid delay integer value."@,
    }
}

/// The status line after deleting the macro `name` succeeded or failed.
pub open spec fn delete_status(name: Seq<char>, deleted: bool) -> Seq<char> {
    if deleted {
        "Deleted macro '"@ + name + seq!['\'']
    } else {
        "Failed to delete macro '"@ + name + seq!['\'']
    }
}

/// Whether a key press stops a recording: Escape, `q` or `Q`.
pub open spec fn is_stop(key: TuiKey) -> bool {
    key == TuiKey::Esc || key == TuiKey::Char('q') || key == TuiKey::Char('Q')
}

/// Whether a key press in the terminal stops a recording.
pub fn is_stop_key(key: TuiKey) -> (r: bool)
    ensures
        r == is_stop(key),
{
    match key {
        TuiKey::Esc => true,
        TuiKey::Char(c) => c == 'q' || c == 'Q',
        _ => false,
    }
}

/// The welcome line shown when the dashboard opens.
pub open spec fn welcome_status() -> Seq<char> {
    "Welcome to kmrp! Select a macro and press [P] to play or [R] to record."@
}

/// The state after `key` is pressed in state `v`, and the action it asks
/// for. While a popup is open, Enter confirms it (the delay popup sets the
/// delay from its input when that is an integer, and says so in the status
/// line), Esc closes it, Backspace deletes the last input character and
/// characters are appended. Otherwise Q quits, Up and Down move the
/// selection within the listing, R records, P plays and L deletes the
/// selected macro, D opens the delay popup filled with the current delay and
/// S opens the speed popup.
pub open spec fn key_step(v: TuiView, key: TuiKey) -> (TuiView, TuiAction) {
    if v.delay_input || v.speed_input {
        match key {
            TuiKey::Enter => if v.delay_input {
                let parsed = parsed_i64(v.input);
                (TuiView {
                    delay: match parsed {
                        Some(d) => d as int,
                        None => v.delay,
                    },
                    status: delay_status(parsed),
                    delay_input: false,
                    ..v
                }, TuiAction::Nothing)
            } else {
                (TuiView { speed_input: false, ..v }, TuiAction::ApplySpeed)
            },
            TuiKey::Esc => (TuiView { delay_input: false, speed_input: false, ..v }, TuiAction::Nothing),
            TuiKey::Backspace => (TuiView {
                input: if v.input.len() > 0 {
                    v.input.drop_last()
                } else {
                    v.input
                },
                ..v
            }, TuiAction::Nothing),
            TuiKey::Char(c) => (TuiView { input: v.input.push(c), ..v }, TuiAction::Nothing),
            _ => (v, TuiAction::Nothing),
        }
    } else {
        match key {
            TuiKey::Char(c) => if c == 'q' || c == 'Q' {
                (TuiView { quit: true, ..v }, TuiAction::Nothing)
            } else if c == 'r' || c == 'R' {
                (v, TuiAction::Record)
            } else if c == 'p' || c == 'P' {
                if v.count > 0 && v.selected < v.count {
                    (v, TuiAction::Play(v.selected as usize))
                } else {
                    (v, TuiAction::Nothing)
                }
            } else if c == 'd' || c == 'D' {
                (TuiView { delay_input: true, input: decimal_of(v.delay), ..v }, TuiAction::Nothing)
            } else if c == 's' || c == 'S' {
                (TuiView { speed_input: true, ..v }, TuiAction::EditSpeed)
            } else if c == 'l' || c == 'L' {
                if v.count > 0 && v.selected < v.count {
                    (v, TuiAction::Delete(v.selected as usize))
                } else {
                    (v, TuiAction::Nothing)
                }
            } else {
                (v, TuiAction::Nothing)
            },
            TuiKey::Up => if v.selected > 0 {
                (TuiView { selected: v.selected - 1, ..v }, TuiAction::Analyze)
            } else {
                (v, TuiAction::Nothing)
            },
            TuiKey::Down => if v.count > 0 && v.selected < v.count - 1 {
                (TuiView { selected: v.selected + 1, ..v }, TuiAction::Analyze)
            } else {
                (v, TuiAction::Nothing)
            },
            _ => (v, TuiAction::Nothing),
        }
    }
}

/// The dashboard's standing rule: at most one popup is open, and the
/// selection lies within a nonempty listing.
pub open spec fn dashboard_consistent(v: TuiView) -> bool {
    &&& !(v.delay_input && v.speed_input)
    &&& 0 <= v.selected
    &&& selection_valid(v)
}

impl TuiState {
    #[verifier::type_invariant]
    spec fn consistent(&self) -> bool {
        &&& !(self.show_delay_input && self.show_speed_input)
        &&& (self.macro_count > 0 ==> self.selected_index < self.macro_count)
    }

    /// The dashboard as it opens on a listing of `macro_count` macros: the
    /// first macro selected, no delay, no popup, the welcome line.
    pub fn new(macro_count: usize) -> (s: Self)
        ensures
            s@ == (TuiView {
                selected: 0,
                count: macro_count as int,
                delay: 0,
                delay_input: false,
                speed_input: false,
                input: Seq::empty(),
                status: welcome_status(),
                quit: false,
            }),
            dashboard_consistent(s@),
    {
        let s = TuiState {
            selected_index: 0,
            macro_count,
            delay_ms: 0,
            show_delay_input: false,
            show_speed_input: false,
            input: Vec::new(),
            status_msg: text("Welcome to kmrp! Select a macro and press [P] to play or [R] to record."),
            should_quit: false,
        };
        s
    }

    /// Takes the new length of the listing after it was read again; a
    /// selection past its end moves to its last macro.
    pub fn set_macro_count(&mut self, macro_count: usize)
        ensures
            final(self)@ == (TuiView {
                count: macro_count as int,
                selected: if old(self)@.selected >= macro_count && macro_count > 0 {
                    macro_count - 1
                } else {
                    old(self)@.selected
                },
                ..old(self)@
            }),
            dashboard_consistent(final(self)@),
    {
        proof {
            use_type_invariant(&*self);
        }
        if self.selected_index >= macro_count && macro_count > 0 {
            self.selected_index = macro_count - 1;
        }
        self.macro_count = macro_count;
        proof {
            use_type_invariant(&*self);
        }
    }

    /// The position of the selected macro in the listing.
    pub fn selected_index(&self) -> (r: usize)
        ensures
            r == self@.selected,
            self@.count > 0 ==> r < self@.count,
    {
        proof {
            use_type_invariant(self);
        }
        self.selected_index
    }

    /// The number of macros in the listing.
    pub fn macro_count(&self) -> (r: usize)
        ensures
            r == self@.count,
    {
        self.macro_count
    }

    /// The delay, in milliseconds, that playback shifts the macro's timeline by.
    pub fn delay_ms(&self) -> (r: i64)
        ensures
            r == self@.delay,
    {
        self.delay_ms
    }

    /// Whether the delay popup is open.
    pub fn show_delay_input(&self) -> (r: bool)
        ensures
            r == self@.delay_input,
    {
        self.show_delay_input
    }

    /// Whether the speed popup is open.
    pub fn show_speed_input(&self) -> (r: bool)
        ensures
            r == self@.speed_input,
    {
        self.show_speed_input
    }

    /// Whether the dashboard is to close.
    pub fn should_quit(&self) -> (r: bool)
        ensures
            r == self@.quit,
    {
        self.should_quit
    }

    /// The text typed into the open popup.
    pub fn input_value(&self) -> (r: String)
        ensures
            r@ == self@.input,
    {
        string_of(self.input.as_slice())
    }

    /// The status line.
    pub fn status_msg(&self) -> (r: String)
        ensures
            r@ == self@.status,
    {
        self.status_msg.clone()
    }

    /// Replaces the popup's input, as when the speed popup opens on the
    /// current speed.
    pub fn set_input(&mut self, value: &str)
        ensures
            final(self)@ == (TuiView { input: value@, ..old(self)@ }),
            dashboard_consistent(final(self)@),
    {
        proof {
            use_type_invariant(&*self);
        }
        self.input = chars_of(value);
        proof {
            use_type_invariant(&*self);
        }
    }

    /// Replaces the status line.
    pub fn set_status(&mut self, msg: &str)
        ensures
            final(self)@ == (TuiView { status: msg@, ..old(self)@ }),
            dashboard_consistent(final(self)@),
    {
        proof {
            use_type_invariant(&*self);
        }
        self.status_msg = text(msg);
        proof {
            use_type_invariant(&*self);
        }
    }

    /// Reports in the status line whether the macro `name` was deleted.
    pub fn report_delete(&mut self, name: &str, deleted: bool)
        ensures
            final(self)@ == (TuiView { status: delete_status(name@, deleted), ..old(self)@ }),
            dashboard_consistent(final(self)@),
    {
        proof {
            use_type_invariant(&*self);
        }
        let mut msg = if deleted {
            text("Deleted macro '")
        } else {
            text("Failed to delete macro '")
        };
        append_chars(&mut msg, name);
        push_char(&mut msg, '\'');
        assert(msg@ =~= delete_status(name@, deleted));
        self.status_msg = msg;
        proof {
            use_type_invariant(&*self);
        }
    }

    /// Applies a key press and returns the action the caller has to carry out.
    pub fn handle_key(&mut self, key: TuiKey) -> (action: TuiAction)
        ensures
            (final(self)@, action) == key_step(old(self)@, key),
            dashboard_consistent(final(self)@),
    {
        proof {
            use_type_invariant(&*self);
        }
        let action = if self.show_delay_input || self.show_speed_input {
            match key {
                TuiKey::Enter => {
                    if self.show_delay_input {
                        let entered = string_of(self.input.as_slice());
                        let parsed = parse_i64(entered.as_str());
                        match parsed {
                            Some(d) => {
                                self.delay_ms = d;
                                let mut msg = text("Delay offset set to ");
                                let digits = format_i64(d);
                                append_chars(&mut msg, digits.as_str());
                                append_chars(&mut msg, " ms");
                                self.status_msg = msg;
                            },
                            None => {
                                self.status_msg = text("Invalid delay integer value.");
                            },
                        }
                        self.show_delay_input = false;
                        TuiAction::Nothing
                    } else {
                        self.show_speed_input = false;
                        TuiAction::ApplySpeed
                    }
                },
                TuiKey::Esc => {
                    self.show_delay_input = false;
                    self.show_speed_input = false;
                    TuiAction::Nothing
                },
                TuiKey::Backspace => {
                    let mut typed = self.input.clone();
                    typed.pop();
                    self.input = typed;
                    TuiAction::Nothing
                },
                TuiKey::Char(c) => {
                    let mut typed = self.input.clone();
                    typed.push(c);
                    self.input = typed;
                    TuiAction::Nothing
                },
                _ => TuiAction::Nothing,
            }
        } else {
            match key {
                TuiKey::Char(c) => {
                    if c == 'q' || c == 'Q' {
                        self.should_quit = true;
                        TuiAction::Nothing
                    } else if c == 'r' || c == 'R' {
                        TuiAction::Record
                    } else if c == 'p' || c == 'P' {
                        if self.macro_count > 0 && self.selected_index < self.macro_count {
                            TuiAction::Play(self.selected_index)
                        } else {
                            TuiAction::Nothing
                        }
                    } else if c == 'd' || c == 'D' {
                        self.show_delay_input = true;
                        let digits = format_i64(self.delay_ms);
                        self.input = chars_of(digits.as_str());
                        TuiAction::Nothing
                    } else if c == 's' || c == 'S' {
                        self.show_speed_input = true;
                        TuiAction::EditSpeed
                    } else if c == 'l' || c == 'L' {
                        if self.macro_count > 0 && self.selected_index < self.macro_count {
                            TuiAction::Delete(self.selected_index)
                        } else {
                            TuiAction::Nothing
                        }
                    } else {
                        TuiAction::Nothing
                    }
                },
                TuiKey::Up => {
                    if self.selected_index > 0 {
                        self.selected_index = self.selected_index - 1;
                        TuiAction::Analyze
                    } else {
                        TuiAction::Nothing
                    }
                },
                TuiKey::Down => {
                    if self.macro_count > 0 && self.selected_index < self.macro_count - 1 {
                        self.selected_index = self.selected_index + 1;
                        TuiAction::Analyze
                    } else {
                        TuiAction::Nothing
                    }
                },
                _ => TuiAction::Nothing,
            }
        };
        proof {
            use_type_invariant(&*self);
        }
        action
    }
}


/// Whether the selection lies within a nonempty listing.
pub open spec fn selection_valid(v: TuiView) -> bool {
    v.count > 0 ==> 0 <= v.selected < v.count
}

/// No key press moves the selection out of the listing.
pub proof fn lemma_key_step_keeps_selection(v: TuiView, key: TuiKey)
    requires
        selection_valid(v),
    ensures
        selection_valid(key_step(v, key).0),
        key_step(v, key).0.count == v.count,
{
}

/// No key press opens a second popup over an open one or moves the
/// selection out of the listing.
pub proof fn lemma_key_step_keeps_consistency(v: TuiView, key: TuiKey)
    requires
        dashboard_consistent(v),
    ensures
        dashboard_consistent(key_step(v, key).0),
{
}

/// With no popup open, the command keys act whatever their case: `q` or
/// `Q` closes the dashboard, `r`/`R` asks to record, `p`/`P` to play and
/// `l`/`L` to delete the selected macro (only when the selection names a
/// macro of the listing), `d`/`D` opens the delay popup filled with the
/// current delay and `s`/`S` the speed popup. No character moves the
/// selection or changes the delay or the listing, and any other character
/// does nothing at all.
pub proof fn lemma_command_keys(v: TuiView, c: char)
    requires
        !v.delay_input && !v.speed_input,
        0 <= v.selected <= usize::MAX,
    ensures
        ({
            let (w, a) = key_step(v, TuiKey::Char(c));
            let quit_key = c == 'q' || c == 'Q';
            let record_key = c == 'r' || c == 'R';
            let play_key = c == 'p' || c == 'P';
            let delay_key = c == 'd' || c == 'D';
            let speed_key = c == 's' || c == 'S';
            let delete_key = c == 'l' || c == 'L';
            let valid = v.selected < v.count;
            &&& w.selected == v.selected && w.count == v.count && w.delay == v.delay && w.status == v.status
            &&& quit_key ==> w.quit && a == TuiAction::Nothing
            &&& !quit_key ==> w.quit == v.quit
            &&& a == TuiAction::Record <==> record_key
            &&& a == TuiAction::Play(v.selected as usize) <==> play_key && valid
            &&& a == TuiAction::Delete(v.selected as usize) <==> delete_key && valid
            &&& (a matches TuiAction::Play(i) ==> play_key && valid && i == v.selected as usize)
            &&& (a matches TuiAction::Delete(i) ==> delete_key && valid && i == v.selected as usize)
            &&& w.delay_input <==> delay_key
            &&& delay_key ==> w.input == decimal_of(v.delay)
            &&& w.speed_input <==> speed_key
            &&& a == TuiAction::EditSpeed <==> speed_key
            &&& !(quit_key || record_key || play_key || delay_key || speed_key || delete_key)
                ==> w == v && a == TuiAction::Nothing
        }),
{
    if c == 'q' || c == 'Q' {
    } else if c == 'r' || c == 'R' {
    } else if c == 'p' || c == 'P' {
    } else if c == 'd' || c == 'D' {
    } else if c == 's' || c == 'S' {
    } else if c == 'l' || c == 'L' {
    } else {
    }
}

/// With no popup open, Up moves the selection one macro up unless it is on
/// the first, and Down one macro down unless it is on the last; a move asks
/// for the newly selected macro to be analysed, and nothing else changes.
pub proof fn lemma_navigation_keys(v: TuiView)
    requires
        !v.delay_input && !v.speed_input,
        0 <= v.selected,
    ensures
        ({
            let (up, a) = key_step(v, TuiKey::Up);
            &&& v.selected > 0 ==> up == TuiView { selected: v.selected - 1, ..v } && a == TuiAction::Analyze
            &&& v.selected <= 0 ==> up == v && a == TuiAction::Nothing
        }),
        ({
            let (down, a) = key_step(v, TuiKey::Down);
            &&& v.selected + 1 < v.count ==> down == TuiView { selected: v.selected + 1, ..v }
                && a == TuiAction::Analyze
            &&& v.selected + 1 >= v.count ==> down == v && a == TuiAction::Nothing
        }),
{
}

/// While a popup is open, every character is typed into its input (`q`
/// does not close the dashboard), Backspace deletes the last typed
/// character, and Enter on the speed popup closes it and asks for its input
/// to be applied; none of these moves the selection or asks for anything
/// else.
pub proof fn lemma_popup_keys(v: TuiView, c: char)
    requires
        v.delay_input || v.speed_input,
    ensures
        key_step(v, TuiKey::Char(c)) == (TuiView { input: v.input.push(c), ..v }, TuiAction::Nothing),
        v.input.len() > 0 ==> key_step(v, TuiKey::Backspace) == (TuiView { input: v.input.subrange(
            0,
            v.input.len() - 1,
        ), ..v }, TuiAction::Nothing),
        v.input.len() == 0 ==> key_step(v, TuiKey::Backspace) == (v, TuiAction::Nothing),
        !v.delay_input ==> key_step(v, TuiKey::Enter) == (TuiView { speed_input: false, ..v }, TuiAction::ApplySpeed),
{
}

/// Reading the listing again puts the selection within it.
pub proof fn lemma_listing_update_keeps_selection(v: TuiView, macro_count: usize)
    requires
        0 <= v.selected,
    ensures
        selection_valid(TuiView {
            count: macro_count as int,
            selected: if v.selected >= macro_count && macro_count > 0 {
                macro_count - 1
            } else {
                v.selected
            },
            ..v
        }),
{
}

/// Opening the delay popup and confirming it unchanged keeps the delay, and
/// reports it in the status line.
pub proof fn lemma_delay_edit_roundtrip(v: TuiView, d: char)
    requires
        !v.delay_input && !v.speed_input,
        d == 'd' || d == 'D',
        i64::MIN <= v.delay <= i64::MAX,
    ensures
        ({
            let opened = key_step(v, TuiKey::Char(d)).0;
            let closed = key_step(opened, TuiKey::Enter).0;
            &&& opened.delay_input
            &&& closed.delay == v.delay
            &&& !closed.delay_input
            &&& closed.status == delay_status(Some(v.delay as i64))
        }),
{
    lemma_parse_format_roundtrip(v.delay as i64);
}

/// Esc closes a popup without touching the delay, the selection or the
/// listing.
pub proof fn lemma_escape_cancels(v: TuiView)
    requires
        v.delay_input || v.speed_input,
    ensures
        ({
            let after = key_step(v, TuiKey::Esc);
            &&& !after.0.delay_input && !after.0.speed_input
            &&& after.0.delay == v.delay && after.0.selected == v.selected && after.0.count == v.count
            &&& after.1 == TuiAction::Nothing
        }),
{
}

} // verus!
