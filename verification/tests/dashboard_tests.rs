use kmrp::analysis::analyze_events;
use kmrp::event::RecordedEvent;
use kmrp::tui::{TuiAction, TuiKey, TuiState, is_stop_key};
use kmrp::ui::{visible_length, title_padding, line_padding, centered_percentages, key_label, top_key_line};

fn ev(time_us: u64, event_type: u16, code: u16, value: i32) -> RecordedEvent {
    RecordedEvent { time_us, event_type, code, value }
}

#[test]
fn analyses_a_macro() {
    let events = vec![
        ev(2_000_000, 1, 30, 1),
        ev(500_000, 2, 0, 4),
        ev(600_000, 1, 272, 1),
        ev(700_000, 1, 272, 0),
        ev(800_000, 1, 31, 1),
        ev(900_000, 1, 30, 1),
        ev(950_000, 1, 30, 0),
        ev(1_000_000, 1, 57, 1),
        ev(1_100_000, 1, 31, 1),
        ev(1_200_000, 1, 28, 1),
        ev(1_300_000, 0, 0, 0),
    ];
    let a = analyze_events(&events).unwrap();
    assert_eq!(a.total_events, 11);
    assert_eq!(a.duration_us, 1_500_000);
    assert_eq!(a.mouse_moves, 1);
    assert_eq!(a.mouse_clicks, 1);
    assert_eq!(a.key_presses, 6);
    assert_eq!(a.top_keys.len(), 3);
    assert_eq!(a.top_keys[0], (30, 2));
    assert_eq!(a.top_keys[1], (31, 2));
    assert_eq!(a.top_keys[2].1, 1);
    assert!(analyze_events(&Vec::new()).is_none());
}

#[test]
fn navigates_the_listing() {
    let mut s = TuiState::new(3);
    assert_eq!(s.status_msg(), "Welcome to kmrp! Select a macro and press [P] to play or [R] to record.");
    assert_eq!(s.handle_key(TuiKey::Up), TuiAction::Nothing);
    assert_eq!(s.handle_key(TuiKey::Down), TuiAction::Analyze);
    assert_eq!(s.handle_key(TuiKey::Down), TuiAction::Analyze);
    assert_eq!(s.handle_key(TuiKey::Down), TuiAction::Nothing);
    assert_eq!(s.selected_index(), 2);
    assert_eq!(s.handle_key(TuiKey::Char('p')), TuiAction::Play(2));
    assert_eq!(s.handle_key(TuiKey::Char('L')), TuiAction::Delete(2));
    s.report_delete("demo", true);
    assert_eq!(s.status_msg(), "Deleted macro 'demo'");
    s.report_delete("demo", false);
    assert_eq!(s.status_msg(), "Failed to delete macro 'demo'");
    s.set_macro_count(2);
    assert_eq!(s.selected_index(), 1);
    s.set_macro_count(0);
    assert_eq!(s.handle_key(TuiKey::Char('p')), TuiAction::Nothing);
    assert_eq!(s.handle_key(TuiKey::Char('r')), TuiAction::Record);
    assert_eq!(s.handle_key(TuiKey::Char('Q')), TuiAction::Nothing);
    assert!(s.should_quit());
}

#[test]
fn edits_the_delay() {
    let mut s = TuiState::new(1);
    s.handle_key(TuiKey::Char('d'));
    assert!(s.show_delay_input());
    assert_eq!(s.input_value(), "0");
    s.handle_key(TuiKey::Backspace);
    for c in "-250".chars() {
        s.handle_key(TuiKey::Char(c));
    }
    assert_eq!(s.handle_key(TuiKey::Up), TuiAction::Nothing);
    assert_eq!(s.handle_key(TuiKey::Enter), TuiAction::Nothing);
    assert!(!s.show_delay_input());
    assert_eq!(s.delay_ms(), -250);
    assert_eq!(s.status_msg(), "Delay offset set to -250 ms");
    s.handle_key(TuiKey::Char('D'));
    assert_eq!(s.input_value(), "-250");
    s.handle_key(TuiKey::Char('x'));
    s.handle_key(TuiKey::Enter);
    assert_eq!(s.delay_ms(), -250);
    assert_eq!(s.status_msg(), "Invalid delay integer value.");
    s.handle_key(TuiKey::Char('d'));
    s.handle_key(TuiKey::Enter);
    assert_eq!(s.delay_ms(), -250);
    s.handle_key(TuiKey::Char('d'));
    s.handle_key(TuiKey::Char('9'));
    assert_eq!(s.handle_key(TuiKey::Esc), TuiAction::Nothing);
    assert_eq!(s.delay_ms(), -250);
    assert!(!s.show_delay_input());
}

#[test]
fn edits_the_speed_through_the_caller() {
    let mut s = TuiState::new(1);
    assert_eq!(s.handle_key(TuiKey::Char('s')), TuiAction::EditSpeed);
    assert!(s.show_speed_input());
    s.set_input("1");
    s.handle_key(TuiKey::Char('.'));
    s.handle_key(TuiKey::Char('5'));
    assert_eq!(s.input_value(), "1.5");
    assert_eq!(s.handle_key(TuiKey::Enter), TuiAction::ApplySpeed);
    assert!(!s.show_speed_input());
    s.set_status("Playback speed scale set to 1.5x");
    assert_eq!(s.status_msg(), "Playback speed scale set to 1.5x");
}

#[test]
fn stops_recording_on_escape_or_q() {
    assert!(is_stop_key(TuiKey::Esc));
    assert!(is_stop_key(TuiKey::Char('q')));
    assert!(is_stop_key(TuiKey::Char('Q')));
    assert!(!is_stop_key(TuiKey::Char('w')));
    assert!(!is_stop_key(TuiKey::Enter));
}

#[test]
fn measures_colored_text() {
    assert_eq!(visible_length("plain"), 5);
    assert_eq!(visible_length("\x1b[1;36mInfo\x1b[0m: ok"), 8);
    assert_eq!(visible_length(""), 0);
    assert_eq!(visible_length("é"), 1);
}

#[test]
fn lays_out_the_info_box() {
    assert_eq!(title_padding("MACRO PLAYBACK MODULE"), (19, 20));
    assert_eq!(title_padding("MACRO RECORDING MODULE"), (19, 19));
    assert_eq!(line_padding(""), 61);
    assert_eq!(line_padding("abc"), 58);
    assert_eq!(line_padding(&"x".repeat(61)), 0);
    assert_eq!(line_padding(&"x".repeat(70)), 0);
    assert_eq!(centered_percentages(60), (20, 60, 20));
    assert_eq!(centered_percentages(25), (37, 25, 37));
}

#[test]
fn labels_key_statistics() {
    assert_eq!(key_label(57), "SPACE");
    assert_eq!(key_label(99), "OTHER");
    assert_eq!(top_key_line(1, 30, 12), "  1. KeyCode 30 (A) pressed 12 times");
}

#[test]
fn visible_lengths_add_up_over_concatenation() {
    let parts = ["plain", "\x1b[1;36mInfo\x1b[0m", "", "é", "\x1b[31m"];
    for a in parts {
        for b in parts {
            let a_closed = a.chars().filter(|&c| c == '\x1b').count() == 0 || a.ends_with('m');
            if a_closed {
                let joined = a.to_string() + b;
                assert_eq!(visible_length(&joined), visible_length(a) + visible_length(b));
            }
        }
    }
    assert_eq!(visible_length(&("\x1b[31".to_string() + "mab")), 2);
    assert_eq!(visible_length("\x1b[31") + visible_length("mab"), 3);
}

#[test]
fn keeps_one_popup_and_a_valid_selection() {
    let mut s = TuiState::new(2);
    let keys = [
        TuiKey::Down, TuiKey::Down, TuiKey::Down, TuiKey::Char('d'), TuiKey::Char('s'), TuiKey::Char('7'),
        TuiKey::Enter, TuiKey::Char('s'), TuiKey::Char('d'), TuiKey::Esc, TuiKey::Up, TuiKey::Up,
        TuiKey::Char('D'), TuiKey::Backspace, TuiKey::Char('S'), TuiKey::Enter,
    ];
    for key in keys {
        let action = s.handle_key(key);
        assert!(!(s.show_delay_input() && s.show_speed_input()));
        assert!(s.selected_index() < s.macro_count());
        match action {
            TuiAction::Play(i) | TuiAction::Delete(i) => assert!(i < s.macro_count()),
            _ => {}
        }
    }
    s.handle_key(TuiKey::Down);
    assert_eq!(s.selected_index(), 1);
    s.set_macro_count(1);
    assert_eq!(s.selected_index(), 0);
    s.set_macro_count(0);
    assert_eq!(s.handle_key(TuiKey::Char('p')), TuiAction::Nothing);
    assert_eq!(s.handle_key(TuiKey::Char('l')), TuiAction::Nothing);
}
