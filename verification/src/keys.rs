//! Named keyboard keys and their Linux input event codes.
use vstd::prelude::*;

verus! {

/// A keyboard key as a desktop input hook reports it. Keys that have no
/// Linux input event code here are `Other`.
#[derive(Clone, Copy, Debug, PartialEq, Eq, Structural)]
pub enum InputKey {
    Escape,
    Num1,
    Num2,
    Num3,
    Num4,
    Num5,
    Num6,
    Num7,
    Num8,
    Num9,
    Num0,
    Minus,
    Equal,
    Backspace,
    Tab,
    KeyQ,
    KeyW,
    KeyE,
    KeyR,
    KeyT,
    KeyY,
    KeyU,
    KeyI,
    KeyO,
    KeyP,
    LeftBracket,
    RightBracket,
    Return,
    ControlLeft,
    KeyA,
    KeyS,
    KeyD,
    KeyF,
    KeyG,
    KeyH,
    KeyJ,
    KeyK,
    KeyL,
    SemiColon,
    Quote,
    BackQuote,
    ShiftLeft,
    BackSlash,
    KeyZ,
    KeyX,
    KeyC,
    KeyV,
    KeyB,
    KeyN,
    KeyM,
    Comma,
    Dot,
    Slash,
    ShiftRight,
    KpMultiply,
    Alt,
    Space,
    CapsLock,
    F1,
    F2,
    F3,
    F4,
    F5,
    F6,
    F7,
    F8,
    F9,
    F10,
    NumLock,
    ScrollLock,
    Kp7,
    Kp8,
    Kp9,
    KpMinus,
    Kp4,
    Kp5,
    Kp6,
    KpPlus,
    Kp1,
    Kp2,
    Kp3,
    Kp0,
    KpDelete,
    F11,
    F12,
    KpReturn,
    ControlRight,
    KpDivide,
    PrintScreen,
    AltGr,
    Home,
    UpArrow,
    PageUp,
    LeftArrow,
    RightArrow,
    End,
    DownArrow,
    PageDown,
    Insert,
    Delete,
    Pause,
    MetaLeft,
    MetaRight,
    Other,
}

/// The Linux input event code of `key`; `0` for a key without one.
pub open spec fn key_code(key: InputKey) -> u16 {
    match key {
        InputKey::Escape => 1,
        InputKey::Num1 => 2,
        InputKey::Num2 => 3,
        InputKey::Num3 => 4,
        InputKey::Num4 => 5,
        InputKey::Num5 => 6,
        InputKey::Num6 => 7,
        InputKey::Num7 => 8,
        InputKey::Num8 => 9,
        InputKey::Num9 => 10,
        InputKey::Num0 => 11,
        InputKey::Minus => 12,
        InputKey::Equal => 13,
        InputKey::Backspace => 14,
        InputKey::Tab => 15,
        InputKey::KeyQ => 16,
        InputKey::KeyW => 17,
        InputKey::KeyE => 18,
        InputKey::KeyR => 19,
        InputKey::KeyT => 20,
        InputKey::KeyY => 21,
        InputKey::KeyU => 22,
        InputKey::KeyI => 23,
        InputKey::KeyO => 24,
        InputKey::KeyP => 25,
        InputKey::LeftBracket => 26,
        InputKey::RightBracket => 27,
        InputKey::Return => 28,
        InputKey::ControlLeft => 29,
        InputKey::KeyA => 30,
        InputKey::KeyS => 31,
        InputKey::KeyD => 32,
        InputKey::KeyF => 33,
        InputKey::KeyG => 34,
        InputKey::KeyH => 35,
        InputKey::KeyJ => 36,
        InputKey::KeyK => 37,
        InputKey::KeyL => 38,
        InputKey::SemiColon => 39,
        InputKey::Quote => 40,
        InputKey::BackQuote => 41,
        InputKey::ShiftLeft => 42,
        InputKey::BackSlash => 43,
        InputKey::KeyZ => 44,
        InputKey::KeyX => 45,
        InputKey::KeyC => 46,
        InputKey::KeyV => 47,
        InputKey::KeyB => 48,
        InputKey::KeyN => 49,
        InputKey::KeyM => 50,
        InputKey::Comma => 51,
        InputKey::Dot => 52,
        InputKey::Slash => 53,
        InputKey::ShiftRight => 54,
        InputKey::KpMultiply => 55,
        InputKey::Alt => 56,
        InputKey::Space => 57,
        InputKey::CapsLock => 58,
        InputKey::F1 => 59,
        InputKey::F2 => 60,
        InputKey::F3 => 61,
        InputKey::F4 => 62,
        InputKey::F5 => 63,
        InputKey::F6 => 64,
        InputKey::F7 => 65,
        InputKey::F8 => 66,
        InputKey::F9 => 67,
        InputKey::F10 => 68,
        InputKey::NumLock => 69,
        InputKey::ScrollLock => 70,
        InputKey::Kp7 => 71,
        InputKey::Kp8 => 72,
        InputKey::Kp9 => 73,
        InputKey::KpMinus => 74,
        InputKey::Kp4 => 75,
        InputKey::Kp5 => 76,
        InputKey::Kp6 => 77,
        InputKey::KpPlus => 78,
        InputKey::Kp1 => 79,
        InputKey::Kp2 => 80,
        InputKey::Kp3 => 81,
        InputKey::Kp0 => 82,
        InputKey::KpDelete => 83,
        InputKey::F11 => 87,
        InputKey::F12 => 88,
        InputKey::KpReturn => 96,
        InputKey::ControlRight => 97,
        InputKey::KpDivide => 98,
        InputKey::PrintScreen => 99,
        InputKey::AltGr => 100,
        InputKey::Home => 102,
        InputKey::UpArrow => 103,
        InputKey::PageUp => 104,
        InputKey::LeftArrow => 105,
        InputKey::RightArrow => 106,
        InputKey::End => 107,
        InputKey::DownArrow => 108,
        InputKey::PageDown => 109,
        InputKey::Insert => 110,
        InputKey::Delete => 111,
        InputKey::Pause => 119,
        InputKey::MetaLeft => 125,
        InputKey::MetaRight => 126,
        InputKey::Other => 0,
    }
}

/// The key whose Linux input event code is `code`, if there is one.
pub open spec fn key_for_code(code: u16) -> Option<InputKey> {
    if exists|k: InputKey| k != InputKey::Other && #[trigger] key_code(k) == code {
        Some(choose|k: InputKey| k != InputKey::Other && #[trigger] key_code(k) == code)
    } else {
        None
    }
}

/// No two keys share a code, except that `Other` has code `0`.
pub proof fn lemma_key_code_injective(k1: InputKey, k2: InputKey)
    requires
        k1 != InputKey::Other,
        key_code(k1) == key_code(k2),
    ensures
        k1 == k2,
{
    match k1 {
        InputKey::Escape => { assert(key_code(k2) == 1); },
        InputKey::Num1 => { assert(key_code(k2) == 2); },
        InputKey::Num2 => { assert(key_code(k2) == 3); },
        InputKey::Num3 => { assert(key_code(k2) == 4); },
        InputKey::Num4 => { assert(key_code(k2) == 5); },
        InputKey::Num5 => { assert(key_code(k2) == 6); },
        InputKey::Num6 => { assert(key_code(k2) == 7); },
        InputKey::Num7 => { assert(key_code(k2) == 8); },
        InputKey::Num8 => { assert(key_code(k2) == 9); },
        InputKey::Num9 => { assert(key_code(k2) == 10); },
        InputKey::Num0 => { assert(key_code(k2) == 11); },
        InputKey::Minus => { assert(key_code(k2) == 12); },
        InputKey::Equal => { assert(key_code(k2) == 13); },
        InputKey::Backspace => { assert(key_code(k2) == 14); },
        InputKey::Tab => { assert(key_code(k2) == 15); },
        InputKey::KeyQ => { assert(key_code(k2) == 16); },
        InputKey::KeyW => { assert(key_code(k2) == 17); },
        InputKey::KeyE => { assert(key_code(k2) == 18); },
        InputKey::KeyR => { assert(key_code(k2) == 19); },
        InputKey::KeyT => { assert(key_code(k2) == 20); },
        InputKey::KeyY => { assert(key_code(k2) == 21); },
        InputKey::KeyU => { assert(key_code(k2) == 22); },
        InputKey::KeyI => { assert(key_code(k2) == 23); },
        InputKey::KeyO => { assert(key_code(k2) == 24); },
        InputKey::KeyP => { assert(key_code(k2) == 25); },
        InputKey::LeftBracket => { assert(key_code(k2) == 26); },
        InputKey::RightBracket => { assert(key_code(k2) == 27); },
        InputKey::Return => { assert(key_code(k2) == 28); },
        InputKey::ControlLeft => { assert(key_code(k2) == 29); },
        InputKey::KeyA => { assert(key_code(k2) == 30); },
        InputKey::KeyS => { assert(key_code(k2) == 31); },
        InputKey::KeyD => { assert(key_code(k2) == 32); },
        InputKey::KeyF => { assert(key_code(k2) == 33); },
        InputKey::KeyG => { assert(key_code(k2) == 34); },
        InputKey::KeyH => { assert(key_code(k2) == 35); },
        InputKey::KeyJ => { assert(key_code(k2) == 36); },
        InputKey::KeyK => { assert(key_code(k2) == 37); },
        InputKey::KeyL => { assert(key_code(k2) == 38); },
        InputKey::SemiColon => { assert(key_code(k2) == 39); },
        InputKey::Quote => { assert(key_code(k2) == 40); },
        InputKey::BackQuote => { assert(key_code(k2) == 41); },
        InputKey::ShiftLeft => { assert(key_code(k2) == 42); },
        InputKey::BackSlash => { assert(key_code(k2) == 43); },
        InputKey::KeyZ => { assert(key_code(k2) == 44); },
        InputKey::KeyX => { assert(key_code(k2) == 45); },
        InputKey::KeyC => { assert(key_code(k2) == 46); },
        InputKey::KeyV => { assert(key_code(k2) == 47); },
        InputKey::KeyB => { assert(key_code(k2) == 48); },
        InputKey::KeyN => { assert(key_code(k2) == 49); },
        InputKey::KeyM => { assert(key_code(k2) == 50); },
        InputKey::Comma => { assert(key_code(k2) == 51); },
        InputKey::Dot => { assert(key_code(k2) == 52); },
        InputKey::Slash => { assert(key_code(k2) == 53); },
        InputKey::ShiftRight => { assert(key_code(k2) == 54); },
        InputKey::KpMultiply => { assert(key_code(k2) == 55); },
        InputKey::Alt => { assert(key_code(k2) == 56); },
        InputKey::Space => { assert(key_code(k2) == 57); },
        InputKey::CapsLock => { assert(key_code(k2) == 58); },
        InputKey::F1 => { assert(key_code(k2) == 59); },
        InputKey::F2 => { assert(key_code(k2) == 60); },
        InputKey::F3 => { assert(key_code(k2) == 61); },
        InputKey::F4 => { assert(key_code(k2) == 62); },
        InputKey::F5 => { assert(key_code(k2) == 63); },
        InputKey::F6 => { assert(key_code(k2) == 64); },
        InputKey::F7 => { assert(key_code(k2) == 65); },
        InputKey::F8 => { assert(key_code(k2) == 66); },
        InputKey::F9 => { assert(key_code(k2) == 67); },
        InputKey::F10 => { assert(key_code(k2) == 68); },
        InputKey::NumLock => { assert(key_code(k2) == 69); },
        InputKey::ScrollLock => { assert(key_code(k2) == 70); },
        InputKey::Kp7 => { assert(key_code(k2) == 71); },
        InputKey::Kp8 => { assert(key_code(k2) == 72); },
        InputKey::Kp9 => { assert(key_code(k2) == 73); },
        InputKey::KpMinus => { assert(key_code(k2) == 74); },
        InputKey::Kp4 => { assert(key_code(k2) == 75); },
        InputKey::Kp5 => { assert(key_code(k2) == 76); },
        InputKey::Kp6 => { assert(key_code(k2) == 77); },
        InputKey::KpPlus => { assert(key_code(k2) == 78); },
        InputKey::Kp1 => { assert(key_code(k2) == 79); },
        InputKey::Kp2 => { assert(key_code(k2) == 80); },
        InputKey::Kp3 => { assert(key_code(k2) == 81); },
        InputKey::Kp0 => { assert(key_code(k2) == 82); },
        InputKey::KpDelete => { assert(key_code(k2) == 83); },
        InputKey::F11 => { assert(key_code(k2) == 87); },
        InputKey::F12 => { assert(key_code(k2) == 88); },
        InputKey::KpReturn => { assert(key_code(k2) == 96); },
        InputKey::ControlRight => { assert(key_code(k2) == 97); },
        InputKey::KpDivide => { assert(key_code(k2) == 98); },
        InputKey::PrintScreen => { assert(key_code(k2) == 99); },
        InputKey::AltGr => { assert(key_code(k2) == 100); },
        InputKey::Home => { assert(key_code(k2) == 102); },
        InputKey::UpArrow => { assert(key_code(k2) == 103); },
        InputKey::PageUp => { assert(key_code(k2) == 104); },
        InputKey::LeftArrow => { assert(key_code(k2) == 105); },
        InputKey::RightArrow => { assert(key_code(k2) == 106); },
        InputKey::End => { assert(key_code(k2) == 107); },
        InputKey::DownArrow => { assert(key_code(k2) == 108); },
        InputKey::PageDown => { assert(key_code(k2) == 109); },
        InputKey::Insert => { assert(key_code(k2) == 110); },
        InputKey::Delete => { assert(key_code(k2) == 111); },
        InputKey::Pause => { assert(key_code(k2) == 119); },
        InputKey::MetaLeft => { assert(key_code(k2) == 125); },
        InputKey::MetaRight => { assert(key_code(k2) == 126); },
        InputKey::Other => {},
    }
}

/// The Linux input event code of `key` (`0` when it has none).
pub fn rdev_key_to_evdev(key: InputKey) -> (code: u16)
    ensures
        code == key_code(key),
{
    match key {
        InputKey::Escape => 1,
        InputKey::Num1 => 2,
        InputKey::Num2 => 3,
        InputKey::Num3 => 4,
        InputKey::Num4 => 5,
        InputKey::Num5 => 6,
        InputKey::Num6 => 7,
        InputKey::Num7 => 8,
        InputKey::Num8 => 9,
        InputKey::Num9 => 10,
        InputKey::Num0 => 11,
        InputKey::Minus => 12,
        InputKey::Equal => 13,
        InputKey::Backspace => 14,
        InputKey::Tab => 15,
        InputKey::KeyQ => 16,
        InputKey::KeyW => 17,
        InputKey::KeyE => 18,
        InputKey::KeyR => 19,
        InputKey::KeyT => 20,
        InputKey::KeyY => 21,
        InputKey::KeyU => 22,
        InputKey::KeyI => 23,
        InputKey::KeyO => 24,
        InputKey::KeyP => 25,
        InputKey::LeftBracket => 26,
        InputKey::RightBracket => 27,
        InputKey::Return => 28,
        InputKey::ControlLeft => 29,
        InputKey::KeyA => 30,
        InputKey::KeyS => 31,
        InputKey::KeyD => 32,
        InputKey::KeyF => 33,
        InputKey::KeyG => 34,
        InputKey::KeyH => 35,
        InputKey::KeyJ => 36,
        InputKey::KeyK => 37,
        InputKey::KeyL => 38,
        InputKey::SemiColon => 39,
        InputKey::Quote => 40,
        InputKey::BackQuote => 41,
        InputKey::ShiftLeft => 42,
        InputKey::BackSlash => 43,
        InputKey::KeyZ => 44,
        InputKey::KeyX => 45,
        InputKey::KeyC => 46,
        InputKey::KeyV => 47,
        InputKey::KeyB => 48,
        InputKey::KeyN => 49,
        InputKey::KeyM => 50,
        InputKey::Comma => 51,
        InputKey::Dot => 52,
        InputKey::Slash => 53,
        InputKey::ShiftRight => 54,
        InputKey::KpMultiply => 55,
        InputKey::Alt => 56,
        InputKey::Space => 57,
        InputKey::CapsLock => 58,
        InputKey::F1 => 59,
        InputKey::F2 => 60,
        InputKey::F3 => 61,
        InputKey::F4 => 62,
        InputKey::F5 => 63,
        InputKey::F6 => 64,
        InputKey::F7 => 65,
        InputKey::F8 => 66,
        InputKey::F9 => 67,
        InputKey::F10 => 68,
        InputKey::NumLock => 69,
        InputKey::ScrollLock => 70,
        InputKey::Kp7 => 71,
        InputKey::Kp8 => 72,
        InputKey::Kp9 => 73,
        InputKey::KpMinus => 74,
        InputKey::Kp4 => 75,
        InputKey::Kp5 => 76,
        InputKey::Kp6 => 77,
        InputKey::KpPlus => 78,
        InputKey::Kp1 => 79,
        InputKey::Kp2 => 80,
        InputKey::Kp3 => 81,
        InputKey::Kp0 => 82,
        InputKey::KpDelete => 83,
        InputKey::F11 => 87,
        InputKey::F12 => 88,
        InputKey::KpReturn => 96,
        InputKey::ControlRight => 97,
        InputKey::KpDivide => 98,
        InputKey::PrintScreen => 99,
        InputKey::AltGr => 100,
        InputKey::Home => 102,
        InputKey::UpArrow => 103,
        InputKey::PageUp => 104,
        InputKey::LeftArrow => 105,
        InputKey::RightArrow => 106,
        InputKey::End => 107,
        InputKey::DownArrow => 108,
        InputKey::PageDown => 109,
        InputKey::Insert => 110,
        InputKey::Delete => 111,
        InputKey::Pause => 119,
        InputKey::MetaLeft => 125,
        InputKey::MetaRight => 126,
        InputKey::Other => 0,
    }
}

/// The key with Linux input event code `code`, if any.
pub fn evdev_to_rdev_key(code: u16) -> (key: Option<InputKey>)
    ensures
        key == key_for_code(code),
{
    let r = match code {
        1 => Some(InputKey::Escape),
        2 => Some(InputKey::Num1),
        3 => Some(InputKey::Num2),
        4 => Some(InputKey::Num3),
        5 => Some(InputKey::Num4),
        6 => Some(InputKey::Num5),
        7 => Some(InputKey::Num6),
        8 => Some(InputKey::Num7),
        9 => Some(InputKey::Num8),
        10 => Some(InputKey::Num9),
        11 => Some(InputKey::Num0),
        12 => Some(InputKey::Minus),
        13 => Some(InputKey::Equal),
        14 => Some(InputKey::Backspace),
        15 => Some(InputKey::Tab),
        16 => Some(InputKey::KeyQ),
        17 => Some(InputKey::KeyW),
        18 => Some(InputKey::KeyE),
        19 => Some(InputKey::KeyR),
        20 => Some(InputKey::KeyT),
        21 => Some(InputKey::KeyY),
        22 => Some(InputKey::KeyU),
        23 => Some(InputKey::KeyI),
        24 => Some(InputKey::KeyO),
        25 => Some(InputKey::KeyP),
        26 => Some(InputKey::LeftBracket),
        27 => Some(InputKey::RightBracket),
        28 => Some(InputKey::Return),
        29 => Some(InputKey::ControlLeft),
        30 => Some(InputKey::KeyA),
        31 => Some(InputKey::KeyS),
        32 => Some(InputKey::KeyD),
        33 => Some(InputKey::KeyF),
        34 => Some(InputKey::KeyG),
        35 => Some(InputKey::KeyH),
        36 => Some(InputKey::KeyJ),
        37 => Some(InputKey::KeyK),
        38 => Some(InputKey::KeyL),
        39 => Some(InputKey::SemiColon),
        40 => Some(InputKey::Quote),
        41 => Some(InputKey::BackQuote),
        42 => Some(InputKey::ShiftLeft),
        43 => Some(InputKey::BackSlash),
        44 => Some(InputKey::KeyZ),
        45 => Some(InputKey::KeyX),
        46 => Some(InputKey::KeyC),
        47 => Some(InputKey::KeyV),
        48 => Some(InputKey::KeyB),
        49 => Some(InputKey::KeyN),
        50 => Some(InputKey::KeyM),
        51 => Some(InputKey::Comma),
        52 => Some(InputKey::Dot),
        53 => Some(InputKey::Slash),
        54 => Some(InputKey::ShiftRight),
        55 => Some(InputKey::KpMultiply),
        56 => Some(InputKey::Alt),
        57 => Some(InputKey::Space),
        58 => Some(InputKey::CapsLock),
        59 => Some(InputKey::F1),
        60 => Some(InputKey::F2),
        61 => Some(InputKey::F3),
        62 => Some(InputKey::F4),
        63 => Some(InputKey::F5),
        64 => Some(InputKey::F6),
        65 => Some(InputKey::F7),
        66 => Some(InputKey::F8),
        67 => Some(InputKey::F9),
        68 => Some(InputKey::F10),
        69 => Some(InputKey::NumLock),
        70 => Some(InputKey::ScrollLock),
        71 => Some(InputKey::Kp7),
        72 => Some(InputKey::Kp8),
        73 => Some(InputKey::Kp9),
        74 => Some(InputKey::KpMinus),
        75 => Some(InputKey::Kp4),
        76 => Some(InputKey::Kp5),
        77 => Some(InputKey::Kp6),
        78 => Some(InputKey::KpPlus),
        79 => Some(InputKey::Kp1),
        80 => Some(InputKey::Kp2),
        81 => Some(InputKey::Kp3),
        82 => Some(InputKey::Kp0),
        83 => Some(InputKey::KpDelete),
        87 => Some(InputKey::F11),
        88 => Some(InputKey::F12),
        96 => Some(InputKey::KpReturn),
        97 => Some(InputKey::ControlRight),
        98 => Some(InputKey::KpDivide),
        99 => Some(InputKey::PrintScreen),
        100 => Some(InputKey::AltGr),
        102 => Some(InputKey::Home),
        103 => Some(InputKey::UpArrow),
        104 => Some(InputKey::PageUp),
        105 => Some(InputKey::LeftArrow),
        106 => Some(InputKey::RightArrow),
        107 => Some(InputKey::End),
        108 => Some(InputKey::DownArrow),
        109 => Some(InputKey::PageDown),
        110 => Some(InputKey::Insert),
        111 => Some(InputKey::Delete),
        119 => Some(InputKey::Pause),
        125 => Some(InputKey::MetaLeft),
        126 => Some(InputKey::MetaRight),
        _ => None,
    };
    proof {
        match r {
            Some(k) => {
                assert(key_code(k) == code);
                let w = choose|k2: InputKey| k2 != InputKey::Other && #[trigger] key_code(k2) == code;
                lemma_key_code_injective(k, w);
            },
            None => {
                assert forall|k: InputKey| k != InputKey::Other implies #[trigger] key_code(k) != code by {
                    match k {
                        InputKey::Escape => {},
                        InputKey::Num1 => {},
                        InputKey::Num2 => {},
                        InputKey::Num3 => {},
                        InputKey::Num4 => {},
                        InputKey::Num5 => {},
                        InputKey::Num6 => {},
                        InputKey::Num7 => {},
                        InputKey::Num8 => {},
                        InputKey::Num9 => {},
                        InputKey::Num0 => {},
                        InputKey::Minus => {},
                        InputKey::Equal => {},
                        InputKey::Backspace => {},
                        InputKey::Tab => {},
                        InputKey::KeyQ => {},
                        InputKey::KeyW => {},
                        InputKey::KeyE => {},
                        InputKey::KeyR => {},
                        InputKey::KeyT => {},
                        InputKey::KeyY => {},
                        InputKey::KeyU => {},
                        InputKey::KeyI => {},
                        InputKey::KeyO => {},
                        InputKey::KeyP => {},
                        InputKey::LeftBracket => {},
                        InputKey::RightBracket => {},
                        InputKey::Return => {},
                        InputKey::ControlLeft => {},
                        InputKey::KeyA => {},
                        InputKey::KeyS => {},
                        InputKey::KeyD => {},
                        InputKey::KeyF => {},
                        InputKey::KeyG => {},
                        InputKey::KeyH => {},
                        InputKey::KeyJ => {},
                        InputKey::KeyK => {},
                        InputKey::KeyL => {},
                        InputKey::SemiColon => {},
                        InputKey::Quote => {},
                        InputKey::BackQuote => {},
                        InputKey::ShiftLeft => {},
                        InputKey::BackSlash => {},
                        InputKey::KeyZ => {},
                        InputKey::KeyX => {},
                        InputKey::KeyC => {},
                        InputKey::KeyV => {},
                        InputKey::KeyB => {},
                        InputKey::KeyN => {},
                        InputKey::KeyM => {},
                        InputKey::Comma => {},
                        InputKey::Dot => {},
                        InputKey::Slash => {},
                        InputKey::ShiftRight => {},
                        InputKey::KpMultiply => {},
                        InputKey::Alt => {},
                        InputKey::Space => {},
                        InputKey::CapsLock => {},
                        InputKey::F1 => {},
                        InputKey::F2 => {},
                        InputKey::F3 => {},
                        InputKey::F4 => {},
                        InputKey::F5 => {},
                        InputKey::F6 => {},
                        InputKey::F7 => {},
                        InputKey::F8 => {},
                        InputKey::F9 => {},
                        InputKey::F10 => {},
                        InputKey::NumLock => {},
                        InputKey::ScrollLock => {},
                        InputKey::Kp7 => {},
                        InputKey::Kp8 => {},
                        InputKey::Kp9 => {},
                        InputKey::KpMinus => {},
                        InputKey::Kp4 => {},
                        InputKey::Kp5 => {},
                        InputKey::Kp6 => {},
                        InputKey::KpPlus => {},
                        InputKey::Kp1 => {},
                        InputKey::Kp2 => {},
                        InputKey::Kp3 => {},
                        InputKey::Kp0 => {},
                        InputKey::KpDelete => {},
                        InputKey::F11 => {},
                        InputKey::F12 => {},
                        InputKey::KpReturn => {},
                        InputKey::ControlRight => {},
                        InputKey::KpDivide => {},
                        InputKey::PrintScreen => {},
                        InputKey::AltGr => {},
                        InputKey::Home => {},
                        InputKey::UpArrow => {},
                        InputKey::PageUp => {},
                        InputKey::LeftArrow => {},
                        InputKey::RightArrow => {},
                        InputKey::End => {},
                        InputKey::DownArrow => {},
                        InputKey::PageDown => {},
                        InputKey::Insert => {},
                        InputKey::Delete => {},
                        InputKey::Pause => {},
                        InputKey::MetaLeft => {},
                        InputKey::MetaRight => {},
                        InputKey::Other => {},
                    }
                }
            },
        }
    }
    r
}

/// Each key's code is the one the Linux input event codes give it
/// (`KEY_ESC` is 1, `KEY_1` to `KEY_9` are 2 to 10, `KEY_0` is 11, the letter
/// rows start at `KEY_Q` = 16, `KEY_A` = 30 and `KEY_Z` = 44, and so on), so
/// a key recorded through the desktop hook replays as the same key.
pub proof fn lemma_linux_key_codes()
    ensures
        key_code(InputKey::Escape) == 1,
        key_code(InputKey::Num1) == 2,
        key_code(InputKey::Num2) == 3,
        key_code(InputKey::Num3) == 4,
        key_code(InputKey::Num4) == 5,
        key_code(InputKey::Num5) == 6,
        key_code(InputKey::Num6) == 7,
        key_code(InputKey::Num7) == 8,
        key_code(InputKey::Num8) == 9,
        key_code(InputKey::Num9) == 10,
        key_code(InputKey::Num0) == 11,
        key_code(InputKey::Minus) == 12,
        key_code(InputKey::Equal) == 13,
        key_code(InputKey::Backspace) == 14,
        key_code(InputKey::Tab) == 15,
        key_code(InputKey::KeyQ) == 16,
        key_code(InputKey::KeyW) == 17,
        key_code(InputKey::KeyE) == 18,
        key_code(InputKey::KeyR) == 19,
        key_code(InputKey::KeyT) == 20,
        key_code(InputKey::KeyY) == 21,
        key_code(InputKey::KeyU) == 22,
        key_code(InputKey::KeyI) == 23,
        key_code(InputKey::KeyO) == 24,
        key_code(InputKey::KeyP) == 25,
        key_code(InputKey::LeftBracket) == 26,
        key_code(InputKey::RightBracket) == 27,
        key_code(InputKey::Return) == 28,
        key_code(InputKey::ControlLeft) == 29,
        key_code(InputKey::KeyA) == 30,
        key_code(InputKey::KeyS) == 31,
        key_code(InputKey::KeyD) == 32,
        key_code(InputKey::KeyF) == 33,
        key_code(InputKey::KeyG) == 34,
        key_code(InputKey::KeyH) == 35,
        key_code(InputKey::KeyJ) == 36,
        key_code(InputKey::KeyK) == 37,
        key_code(InputKey::KeyL) == 38,
        key_code(InputKey::SemiColon) == 39,
        key_code(InputKey::Quote) == 40,
        key_code(InputKey::BackQuote) == 41,
        key_code(InputKey::ShiftLeft) == 42,
        key_code(InputKey::BackSlash) == 43,
        key_code(InputKey::KeyZ) == 44,
        key_code(InputKey::KeyX) == 45,
        key_code(InputKey::KeyC) == 46,
        key_code(InputKey::KeyV) == 47,
        key_code(InputKey::KeyB) == 48,
        key_code(InputKey::KeyN) == 49,
        key_code(InputKey::KeyM) == 50,
        key_code(InputKey::Comma) == 51,
        key_code(InputKey::Dot) == 52,
        key_code(InputKey::Slash) == 53,
        key_code(InputKey::ShiftRight) == 54,
        key_code(InputKey::KpMultiply) == 55,
        key_code(InputKey::Alt) == 56,
        key_code(InputKey::Space) == 57,
        key_code(InputKey::CapsLock) == 58,
        key_code(InputKey::F1) == 59,
        key_code(InputKey::F2) == 60,
        key_code(InputKey::F3) == 61,
        key_code(InputKey::F4) == 62,
        key_code(InputKey::F5) == 63,
        key_code(InputKey::F6) == 64,
        key_code(InputKey::F7) == 65,
        key_code(InputKey::F8) == 66,
        key_code(InputKey::F9) == 67,
        key_code(InputKey::F10) == 68,
        key_code(InputKey::NumLock) == 69,
        key_code(InputKey::ScrollLock) == 70,
        key_code(InputKey::Kp7) == 71,
        key_code(InputKey::Kp8) == 72,
        key_code(InputKey::Kp9) == 73,
        key_code(InputKey::KpMinus) == 74,
        key_code(InputKey::Kp4) == 75,
        key_code(InputKey::Kp5) == 76,
        key_code(InputKey::Kp6) == 77,
        key_code(InputKey::KpPlus) == 78,
        key_code(InputKey::Kp1) == 79,
        key_code(InputKey::Kp2) == 80,
        key_code(InputKey::Kp3) == 81,
        key_code(InputKey::Kp0) == 82,
        key_code(InputKey::KpDelete) == 83,
        key_code(InputKey::F11) == 87,
        key_code(InputKey::F12) == 88,
        key_code(InputKey::KpReturn) == 96,
        key_code(InputKey::ControlRight) == 97,
        key_code(InputKey::KpDivide) == 98,
        key_code(InputKey::PrintScreen) == 99,
        key_code(InputKey::AltGr) == 100,
        key_code(InputKey::Home) == 102,
        key_code(InputKey::UpArrow) == 103,
        key_code(InputKey::PageUp) == 104,
        key_code(InputKey::LeftArrow) == 105,
        key_code(InputKey::RightArrow) == 106,
        key_code(InputKey::End) == 107,
        key_code(InputKey::DownArrow) == 108,
        key_code(InputKey::PageDown) == 109,
        key_code(InputKey::Insert) == 110,
        key_code(InputKey::Delete) == 111,
        key_code(InputKey::Pause) == 119,
        key_code(InputKey::MetaLeft) == 125,
        key_code(InputKey::MetaRight) == 126,
{
}

/// Every key that has a code is found again from it.
pub proof fn lemma_key_code_roundtrip(key: InputKey)
    requires
        key != InputKey::Other,
    ensures
        key_code(key) != 0,
        key_for_code(key_code(key)) == Some(key),
{
    let w = choose|k2: InputKey| k2 != InputKey::Other && #[trigger] key_code(k2) == key_code(key);
    lemma_key_code_injective(key, w);
    match key {
        InputKey::Escape => {},
        InputKey::Num1 => {},
        InputKey::Num2 => {},
        InputKey::Num3 => {},
        InputKey::Num4 => {},
        InputKey::Num5 => {},
        InputKey::Num6 => {},
        InputKey::Num7 => {},
        InputKey::Num8 => {},
        InputKey::Num9 => {},
        InputKey::Num0 => {},
        InputKey::Minus => {},
        InputKey::Equal => {},
        InputKey::Backspace => {},
        InputKey::Tab => {},
        InputKey::KeyQ => {},
        InputKey::KeyW => {},
        InputKey::KeyE => {},
        InputKey::KeyR => {},
        InputKey::KeyT => {},
        InputKey::KeyY => {},
        InputKey::KeyU => {},
        InputKey::KeyI => {},
        InputKey::KeyO => {},
        InputKey::KeyP => {},
        InputKey::LeftBracket => {},
        InputKey::RightBracket => {},
        InputKey::Return => {},
        InputKey::ControlLeft => {},
        InputKey::KeyA => {},
        InputKey::KeyS => {},
        InputKey::KeyD => {},
        InputKey::KeyF => {},
        InputKey::KeyG => {},
        InputKey::KeyH => {},
        InputKey::KeyJ => {},
        InputKey::KeyK => {},
        InputKey::KeyL => {},
        InputKey::SemiColon => {},
        InputKey::Quote => {},
        InputKey::BackQuote => {},
        InputKey::ShiftLeft => {},
        InputKey::BackSlash => {},
        InputKey::KeyZ => {},
        InputKey::KeyX => {},
        InputKey::KeyC => {},
        InputKey::KeyV => {},
        InputKey::KeyB => {},
        InputKey::KeyN => {},
        InputKey::KeyM => {},
        InputKey::Comma => {},
        InputKey::Dot => {},
        InputKey::Slash => {},
        InputKey::ShiftRight => {},
        InputKey::KpMultiply => {},
        InputKey::Alt => {},
        InputKey::Space => {},
        InputKey::CapsLock => {},
        InputKey::F1 => {},
        InputKey::F2 => {},
        InputKey::F3 => {},
        InputKey::F4 => {},
        InputKey::F5 => {},
        InputKey::F6 => {},
        InputKey::F7 => {},
        InputKey::F8 => {},
        InputKey::F9 => {},
        InputKey::F10 => {},
        InputKey::NumLock => {},
        InputKey::ScrollLock => {},
        InputKey::Kp7 => {},
        InputKey::Kp8 => {},
        InputKey::Kp9 => {},
        InputKey::KpMinus => {},
        InputKey::Kp4 => {},
        InputKey::Kp5 => {},
        InputKey::Kp6 => {},
        InputKey::KpPlus => {},
        InputKey::Kp1 => {},
        InputKey::Kp2 => {},
        InputKey::Kp3 => {},
        InputKey::Kp0 => {},
        InputKey::KpDelete => {},
        InputKey::F11 => {},
        InputKey::F12 => {},
        InputKey::KpReturn => {},
        InputKey::ControlRight => {},
        InputKey::KpDivide => {},
        InputKey::PrintScreen => {},
        InputKey::AltGr => {},
        InputKey::Home => {},
        InputKey::UpArrow => {},
        InputKey::PageUp => {},
        InputKey::LeftArrow => {},
        InputKey::RightArrow => {},
        InputKey::End => {},
        InputKey::DownArrow => {},
        InputKey::PageDown => {},
        InputKey::Insert => {},
        InputKey::Delete => {},
        InputKey::Pause => {},
        InputKey::MetaLeft => {},
        InputKey::MetaRight => {},
        InputKey::Other => {},
    }
}

/// Every code that names a key is that key's code.
pub proof fn lemma_code_key_roundtrip(code: u16)
    ensures
        key_for_code(code) matches Some(k) ==> k != InputKey::Other && key_code(k) == code,
{
}

} // verus!
