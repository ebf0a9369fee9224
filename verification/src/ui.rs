//! Text layout for the terminal output: widths of colored text, the padding
//! of the information box, popup proportions, and the dashboard's key
//! statistics lines.
use vstd::prelude::*;
use crate::text::{chars_of, text, append_chars, format_u64, digits_of};
use crate::keys::{InputKey, key_code, key_for_code, lemma_key_code_roundtrip, lemma_linux_key_codes};
use vstd::string::StringSliceAdditionalSpecFns;

verus! {

/// The number of characters of `s` that show on a terminal when the
/// processing starts inside an escape sequence or not: an escape character
/// starts a sequence, which ends with the next `m`; the characters of a
/// sequence do not show.
pub open spec fn visible_count(s: Seq<char>, in_escape: bool) -> nat
    decreases s.len(),
{
    if s.len() == 0 {
        0
    } else if s[0] == '\x1b' {
        visible_count(s.drop_first(), true)
    } else if in_escape {
        visible_count(s.drop_first(), s[0] != 'm')
    } else {
        1 + visible_count(s.drop_first(), false)
    }
}

/// Whether the processing of `s` ends inside an escape sequence, starting
/// inside one or not.
pub open spec fn ends_in_escape(s: Seq<char>, in_escape: bool) -> bool
    decreases s.len(),
{
    if s.len() == 0 {
        in_escape
    } else if s[0] == '\x1b' {
        ends_in_escape(s.drop_first(), true)
    } else if in_escape {
        ends_in_escape(s.drop_first(), s[0] != 'm')
    } else {
        ends_in_escape(s.drop_first(), false)
    }
}

/// The visible characters of a concatenation are those of its first part
/// and those of its second part, the second read in the escape state the
/// first leaves.
pub proof fn lemma_visible_count_concat(a: Seq<char>, b: Seq<char>, in_escape: bool)
    ensures
        visible_count(a + b, in_escape) == visible_count(a, in_escape) + visible_count(
            b,
            ends_in_escape(a, in_escape),
        ),
    decreases a.len(),
{
    if a.len() == 0 {
        assert(a + b =~= b);
    } else {
        assert((a + b).drop_first() =~= a.drop_first() + b);
        assert((a + b)[0] == a[0]);
        let next = if a[0] == '\x1b' {
            true
        } else if in_escape {
            a[0] != 'm'
        } else {
            false
        };
        lemma_visible_count_concat(a.drop_first(), b, next);
    }
}

/// A text in which every escape character is followed later by an `m` does
/// not end inside an escape sequence.
pub proof fn lemma_closed_escapes(s: Seq<char>, in_escape: bool)
    requires
        forall|i: int| 0 <= i < s.len() && s[i] == '\x1b' ==> exists|j: int| i < j < s.len() && s[j] == 'm',
        in_escape ==> exists|j: int| 0 <= j < s.len() && s[j] == 'm',
    ensures
        !ends_in_escape(s, in_escape),
    decreases s.len(),
{
    if s.len() > 0 {
        let d = s.drop_first();
        let next = if s[0] == '\x1b' {
            true
        } else if in_escape {
            s[0] != 'm'
        } else {
            false
        };
        assert forall|i: int| 0 <= i < d.len() && d[i] == '\x1b' implies exists|j: int| i < j < d.len() && d[j]
            == 'm' by {
            assert(s[i + 1] == '\x1b');
            let j = choose|j: int| i + 1 < j < s.len() && s[j] == 'm';
            assert(d[j - 1] == 'm');
        }
        if next {
            let j = if s[0] == '\x1b' {
                choose|j: int| 0 < j < s.len() && s[j] == 'm'
            } else {
                choose|j: int| 0 <= j < s.len() && s[j] == 'm'
            };
            assert(j != 0);
            assert(d[j - 1] == 'm');
        }
        lemma_closed_escapes(d, next);
    }
}

/// The visible length of a text whose escape sequences are all closed,
/// followed by any text, is the sum of their visible lengths.
pub proof fn lemma_visible_length_concat(a: Seq<char>, b: Seq<char>)
    requires
        forall|i: int| 0 <= i < a.len() && a[i] == '\x1b' ==> exists|j: int| i < j < a.len() && a[j] == 'm',
    ensures
        visible_count(a + b, false) == visible_count(a, false) + visible_count(b, false),
{
    lemma_closed_escapes(a, false);
    lemma_visible_count_concat(a, b, false);
}

/// How many characters of `s` show on a terminal, leaving out the ANSI
/// color sequences.
pub fn visible_length(s: &str) -> (len: usize)
    ensures
        len == visible_count(s@, false),
{
    let chars = chars_of(s);
    let mut len: usize = 0;
    let mut in_escape = false;
    let mut i: usize = 0;
    assert(chars@.skip(0) =~= s@);
    while i < chars.len()
        invariant
            chars@ == s@,
            i <= chars@.len(),
            len <= i,
            len + visible_count(chars@.skip(i as int), in_escape) == visible_count(s@, false),
        decreases chars@.len() - i,
    {
        assert(chars@.skip(i as int).drop_first() =~= chars@.skip(i as int + 1));
        assert(chars@.skip(i as int)[0] == chars@[i as int]);
        if chars[i] == '\x1b' {
            in_escape = true;
            i = i + 1;
            continue;
        }
        if in_escape {
            if chars[i] == 'm' {
                in_escape = false;
            }
            i = i + 1;
            continue;
        }
        len = len + 1;
        i = i + 1;
    }
    assert(chars@.skip(i as int) =~= Seq::<char>::empty());
    len
}

/// Text without escape characters shows every one of its characters.
pub proof fn lemma_plain_text_visible(s: Seq<char>)
    requires
        forall|i: int| 0 <= i < s.len() ==> s[i] != '\x1b',
    ensures
        visible_count(s, false) == s.len(),
    decreases s.len(),
{
    if s.len() > 0 {
        let t = s.drop_first();
        assert forall|i: int| 0 <= i < t.len() implies t[i] != '\x1b' by {
            assert(t[i] == s[i + 1]);
        }
        lemma_plain_text_visible(t);
    }
}

proof fn lemma_escape_rest_hidden(body: Seq<char>, rest: Seq<char>)
    requires
        forall|i: int| 0 <= i < body.len() ==> body[i] != 'm' && body[i] != '\x1b',
    ensures
        visible_count(body + seq!['m'] + rest, true) == visible_count(rest, false),
    decreases body.len(),
{
    let s = body + seq!['m'] + rest;
    if body.len() == 0 {
        assert(s.drop_first() =~= rest);
    } else {
        let b = body.drop_first();
        assert forall|i: int| 0 <= i < b.len() implies b[i] != 'm' && b[i] != '\x1b' by {
            assert(b[i] == body[i + 1]);
        }
        lemma_escape_rest_hidden(b, rest);
        assert(s.drop_first() =~= b + seq!['m'] + rest);
        assert(s[0] == body[0]);
    }
}

/// An escape sequence (the escape character, then characters other than
/// `m` and the escape character, then `m`) shows nothing: the text after it
/// shows as it would alone.
pub proof fn lemma_escape_sequence_hidden(body: Seq<char>, rest: Seq<char>)
    requires
        forall|i: int| 0 <= i < body.len() ==> body[i] != 'm' && body[i] != '\x1b',
    ensures
        visible_count(seq!['\x1b'] + body + seq!['m'] + rest, false) == visible_count(rest, false),
{
    let s = seq!['\x1b'] + body + seq!['m'] + rest;
    assert(s.drop_first() =~= body + seq!['m'] + rest);
    lemma_escape_rest_hidden(body, rest);
}

/// The width of the information box, borders included.
pub const INFO_BOX_WIDTH: usize = 64;

/// The spaces left and right of the title in the information box's title
/// row: the title, with a space on each side, centered in the 62 columns
/// inside the borders, the odd space going right. The title's length is
/// counted in bytes.
pub fn title_padding(title: &str) -> (pads: (usize, usize))
    requires
        title.spec_bytes().len() + 2 <= 62,
    ensures
        pads.0 == (62 - (title.spec_bytes().len() + 2)) / 2,
        pads.0 + pads.1 + title.spec_bytes().len() + 2 == 62,
{
    let title_len = title.len() + 2;
    let left = (INFO_BOX_WIDTH - 2 - title_len) / 2;
    let right = INFO_BOX_WIDTH - 2 - title_len - left;
    (left, right)
}

/// The number of spaces written after a line of the information box,
/// before the closing space and border: enough to fill the 62 columns
/// inside the borders, one less for the opening space, none for a line that
/// is already as wide.
pub fn line_padding(line: &str) -> (spaces: usize)
    ensures
        visible_count(line@, false) + 1 < 62 ==> spaces == 62 - visible_count(line@, false) - 1,
        visible_count(line@, false) + 1 >= 62 ==> spaces == 0,
{
    let vis_len = visible_length(line);
    let pad = if INFO_BOX_WIDTH - 2 > vis_len {
        INFO_BOX_WIDTH - 2 - vis_len
    } else {
        0
    };
    if pad > 1 {
        pad - 1
    } else {
        0
    }
}

/// The percentages that center a part of `percent` percent: equal margins
/// on both sides, rounded down.
pub fn centered_percentages(percent: u16) -> (parts: (u16, u16, u16))
    requires
        percent <= 100,
    ensures
        parts.0 == (100 - percent) / 2,
        parts.1 == percent,
        parts.2 == (100 - percent) / 2,
{
    let margin = (100 - percent) / 2;
    (margin, percent, margin)
}

/// The name shown for a key code in the dashboard's key statistics.
pub open spec fn key_label_of(code: u16) -> Seq<char> {
    if code == 1 {
        "ESC"@
    } else if code == 16 {
        "Q"@
    } else if code == 30 {
        "A"@
    } else if code == 31 {
        "S"@
    } else if code == 32 {
        "D"@
    } else if code == 44 {
        "Z"@
    } else if code == 45 {
        "X"@
    } else if code == 57 {
        "SPACE"@
    } else if code == 28 {
        "ENTER"@
    } else {
        "OTHER"@
    }
}

/// The name the dashboard's key statistics give a key: the letter of a
/// letter key, `ESC`, `SPACE` and `ENTER` for those keys, for the keys that
/// the statistics name; `OTHER` for every other key.
pub open spec fn shown_key_name(key: InputKey) -> Seq<char> {
    match key {
        InputKey::Escape => "ESC"@,
        InputKey::KeyQ => "Q"@,
        InputKey::KeyA => "A"@,
        InputKey::KeyS => "S"@,
        InputKey::KeyD => "D"@,
        InputKey::KeyZ => "Z"@,
        InputKey::KeyX => "X"@,
        InputKey::Space => "SPACE"@,
        InputKey::Return => "ENTER"@,
        _ => "OTHER"@,
    }
}

/// The label of a key code names the key that has that Linux code, and a
/// code that belongs to no key is labelled `OTHER`.
pub proof fn lemma_key_label_names_key(key: InputKey, code: u16)
    ensures
        key_label_of(key_code(key)) == shown_key_name(key),
        key_for_code(code) is None ==> key_label_of(code) == "OTHER"@,
{
    lemma_linux_key_codes();
    if key != InputKey::Other {
        lemma_key_code_roundtrip(key);
    }
    if key_label_of(code) != "OTHER"@ {
        let k = if code == 1 {
            InputKey::Escape
        } else if code == 16 {
            InputKey::KeyQ
        } else if code == 30 {
            InputKey::KeyA
        } else if code == 31 {
            InputKey::KeyS
        } else if code == 32 {
            InputKey::KeyD
        } else if code == 44 {
            InputKey::KeyZ
        } else if code == 45 {
            InputKey::KeyX
        } else if code == 57 {
            InputKey::Space
        } else {
            InputKey::Return
        };
        assert(k != InputKey::Other && key_code(k) == code);
    }
}

/// The name shown for a key code.
pub fn key_label(code: u16) -> (label: &'static str)
    ensures
        label@ == key_label_of(code),
{
    match code {
        1 => "ESC",
        16 => "Q",
        30 => "A",
        31 => "S",
        32 => "D",
        44 => "Z",
        45 => "X",
        57 => "SPACE",
        28 => "ENTER",
        _ => "OTHER",
    }
}

/// The statistics line of the `rank`-th most pressed key.
pub open spec fn top_key_line_of(rank: u64, code: u16, count: u64) -> Seq<char> {
    "  "@ + digits_of(rank as nat) + ". KeyCode "@ + digits_of(code as nat) + " ("@ + key_label_of(code)
        + ") pressed "@ + digits_of(count as nat) + " times"@
}

/// The statistics line of the `rank`-th most pressed key, pressed `count`
/// times.
pub fn top_key_line(rank: u64, code: u16, count: u64) -> (line: String)
    ensures
        line@ == top_key_line_of(rank, code, count),
{
    let mut line = text("  ");
    append_chars(&mut line, format_u64(rank).as_str());
    append_chars(&mut line, ". KeyCode ");
    append_chars(&mut line, format_u64(code as u64).as_str());
    append_chars(&mut line, " (");
    append_chars(&mut line, key_label(code));
    append_chars(&mut line, ") pressed ");
    append_chars(&mut line, format_u64(count).as_str());
    append_chars(&mut line, " times");
    line
}

} // verus!
