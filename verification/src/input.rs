//! Encoding of key presses into the bytes a shell expects on its input.

use vstd::prelude::*;

verus! {

/// The named (non-character) keys the terminal distinguishes.
#[derive(Clone, Copy, PartialEq, Eq, Debug, Structural)]
pub enum NamedKey {
    Enter,
    Backspace,
    Tab,
    Escape,
    ArrowUp,
    ArrowDown,
    ArrowRight,
    ArrowLeft,
    Home,
    End,
    Delete,
    PageUp,
    PageDown,
    Space,
    /// Any other named key; it sends nothing.
    Other,
}

/// The logical meaning of a key press.
pub enum LogicalKey {
    Named(NamedKey),
    /// A key that produces characters, with the characters it stands for.
    Character(Vec<char>),
    /// A key whose meaning is not known.
    Unidentified,
}

/// A key press: its logical key and the text it would insert, as UTF-8.
pub struct KeyPress {
    pub logical_key: LogicalKey,
    pub text: Option<Vec<u8>>,
}

/// The byte Control with `c` sends, if any: letters (either case) give 1 to
/// 26, and space, `[`, `\` and `]` give NUL, ESC, FS and GS.
pub open spec fn ctrl_byte(c: char) -> Option<u8> {
    let code = c as u32;
    if 97 <= code <= 122 {
        Some((code - 96) as u8)
    } else if 65 <= code <= 90 {
        Some((code - 64) as u8)
    } else if c == ' ' {
        Some(0)
    } else if c == '[' {
        Some(0x1b)
    } else if c == '\\' {
        Some(0x1c)
    } else if c == ']' {
        Some(0x1d)
    } else {
        None
    }
}

/// The bytes a named key sends, if any.
pub open spec fn named_key_bytes(k: NamedKey) -> Option<Seq<u8>> {
    match k {
        NamedKey::Enter => Some(seq![13u8]),
        NamedKey::Backspace => Some(seq![0x7fu8]),
        NamedKey::Tab => Some(seq![9u8]),
        NamedKey::Escape => Some(seq![0x1bu8]),
        NamedKey::ArrowUp => Some(seq![0x1bu8, 91, 65]),
        NamedKey::ArrowDown => Some(seq![0x1bu8, 91, 66]),
        NamedKey::ArrowRight => Some(seq![0x1bu8, 91, 67]),
        NamedKey::ArrowLeft => Some(seq![0x1bu8, 91, 68]),
        NamedKey::Home => Some(seq![0x1bu8, 91, 72]),
        NamedKey::End => Some(seq![0x1bu8, 91, 70]),
        NamedKey::Delete => Some(seq![0x1bu8, 91, 51, 126]),
        NamedKey::PageUp => Some(seq![0x1bu8, 91, 53, 126]),
        NamedKey::PageDown => Some(seq![0x1bu8, 91, 54, 126]),
        NamedKey::Space => Some(seq![32u8]),
        NamedKey::Other => None,
    }
}

/// The control byte a key press sends with Control held, if any: that of
/// the first character of a character key.
pub open spec fn ctrl_key_byte(key: &KeyPress, control: bool) -> Option<u8> {
    if control {
        match key.logical_key {
            LogicalKey::Character(chars) => if chars@.len() > 0 {
                ctrl_byte(chars@[0])
            } else {
                None
            },
            _ => None,
        }
    } else {
        None
    }
}

/// The bytes a key press sends: a control byte where Control applies, else
/// the sequence of a named key, else the key's text.
pub open spec fn spec_encode_key(key: &KeyPress, control: bool) -> Option<Seq<u8>> {
    match ctrl_key_byte(key, control) {
        Some(b) => Some(seq![b]),
        None => match key.logical_key {
            LogicalKey::Named(k) => named_key_bytes(k),
            _ => match key.text {
                Some(t) => Some(t@),
                None => None,
            },
        },
    }
}

fn control_byte(c: char) -> (b: Option<u8>)
    ensures
        b == ctrl_byte(c),
{
    let code = c as u32;
    let up = if 97 <= code && code <= 122 { code - 32 } else { code };
    if 65 <= up && up <= 90 {
        let byte = up as u8;
        let masked = byte & 0x1f;
        assert(65 <= byte <= 90 ==> byte & 0x1f == byte - 64) by (bit_vector);
        return Some(masked);
    }
    if c == ' ' {
        Some(0)
    } else if c == '[' {
        Some(0x1b)
    } else if c == '\\' {
        Some(0x1c)
    } else if c == ']' {
        Some(0x1d)
    } else {
        None
    }
}

fn named_bytes(k: NamedKey) -> (bytes: Option<Vec<u8>>)
    ensures
        match bytes {
            Some(v) => named_key_bytes(k) == Some(v@),
            None => named_key_bytes(k) is None,
        },
{
    let v = match k {
        NamedKey::Enter => vec![13u8],
        NamedKey::Backspace => vec![0x7fu8],
        NamedKey::Tab => vec![9u8],
        NamedKey::Escape => vec![0x1bu8],
        NamedKey::ArrowUp => vec![0x1bu8, 91, 65],
        NamedKey::ArrowDown => vec![0x1bu8, 91, 66],
        NamedKey::ArrowRight => vec![0x1bu8, 91, 67],
        NamedKey::ArrowLeft => vec![0x1bu8, 91, 68],
        NamedKey::Home => vec![0x1bu8, 91, 72],
        NamedKey::End => vec![0x1bu8, 91, 70],
        NamedKey::Delete => vec![0x1bu8, 91, 51, 126],
        NamedKey::PageUp => vec![0x1bu8, 91, 53, 126],
        NamedKey::PageDown => vec![0x1bu8, 91, 54, 126],
        NamedKey::Space => vec![32u8],
        NamedKey::Other => {
            return None;
        },
    };
    assert(named_key_bytes(k) == Some(v@));
    Some(v)
}

/// The bytes a key press sends to the shell, if any.
pub fn encode_key(key: &KeyPress, control: bool) -> (bytes: Option<Vec<u8>>)
    ensures
        match bytes {
            Some(v) => spec_encode_key(key, control) == Some(v@),
            None => spec_encode_key(key, control) is None,
        },
{
    if control {
        if let LogicalKey::Character(chars) = &key.logical_key {
            if chars.len() > 0 {
                if let Some(b) = control_byte(chars[0]) {
                    let v = vec![b];
                    assert(v@ == seq![b]);
                    return Some(v);
                }
            }
        }
    }
    match &key.logical_key {
        LogicalKey::Named(k) => named_bytes(*k),
        _ => match &key.text {
            Some(t) => {
                let mut v: Vec<u8> = Vec::new();
                let mut i: usize = 0;
                while i < t.len()
                    invariant
                        i <= t@.len(),
                        v@ == t@.subrange(0, i as int),
                    decreases t@.len() - i,
                {
                    v.push(t[i]);
                    i += 1;
                    assert(v@ =~= t@.subrange(0, i as int));
                }
                assert(t@.subrange(0, t@.len() as int) =~= t@);
                Some(v)
            },
            None => None,
        },
    }
}

/// Control with a letter does not depend on its case and gives the letter's
/// place in the alphabet, 1 to 26.
pub proof fn law_ctrl_letters(c: char)
    requires
        'a' <= c <= 'z',
    ensures
        ctrl_byte(c) == ctrl_byte(((c as u32) - 32) as char),
        ctrl_byte(c) == Some(((c as u32) - 96) as u8),
        1 <= (c as u32) - 96 <= 26,
{
}

/// Without Control, a character key sends its text and a named key its
/// fixed sequence.
pub proof fn law_plain_keys(key: &KeyPress)
    ensures
        key.logical_key matches LogicalKey::Named(k) ==> spec_encode_key(key, false) == named_key_bytes(k),
        key.logical_key matches LogicalKey::Character(_) ==> spec_encode_key(key, false) == match key.text {
            Some(t) => Some(t@),
            None => None::<Seq<u8>>,
        },
{
}

/// Each named key sends its fixed VT sequence, with or without Control:
/// Enter CR, Backspace DEL, Tab HT, Escape ESC, Space a space; the arrows
/// `ESC [ A/B/C/D` for up, down, right, left; Home `ESC [ H`, End `ESC [ F`;
/// Delete, Page Up and Page Down `ESC [ 3/5/6 ~`; any other named key
/// nothing.
pub proof fn law_named_key_sequences(key: &KeyPress, control: bool)
    ensures
        key.logical_key matches LogicalKey::Named(k) ==> spec_encode_key(key, control) == match k {
            NamedKey::Enter => Some(seq![0x0du8]),
            NamedKey::Backspace => Some(seq![0x7fu8]),
            NamedKey::Tab => Some(seq![0x09u8]),
            NamedKey::Escape => Some(seq![0x1bu8]),
            NamedKey::ArrowUp => Some(seq![0x1bu8, 0x5b, 0x41]),
            NamedKey::ArrowDown => Some(seq![0x1bu8, 0x5b, 0x42]),
            NamedKey::ArrowRight => Some(seq![0x1bu8, 0x5b, 0x43]),
            NamedKey::ArrowLeft => Some(seq![0x1bu8, 0x5b, 0x44]),
            NamedKey::Home => Some(seq![0x1bu8, 0x5b, 0x48]),
            NamedKey::End => Some(seq![0x1bu8, 0x5b, 0x46]),
            NamedKey::Delete => Some(seq![0x1bu8, 0x5b, 0x33, 0x7e]),
            NamedKey::PageUp => Some(seq![0x1bu8, 0x5b, 0x35, 0x7e]),
            NamedKey::PageDown => Some(seq![0x1bu8, 0x5b, 0x36, 0x7e]),
            NamedKey::Space => Some(seq![0x20u8]),
            NamedKey::Other => None::<Seq<u8>>,
        },
{
}

/// Different named keys that send something send different sequences; in
/// particular the four arrows are told apart.
pub proof fn law_named_keys_distinct(a: NamedKey, b: NamedKey)
    requires
        a != b,
        named_key_bytes(a) is Some,
    ensures
        named_key_bytes(a) != named_key_bytes(b),
{
    let sa = named_key_bytes(a).unwrap();
    if let Some(sb) = named_key_bytes(b) {
        if sa.len() == sb.len() {
            if sa.len() == 1 {
                assert(sa[0] != sb[0]);
            } else if sa.len() == 3 {
                assert(sa[2] != sb[2]);
            } else {
                assert(sa[2] != sb[2]);
            }
        }
    }
}

/// Control with a character key sends one byte: a letter's place in the
/// alphabet (either case), NUL for space, ESC for `[`, FS for `\`, GS for
/// `]`; other characters send the key's text.
pub proof fn law_control_characters(key: &KeyPress)
    ensures
        match key.logical_key {
            LogicalKey::Character(chars) => chars@.len() > 0 ==> {
                let c = chars@[0];
                let code = c as u32;
                spec_encode_key(key, true) == if 97 <= code <= 122 {
                    Some(seq![(code - 96) as u8])
                } else if 65 <= code <= 90 {
                    Some(seq![(code - 64) as u8])
                } else if c == ' ' {
                    Some(seq![0u8])
                } else if c == '[' {
                    Some(seq![0x1bu8])
                } else if c == '\\' {
                    Some(seq![0x1cu8])
                } else if c == ']' {
                    Some(seq![0x1du8])
                } else {
                    match key.text {
                        Some(t) => Some(t@),
                        None => None::<Seq<u8>>,
                    }
                }
            },
            _ => true,
        },
{
}

} // verus!
