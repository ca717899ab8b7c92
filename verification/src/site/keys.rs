//! Key presses as the site receives them.

use crate::virtual_key::{ascii_lower, char_key, key_for_char, key_of_name, to_ascii_lower, VirtualKey};
use vstd::prelude::*;

verus! {

/// The key of a key press.
#[derive(Debug, Clone, Copy, PartialEq, Eq, Structural)]
pub enum KeyCode {
    Char(char),
    Enter,
    Backspace,
    Left,
    Right,
    Up,
    Down,
    Esc,
    Tab,
    /// Any other key.
    Other,
}

/// A key press with its modifiers.
#[derive(Debug, Clone, Copy, PartialEq, Eq, Structural)]
pub struct KeyEvent {
    pub code: KeyCode,
    pub shift: bool,
    pub ctrl: bool,
    pub alt: bool,
}

/// The keyboard key that a key press lights up: letters (in either case),
/// digits and space light their own key; enter, backspace, tab and escape
/// theirs; nothing else lights a key.
pub open spec fn key_of_code(code: KeyCode) -> Option<VirtualKey> {
    match code {
        KeyCode::Char(c) => char_key(ascii_lower(c)),
        KeyCode::Enter => Some(VirtualKey::Return),
        KeyCode::Backspace => Some(VirtualKey::Backspace),
        KeyCode::Tab => Some(VirtualKey::Tab),
        KeyCode::Esc => Some(VirtualKey::Escape),
        _ => None,
    }
}

/// The keyboard key a key press lights up (see `key_of_code`).
pub fn keycode_to_virtual_key(code: &KeyCode) -> (r: Option<VirtualKey>)
    ensures
        r == key_of_code(*code),
{
    match code {
        KeyCode::Char(c) => key_for_char(to_ascii_lower(*c)),
        KeyCode::Enter => Some(VirtualKey::Return),
        KeyCode::Backspace => Some(VirtualKey::Backspace),
        KeyCode::Tab => Some(VirtualKey::Tab),
        KeyCode::Esc => Some(VirtualKey::Escape),
        _ => None,
    }
}


/// Exactly the lower-case letters, the digits and the space have a key of
/// their own, and no two of them share one; a capital lights the key of its
/// lower-case letter, and a one-letter button name stands for the same key
/// as that letter typed.
pub proof fn lemma_char_keys(c: char, d: char)
    ensures
        ('a' <= c <= 'z' || '0' <= c <= '9' || c == ' ') <==> char_key(c) is Some,
        char_key(c) is Some && char_key(c) == char_key(d) ==> c == d,
        'a' <= c <= 'z' ==> key_of_code(KeyCode::Char(((c as u32) - 32) as char)) == key_of_code(
            KeyCode::Char(c),
        ),
        key_of_name(seq![c]) == key_of_code(KeyCode::Char(c)),
{
    if 'a' <= c <= 'z' {
        let u = ((c as u32) - 32) as char;
        assert('A' <= u <= 'Z');
        assert(ascii_lower(u) == c);
    }
}

} // verus!
