//! The keys of a keyboard, and how names and characters designate them.

use vstd::prelude::*;

verus! {

#[derive(Debug, Clone, Copy, PartialEq, Eq, Hash, Structural)]
pub enum VirtualKey {
    KeyA, KeyB, KeyC, KeyD, KeyE, KeyF, KeyG, KeyH, KeyI, KeyJ, KeyK, KeyL, KeyM, KeyN, KeyO, KeyP, KeyQ, KeyR, KeyS, KeyT, KeyU, KeyV, KeyW, KeyX, KeyY, KeyZ, Num0, Num1, Num2, Num3, Num4, Num5, Num6, Num7, Num8, Num9, Space, Return, Backspace, Tab, Escape, ShiftLeft,
}

/// The key that types `c`, for a lower-case letter, a digit or a space.
pub open spec fn char_key(c: char) -> Option<VirtualKey> {
    if c == 'a' {
        Some(VirtualKey::KeyA)
    } else if c == 'b' {
        Some(VirtualKey::KeyB)
    } else if c == 'c' {
        Some(VirtualKey::KeyC)
    } else if c == 'd' {
        Some(VirtualKey::KeyD)
    } else if c == 'e' {
        Some(VirtualKey::KeyE)
    } else if c == 'f' {
        Some(VirtualKey::KeyF)
    } else if c == 'g' {
        Some(VirtualKey::KeyG)
    } else if c == 'h' {
        Some(VirtualKey::KeyH)
    } else if c == 'i' {
        Some(VirtualKey::KeyI)
    } else if c == 'j' {
        Some(VirtualKey::KeyJ)
    } else if c == 'k' {
        Some(VirtualKey::KeyK)
    } else if c == 'l' {
        Some(VirtualKey::KeyL)
    } else if c == 'm' {
        Some(VirtualKey::KeyM)
    } else if c == 'n' {
        Some(VirtualKey::KeyN)
    } else if c == 'o' {
        Some(VirtualKey::KeyO)
    } else if c == 'p' {
        Some(VirtualKey::KeyP)
    } else if c == 'q' {
        Some(VirtualKey::KeyQ)
    } else if c == 'r' {
        Some(VirtualKey::KeyR)
    } else if c == 's' {
        Some(VirtualKey::KeyS)
    } else if c == 't' {
        Some(VirtualKey::KeyT)
    } else if c == 'u' {
        Some(VirtualKey::KeyU)
    } else if c == 'v' {
        Some(VirtualKey::KeyV)
    } else if c == 'w' {
        Some(VirtualKey::KeyW)
    } else if c == 'x' {
        Some(VirtualKey::KeyX)
    } else if c == 'y' {
        Some(VirtualKey::KeyY)
    } else if c == 'z' {
        Some(VirtualKey::KeyZ)
    } else if c == '0' {
        Some(VirtualKey::Num0)
    } else if c == '1' {
        Some(VirtualKey::Num1)
    } else if c == '2' {
        Some(VirtualKey::Num2)
    } else if c == '3' {
        Some(VirtualKey::Num3)
    } else if c == '4' {
        Some(VirtualKey::Num4)
    } else if c == '5' {
        Some(VirtualKey::Num5)
    } else if c == '6' {
        Some(VirtualKey::Num6)
    } else if c == '7' {
        Some(VirtualKey::Num7)
    } else if c == '8' {
        Some(VirtualKey::Num8)
    } else if c == '9' {
        Some(VirtualKey::Num9)
    } else if c == ' ' {
        Some(VirtualKey::Space)
    } else {
        None
    }
}

/// The key that types `c`, for a lower-case letter, a digit or a space.
pub fn key_for_char(c: char) -> (r: Option<VirtualKey>)
    ensures
        r == char_key(c),
{
    if c == 'a' {
        Some(VirtualKey::KeyA)
    } else if c == 'b' {
        Some(VirtualKey::KeyB)
    } else if c == 'c' {
        Some(VirtualKey::KeyC)
    } else if c == 'd' {
        Some(VirtualKey::KeyD)
    } else if c == 'e' {
        Some(VirtualKey::KeyE)
    } else if c == 'f' {
        Some(VirtualKey::KeyF)
    } else if c == 'g' {
        Some(VirtualKey::KeyG)
    } else if c == 'h' {
        Some(VirtualKey::KeyH)
    } else if c == 'i' {
        Some(VirtualKey::KeyI)
    } else if c == 'j' {
        Some(VirtualKey::KeyJ)
    } else if c == 'k' {
        Some(VirtualKey::KeyK)
    } else if c == 'l' {
        Some(VirtualKey::KeyL)
    } else if c == 'm' {
        Some(VirtualKey::KeyM)
    } else if c == 'n' {
        Some(VirtualKey::KeyN)
    } else if c == 'o' {
        Some(VirtualKey::KeyO)
    } else if c == 'p' {
        Some(VirtualKey::KeyP)
    } else if c == 'q' {
        Some(VirtualKey::KeyQ)
    } else if c == 'r' {
        Some(VirtualKey::KeyR)
    } else if c == 's' {
        Some(VirtualKey::KeyS)
    } else if c == 't' {
        Some(VirtualKey::KeyT)
    } else if c == 'u' {
        Some(VirtualKey::KeyU)
    } else if c == 'v' {
        Some(VirtualKey::KeyV)
    } else if c == 'w' {
        Some(VirtualKey::KeyW)
    } else if c == 'x' {
        Some(VirtualKey::KeyX)
    } else if c == 'y' {
        Some(VirtualKey::KeyY)
    } else if c == 'z' {
        Some(VirtualKey::KeyZ)
    } else if c == '0' {
        Some(VirtualKey::Num0)
    } else if c == '1' {
        Some(VirtualKey::Num1)
    } else if c == '2' {
        Some(VirtualKey::Num2)
    } else if c == '3' {
        Some(VirtualKey::Num3)
    } else if c == '4' {
        Some(VirtualKey::Num4)
    } else if c == '5' {
        Some(VirtualKey::Num5)
    } else if c == '6' {
        Some(VirtualKey::Num6)
    } else if c == '7' {
        Some(VirtualKey::Num7)
    } else if c == '8' {
        Some(VirtualKey::Num8)
    } else if c == '9' {
        Some(VirtualKey::Num9)
    } else if c == ' ' {
        Some(VirtualKey::Space)
    } else {
        None
    }
}

/// `c` with an ASCII upper-case letter turned into its lower-case letter, as
/// `char::to_ascii_lowercase` does.
pub open spec fn ascii_lower(c: char) -> char {
    if 'A' <= c && c <= 'Z' {
        ((c as u32) + 32) as char
    } else {
        c
    }
}

/// `c` in lower case if it is an ASCII capital, else `c` (see `ascii_lower`).
pub fn to_ascii_lower(c: char) -> (r: char)
    ensures
        r == ascii_lower(c),
{
    if 'A' <= c && c <= 'Z' {
        (((c as u8) + 32u8) as char)
    } else {
        c
    }
}

/// The key that a button name designates: a single letter (in either case),
/// digit or space designates the key that types it; the names `Tab`, `Space`,
/// `Return` (or `Enter`), `Backspace` (or `Back`), `Escape` (or `Esc`) and
/// `ShiftLeft` (or `Shift`) designate those keys; any other name designates
/// no key.
pub open spec fn key_of_name(name: Seq<char>) -> Option<VirtualKey> {
    if name.len() == 1 {
        char_key(ascii_lower(name[0]))
    } else {
        named_key(name)
    }
}

pub open spec fn named_key(name: Seq<char>) -> Option<VirtualKey> {
    if name == "Tab"@ {
        Some(VirtualKey::Tab)
    } else if name == "Space"@ {
        Some(VirtualKey::Space)
    } else if name == "Return"@ {
        Some(VirtualKey::Return)
    } else if name == "Enter"@ {
        Some(VirtualKey::Return)
    } else if name == "Backspace"@ {
        Some(VirtualKey::Backspace)
    } else if name == "Back"@ {
        Some(VirtualKey::Backspace)
    } else if name == "Escape"@ {
        Some(VirtualKey::Escape)
    } else if name == "Esc"@ {
        Some(VirtualKey::Escape)
    } else if name == "ShiftLeft"@ {
        Some(VirtualKey::ShiftLeft)
    } else if name == "Shift"@ {
        Some(VirtualKey::ShiftLeft)
    } else {
        None
    }
}

fn named_key_exec(s: String) -> (r: Option<VirtualKey>)
    ensures
        r == named_key(s@),
{
    if s == "Tab".to_owned() {
        Some(VirtualKey::Tab)
    } else if s == "Space".to_owned() {
        Some(VirtualKey::Space)
    } else if s == "Return".to_owned() {
        Some(VirtualKey::Return)
    } else if s == "Enter".to_owned() {
        Some(VirtualKey::Return)
    } else if s == "Backspace".to_owned() {
        Some(VirtualKey::Backspace)
    } else if s == "Back".to_owned() {
        Some(VirtualKey::Backspace)
    } else if s == "Escape".to_owned() {
        Some(VirtualKey::Escape)
    } else if s == "Esc".to_owned() {
        Some(VirtualKey::Escape)
    } else if s == "ShiftLeft".to_owned() {
        Some(VirtualKey::ShiftLeft)
    } else if s == "Shift".to_owned() {
        Some(VirtualKey::ShiftLeft)
    } else {
        None
    }
}

/// The key that a button name designates (see `key_of_name`).
pub fn virtual_key_from_name(name: &str) -> (r: Option<VirtualKey>)
    ensures
        r == key_of_name(name@),
{
    if name.unicode_len() == 1 {
        key_for_char(to_ascii_lower(name.get_char(0)))
    } else {
        named_key_exec(name.to_owned())
    }
}

} // verus!
