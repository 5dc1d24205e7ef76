//! The sixteen keys and where they lie on a keyboard.

use vstd::prelude::*;
use vstd::string::StrSliceExecFns;

verus! {

/// The number of keys on the keypad.
pub const KEY_COUNT: usize = 16;

/// The key of the keypad that lies under the keyboard character `c`, if
/// any. The keypad's four rows `123C`, `456D`, `789E`, `A0BF` lie under
/// the keyboard's `1234`, `qwer`, `asdf`, `zxcv`.
pub open spec fn key_of(c: char) -> Option<usize> {
    if c == '1' {
        Some(0x1usize)
    } else if c == '2' {
        Some(0x2usize)
    } else if c == '3' {
        Some(0x3usize)
    } else if c == '4' {
        Some(0xCusize)
    } else if c == 'q' {
        Some(0x4usize)
    } else if c == 'w' {
        Some(0x5usize)
    } else if c == 'e' {
        Some(0x6usize)
    } else if c == 'r' {
        Some(0xDusize)
    } else if c == 'a' {
        Some(0x7usize)
    } else if c == 's' {
        Some(0x8usize)
    } else if c == 'd' {
        Some(0x9usize)
    } else if c == 'f' {
        Some(0xEusize)
    } else if c == 'z' {
        Some(0xAusize)
    } else if c == 'x' {
        Some(0x0usize)
    } else if c == 'c' {
        Some(0xBusize)
    } else if c == 'v' {
        Some(0xFusize)
    } else {
        None
    }
}

/// The key that the text of a keyboard key stands for: that of its one
/// character, and none for any other text.
pub open spec fn key_of_text(text: Seq<char>) -> Option<usize> {
    if text.len() == 1 {
        key_of(text[0])
    } else {
        None
    }
}

/// Maps the text of a keyboard key to the number of a key of the keypad.
pub fn map_key_to_index(key_text: &str) -> (key: Option<usize>)
    ensures
        key == key_of_text(key_text@),
        key matches Some(k) ==> k < KEY_COUNT,
{
    if key_text.unicode_len() != 1 {
        return None;
    }
    match key_text.get_char(0) {
        '1' => Some(0x1),
        '2' => Some(0x2),
        '3' => Some(0x3),
        '4' => Some(0xC),
        'q' => Some(0x4),
        'w' => Some(0x5),
        'e' => Some(0x6),
        'r' => Some(0xD),
        'a' => Some(0x7),
        's' => Some(0x8),
        'd' => Some(0x9),
        'f' => Some(0xE),
        'z' => Some(0xA),
        'x' => Some(0x0),
        'c' => Some(0xB),
        'v' => Some(0xF),
        _ => None,
    }
}

} // verus!
