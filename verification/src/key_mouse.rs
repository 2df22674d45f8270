//! What the key and button codes of the input channel mean on the source.
//!
//! A key code is the low byte of the viewer's key symbol: for a character
//! key that is the character itself, for the other keys the low byte of
//! their symbol in the X11 keyboard encoding. The eight codes from 80 to 87
//! stand for the navigation keys, not for the capital letters P to W.

use vstd::prelude::*;

verus! {

/// A key that the source can press and release.
#[derive(Clone, Copy, Debug, PartialEq, Eq, Structural)]
pub enum Key {
    Escape,
    F1,
    F2,
    F3,
    F4,
    F5,
    F6,
    F7,
    F8,
    F9,
    F10,
    F11,
    F12,
    Delete,
    End,
    Backspace,
    Tab,
    CapsLock,
    Return,
    Shift,
    Control,
    Alt,
    Space,
    UpArrow,
    DownArrow,
    LeftArrow,
    RightArrow,
    PageUp,
    PageDown,
    Home,
    /// The key that types the given character.
    Unicode(char),
}

/// A mouse button that the source can press and release.
#[derive(Clone, Copy, Debug, PartialEq, Eq, Structural)]
pub enum Button {
    Left,
    Right,
}

/// Whether a key code stands for the character with that code: a small
/// letter, a digit, or one of the punctuation marks of the main block.
pub open spec fn is_character_code(key: u8) -> bool {
    ||| 97 <= key <= 122
    ||| 48 <= key <= 57
    ||| key == 96 || key == 45 || key == 61
    ||| key == 91 || key == 93 || key == 92
    ||| key == 59 || key == 39
    ||| key == 44 || key == 46 || key == 47
}

/// The function key with the given number, from 1 to 12.
pub open spec fn function_key(n: int) -> Key {
    if n == 1 {
        Key::F1
    } else if n == 2 {
        Key::F2
    } else if n == 3 {
        Key::F3
    } else if n == 4 {
        Key::F4
    } else if n == 5 {
        Key::F5
    } else if n == 6 {
        Key::F6
    } else if n == 7 {
        Key::F7
    } else if n == 8 {
        Key::F8
    } else if n == 9 {
        Key::F9
    } else if n == 10 {
        Key::F10
    } else if n == 11 {
        Key::F11
    } else {
        Key::F12
    }
}

/// The key that a key code stands for, if it stands for one.
pub open spec fn key_for(key: u8) -> Option<Key> {
    if is_character_code(key) {
        Some(Key::Unicode(key as char))
    } else if 190 <= key <= 201 {
        Some(function_key(key - 189))
    } else if key == 27 {
        Some(Key::Escape)
    } else if key == 8 {
        Some(Key::Backspace)
    } else if key == 9 {
        Some(Key::Tab)
    } else if key == 13 {
        Some(Key::Return)
    } else if key == 32 {
        Some(Key::Space)
    } else if key == 80 {
        Some(Key::Home)
    } else if key == 81 {
        Some(Key::LeftArrow)
    } else if key == 82 {
        Some(Key::UpArrow)
    } else if key == 83 {
        Some(Key::RightArrow)
    } else if key == 84 {
        Some(Key::DownArrow)
    } else if key == 85 {
        Some(Key::PageUp)
    } else if key == 86 {
        Some(Key::PageDown)
    } else if key == 87 {
        Some(Key::End)
    } else if key == 225 || key == 226 {
        Some(Key::Shift)
    } else if key == 227 || key == 228 {
        Some(Key::Control)
    } else if key == 229 {
        Some(Key::CapsLock)
    } else if key == 233 || key == 234 {
        Some(Key::Alt)
    } else if key == 255 {
        Some(Key::Delete)
    } else {
        None
    }
}

/// The button that a button code stands for, if it stands for one.
pub open spec fn button_for(key: u8) -> Option<Button> {
    if key == 233 {
        Some(Button::Left)
    } else if key == 235 {
        Some(Button::Right)
    } else {
        None
    }
}

/// The mouse button for a button code, or `None` for a code that stands for
/// no button.
pub fn mouse_to_engin(key: u8) -> (button: Option<Button>)
    ensures
        button == button_for(key),
{
    match key {
        233 => Some(Button::Left),
        235 => Some(Button::Right),
        _ => None,
    }
}

/// The key for a key code, or `None` for a code that stands for no key.
pub fn key_to_enigo(key: u8) -> (found: Option<Key>)
    ensures
        found == key_for(key),
{
    match key {
        27 => Some(Key::Escape),
        190 => Some(Key::F1),
        191 => Some(Key::F2),
        192 => Some(Key::F3),
        193 => Some(Key::F4),
        194 => Some(Key::F5),
        195 => Some(Key::F6),
        196 => Some(Key::F7),
        197 => Some(Key::F8),
        198 => Some(Key::F9),
        199 => Some(Key::F10),
        200 => Some(Key::F11),
        201 => Some(Key::F12),
        255 => Some(Key::Delete),
        87 => Some(Key::End),
        96 => Some(Key::Unicode('`')),
        48 => Some(Key::Unicode('0')),
        49 => Some(Key::Unicode('1')),
        50 => Some(Key::Unicode('2')),
        51 => Some(Key::Unicode('3')),
        52 => Some(Key::Unicode('4')),
        53 => Some(Key::Unicode('5')),
        54 => Some(Key::Unicode('6')),
        55 => Some(Key::Unicode('7')),
        56 => Some(Key::Unicode('8')),
        57 => Some(Key::Unicode('9')),
        45 => Some(Key::Unicode('-')),
        61 => Some(Key::Unicode('=')),
        8 => Some(Key::Backspace),
        9 => Some(Key::Tab),
        91 => Some(Key::Unicode('[')),
        93 => Some(Key::Unicode(']')),
        92 => Some(Key::Unicode('\\')),
        229 => Some(Key::CapsLock),
        59 => Some(Key::Unicode(';')),
        39 => Some(Key::Unicode('\'')),
        13 => Some(Key::Return),
        225 => Some(Key::Shift),
        44 => Some(Key::Unicode(',')),
        46 => Some(Key::Unicode('.')),
        47 => Some(Key::Unicode('/')),
        226 => Some(Key::Shift),
        82 => Some(Key::UpArrow),
        227 => Some(Key::Control),
        233 => Some(Key::Alt),
        32 => Some(Key::Space),
        234 => Some(Key::Alt),
        228 => Some(Key::Control),
        81 => Some(Key::LeftArrow),
        84 => Some(Key::DownArrow),
        83 => Some(Key::RightArrow),
        86 => Some(Key::PageDown),
        80 => Some(Key::Home),
        85 => Some(Key::PageUp),
        _ => {
            if key >= 97 && key <= 122 {
                Some(Key::Unicode(key as char))
            } else {
                None
            }
        },
    }
}

} // verus!
