//! What the source does with a received command: which key or button it
//! presses or releases, how far it scrolls, where it puts the pointer.

use crate::command::Command;
use crate::key_mouse::{button_for, key_for, key_to_enigo, mouse_to_engin, Button, Key};
use vstd::prelude::*;

verus! {

/// The distance scrolled for one notch of the wheel.
pub const WHEEL_STEP: i32 = 2;

/// One call of the input injection backend.
#[derive(Clone, Copy, Debug, PartialEq, Eq, Structural)]
pub enum Injection {
    KeyUp(Key),
    KeyDown(Key),
    ButtonUp(Button),
    ButtonDown(Button),
    /// Scroll vertically by this much; up is negative.
    Scroll(i32),
    /// Put the pointer at this position of the display.
    MoveTo(i32, i32),
    /// The command names a key or button that the source does not know.
    Nothing,
}

/// What the source injects for a command.
pub open spec fn injection_spec(cmd: Command) -> Injection {
    match cmd {
        Command::KeyUp(code) => match key_for(code) {
            Some(key) => Injection::KeyUp(key),
            None => Injection::Nothing,
        },
        Command::KeyDown(code) => match key_for(code) {
            Some(key) => Injection::KeyDown(key),
            None => Injection::Nothing,
        },
        Command::MouseButtonUp(code) => match button_for(code) {
            Some(button) => Injection::ButtonUp(button),
            None => Injection::Nothing,
        },
        Command::MouseButtonDown(code) => match button_for(code) {
            Some(button) => Injection::ButtonDown(button),
            None => Injection::Nothing,
        },
        Command::WheelUp => Injection::Scroll((-WHEEL_STEP) as i32),
        Command::WheelDown => Injection::Scroll(WHEEL_STEP),
        Command::Move(x, y) => Injection::MoveTo(x as i32, y as i32),
    }
}

/// What the source injects for a command. A command with a code that
/// stands for no key or button is read and passed over.
pub fn injection_for(cmd: Command) -> (injection: Injection)
    ensures
        injection == injection_spec(cmd),
{
    match cmd {
        Command::KeyUp(code) => match key_to_enigo(code) {
            Some(key) => Injection::KeyUp(key),
            None => Injection::Nothing,
        },
        Command::KeyDown(code) => match key_to_enigo(code) {
            Some(key) => Injection::KeyDown(key),
            None => Injection::Nothing,
        },
        Command::MouseButtonUp(code) => match mouse_to_engin(code) {
            Some(button) => Injection::ButtonUp(button),
            None => Injection::Nothing,
        },
        Command::MouseButtonDown(code) => match mouse_to_engin(code) {
            Some(button) => Injection::ButtonDown(button),
            None => Injection::Nothing,
        },
        Command::WheelUp => Injection::Scroll(-WHEEL_STEP),
        Command::WheelDown => Injection::Scroll(WHEEL_STEP),
        Command::Move(x, y) => Injection::MoveTo(x as i32, y as i32),
    }
}

} // verus!
