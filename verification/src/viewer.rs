//! The viewer's side of the input channel: which command, if any, an event
//! of the window gives rise to.
//!
//! Input is relayed only while the pointer is inside the window. Pointer
//! positions are rescaled from the window's size to the size of the source's
//! display.

use crate::command::{command_bytes, held_after, suppressed, Command, InputEncoder};
use crate::convert::div_toward_zero;
use vstd::prelude::*;

verus! {

/// An event of the window that shows the source's display.
#[derive(Clone, Copy, Debug, PartialEq, Eq, Structural)]
pub enum UiEvent {
    /// The pointer came into the window.
    Enter,
    /// The pointer left the window.
    Leave,
    /// A key went down.
    KeyDown(u8),
    /// A key went down that the window takes for a shortcut.
    Shortcut(u8),
    /// A key went up.
    KeyUp(u8),
    /// The pointer moved to this position of the window.
    Move(i32, i32),
    /// A mouse button went down.
    Push(u8),
    /// A mouse button went up.
    Released(u8),
    /// The pointer moved to this position of the window with a button held.
    Drag(i32, i32),
    /// The wheel turned up by one notch.
    WheelUp,
    /// The wheel turned down by one notch.
    WheelDown,
    /// Anything else.
    Other,
}

/// A position along a side of `widget` pixels, rescaled to a side of
/// `source` pixels. The quotient is rounded toward zero, and of the result
/// the low sixteen bits are kept.
pub open spec fn rescale_spec(source: int, pos: int, widget: int) -> u16 {
    (div_toward_zero(source * pos, widget) % 0x1_0000) as u16
}

/// Whether input is relayed after an event.
pub open spec fn hooked_after(hooked: bool, event: UiEvent) -> bool {
    match event {
        UiEvent::Enter => true,
        UiEvent::Leave => false,
        _ => hooked,
    }
}

/// The command that an event gives rise to, in a window of `widget_w` by
/// `widget_h` pixels that shows a display of `width` by `height` pixels.
pub open spec fn command_for(
    hooked: bool,
    event: UiEvent,
    width: u16,
    height: u16,
    widget_w: i32,
    widget_h: i32,
) -> Option<Command> {
    if !hooked {
        None
    } else {
        match event {
            UiEvent::KeyDown(key) => Some(Command::KeyDown(key)),
            UiEvent::Shortcut(key) => Some(Command::KeyDown(key)),
            UiEvent::KeyUp(key) => Some(Command::KeyUp(key)),
            UiEvent::Move(x, y) => Some(
                Command::Move(
                    rescale_spec(width as int, x as int, widget_w as int),
                    rescale_spec(height as int, y as int, widget_h as int),
                ),
            ),
            UiEvent::Drag(x, y) => Some(
                Command::Move(
                    rescale_spec(width as int, x as int, widget_w as int),
                    rescale_spec(height as int, y as int, widget_h as int),
                ),
            ),
            UiEvent::Push(button) => Some(Command::MouseButtonDown(button)),
            UiEvent::Released(button) => Some(Command::MouseButtonUp(button)),
            UiEvent::WheelUp => Some(Command::WheelUp),
            UiEvent::WheelDown => Some(Command::WheelDown),
            _ => None,
        }
    }
}

/// Rescales a position along a side of `widget` pixels to a side of
/// `source` pixels.
pub fn rescale(source: u16, pos: i32, widget: i32) -> (scaled: u16)
    requires
        widget != 0,
    ensures
        scaled == rescale_spec(source as int, pos as int, widget as int),
{
    assert(-0x8000_0000 * 0xFFFF <= source * pos <= 0x8000_0000 * 0xFFFF) by (nonlinear_arith)
        requires
            0 <= source <= 0xFFFF,
            -0x8000_0000 <= pos < 0x8000_0000,
    ;
    let product: i64 = (source as i64) * (pos as i64);
    proof {
        let n = product as int;
        let d = widget as int;
        let q = div_toward_zero(n, d);
        assert(-0x8000_0000 * 0xFFFF <= q <= 0x8000_0000 * 0xFFFF) by (nonlinear_arith)
            requires
                d != 0,
                -0x8000_0000 * 0xFFFF <= n <= 0x8000_0000 * 0xFFFF,
                q == (if n >= 0 {
                    n / d
                } else {
                    -((-n) / d)
                }),
        ;
    }
    let quotient: i64 = product / (widget as i64);
    assert(quotient == div_toward_zero(product as int, widget as int));
    let low: i64 = quotient % 0x1_0000;
    if low < 0 {
        (low + 0x1_0000) as u16
    } else {
        low as u16
    }
}

/// The viewer's relay of input to the source.
pub struct InputRelay {
    hooked: bool,
    encoder: InputEncoder,
    width: u16,
    height: u16,
}

impl InputRelay {
    /// Whether the pointer is inside the window, so that input is relayed.
    pub closed spec fn hooked(&self) -> bool {
        self.hooked
    }

    /// The keys that the source takes for held.
    pub closed spec fn held(&self) -> Set<u8> {
        self.encoder.held()
    }

    /// The width of the source's display.
    pub closed spec fn width(&self) -> u16 {
        self.width
    }

    /// The height of the source's display.
    pub closed spec fn height(&self) -> u16 {
        self.height
    }

    /// A relay for a display of `width` by `height` pixels. The pointer
    /// starts outside the window, and no key is held.
    pub fn new(width: u16, height: u16) -> (relay: Self)
        ensures
            !relay.hooked(),
            relay.held() == Set::<u8>::empty(),
            relay.width() == width,
            relay.height() == height,
    {
        InputRelay { hooked: false, encoder: InputEncoder::new(), width, height }
    }

    /// Takes an event of the window, which is `widget_w` by `widget_h`
    /// pixels large, and gives the bytes to send for it, if any.
    ///
    /// Nothing is sent while the pointer is outside the window, for an event
    /// that is no input, and for a key-down of a key that is held.
    pub fn handle(&mut self, event: UiEvent, widget_w: i32, widget_h: i32) -> (bytes: Option<
        Vec<u8>,
    >)
        requires
            event is Move || event is Drag ==> widget_w != 0 && widget_h != 0,
        ensures
            final(self).width() == old(self).width(),
            final(self).height() == old(self).height(),
            final(self).hooked() == hooked_after(old(self).hooked(), event),
            match command_for(
                old(self).hooked(),
                event,
                old(self).width(),
                old(self).height(),
                widget_w,
                widget_h,
            ) {
                Some(cmd) => {
                    &&& final(self).held() == held_after(old(self).held(), cmd)
                    &&& bytes is None <==> suppressed(old(self).held(), cmd)
                    &&& bytes matches Some(b) ==> b@ == command_bytes(cmd)
                },
                None => bytes is None && final(self).held() == old(self).held(),
            },
    {
        let cmd = match event {
            UiEvent::Enter => {
                self.hooked = true;
                return None;
            },
            UiEvent::Leave => {
                self.hooked = false;
                return None;
            },
            UiEvent::Other => {
                return None;
            },
            _ => {
                if !self.hooked {
                    return None;
                }
                match event {
                    UiEvent::KeyDown(key) => Command::KeyDown(key),
                    UiEvent::Shortcut(key) => Command::KeyDown(key),
                    UiEvent::KeyUp(key) => Command::KeyUp(key),
                    UiEvent::Move(x, y) => Command::Move(
                        rescale(self.width, x, widget_w),
                        rescale(self.height, y, widget_h),
                    ),
                    UiEvent::Drag(x, y) => Command::Move(
                        rescale(self.width, x, widget_w),
                        rescale(self.height, y, widget_h),
                    ),
                    UiEvent::Push(button) => Command::MouseButtonDown(button),
                    UiEvent::Released(button) => Command::MouseButtonUp(button),
                    UiEvent::WheelUp => Command::WheelUp,
                    _ => Command::WheelDown,
                }
            },
        };
        self.encoder.emit(cmd)
    }
}

} // verus!
