use diffscreen::command::Command;
use diffscreen::inject::{injection_for, Injection, WHEEL_STEP};
use diffscreen::key_mouse::{key_to_enigo, mouse_to_engin, Button, Key};

#[test]
fn named_keys() {
    let table = [
        (27u8, Key::Escape),
        (190, Key::F1),
        (191, Key::F2),
        (192, Key::F3),
        (193, Key::F4),
        (194, Key::F5),
        (195, Key::F6),
        (196, Key::F7),
        (197, Key::F8),
        (198, Key::F9),
        (199, Key::F10),
        (200, Key::F11),
        (201, Key::F12),
        (255, Key::Delete),
        (87, Key::End),
        (8, Key::Backspace),
        (9, Key::Tab),
        (229, Key::CapsLock),
        (13, Key::Return),
        (225, Key::Shift),
        (226, Key::Shift),
        (82, Key::UpArrow),
        (227, Key::Control),
        (228, Key::Control),
        (233, Key::Alt),
        (234, Key::Alt),
        (32, Key::Space),
        (81, Key::LeftArrow),
        (84, Key::DownArrow),
        (83, Key::RightArrow),
        (86, Key::PageDown),
        (80, Key::Home),
        (85, Key::PageUp),
    ];
    for (code, key) in table {
        assert_eq!(key_to_enigo(code), Some(key));
    }
}

#[test]
fn character_keys() {
    for c in "`0123456789-=[]\\;',./abcdefghijklmnopqrstuvwxyz".chars() {
        assert_eq!(key_to_enigo(c as u8), Some(Key::Unicode(c)));
    }
}

#[test]
fn every_other_code_is_no_key() {
    let mut known = 0;
    for code in 0..=255u8 {
        if key_to_enigo(code).is_some() {
            known += 1;
        }
    }
    assert_eq!(known, 33 + 47);
    for code in [0u8, 19, 65, 90, 95, 123, 189, 202, 230, 235, 254] {
        assert_eq!(key_to_enigo(code), None);
    }
    // capital letters have no key of their own: P to W are navigation keys
    assert_eq!(key_to_enigo(b'A'), None);
    assert_eq!(key_to_enigo(b'W'), Some(Key::End));
}

#[test]
fn buttons() {
    assert_eq!(mouse_to_engin(233), Some(Button::Left));
    assert_eq!(mouse_to_engin(235), Some(Button::Right));
    for code in 0..=255u8 {
        if code != 233 && code != 235 {
            assert_eq!(mouse_to_engin(code), None);
        }
    }
}

#[test]
fn injections() {
    assert_eq!(WHEEL_STEP, 2);
    assert_eq!(injection_for(Command::KeyDown(97)), Injection::KeyDown(Key::Unicode('a')));
    assert_eq!(injection_for(Command::KeyUp(27)), Injection::KeyUp(Key::Escape));
    assert_eq!(injection_for(Command::KeyDown(65)), Injection::Nothing);
    assert_eq!(injection_for(Command::KeyUp(0)), Injection::Nothing);
    assert_eq!(injection_for(Command::MouseButtonDown(233)), Injection::ButtonDown(Button::Left));
    assert_eq!(injection_for(Command::MouseButtonUp(235)), Injection::ButtonUp(Button::Right));
    assert_eq!(injection_for(Command::MouseButtonUp(234)), Injection::Nothing);
    assert_eq!(injection_for(Command::MouseButtonDown(1)), Injection::Nothing);
    assert_eq!(injection_for(Command::WheelUp), Injection::Scroll(-2));
    assert_eq!(injection_for(Command::WheelDown), Injection::Scroll(2));
    assert_eq!(injection_for(Command::Move(258, 772)), Injection::MoveTo(258, 772));
    assert_eq!(injection_for(Command::Move(65535, 0)), Injection::MoveTo(65535, 0));
}
