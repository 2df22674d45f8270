use diffscreen::viewer::{rescale, InputRelay, UiEvent};

#[test]
fn rescale_exact_values() {
    // a display of 1920 shown in a window of 960: positions double
    assert_eq!(rescale(1920, 0, 960), 0);
    assert_eq!(rescale(1920, 1, 960), 2);
    assert_eq!(rescale(1920, 959, 960), 1918);
    // a display of 1080 shown in a window of 700: 1080 * 333 / 700 = 513.77
    assert_eq!(rescale(1080, 333, 700), 513);
    assert_eq!(rescale(4, 3, 4), 3);
    assert_eq!(rescale(0, 10, 10), 0);
    assert_eq!(rescale(65535, 1, 1), 65535);
}

#[test]
fn rescale_keeps_the_low_sixteen_bits() {
    // outside the window to the left: -2 is 0xFFFE
    assert_eq!(rescale(1920, -1, 960), 0xFFFE);
    // rounded toward zero: -1 / 2 is 0
    assert_eq!(rescale(1, -1, 2), 0);
    assert_eq!(rescale(3, -1, 2), 0xFFFF);
    // far outside to the right: 65535 * 2 = 0x1FFFE
    assert_eq!(rescale(65535, 2, 1), 0xFFFE);
    assert_eq!(rescale(65535, i32::MAX, 1), ((65535i64 * i32::MAX as i64) & 0xFFFF) as u16);
    assert_eq!(rescale(65535, i32::MIN, 1), ((65535i64 * i32::MIN as i64) & 0xFFFF) as u16);
    assert_eq!(rescale(100, 7, -1), (-700i32) as u16);
    assert_eq!(rescale(65535, i32::MIN, -1), ((65535i64 * (1i64 << 31)) & 0xFFFF) as u16);
}

#[test]
fn nothing_is_relayed_outside_the_window() {
    let mut relay = InputRelay::new(1920, 1080);
    let events = [
        UiEvent::KeyDown(65),
        UiEvent::Shortcut(65),
        UiEvent::KeyUp(65),
        UiEvent::Move(1, 1),
        UiEvent::Push(233),
        UiEvent::Released(233),
        UiEvent::Drag(1, 1),
        UiEvent::WheelUp,
        UiEvent::WheelDown,
        UiEvent::Other,
    ];
    for event in events {
        assert_eq!(relay.handle(event, 960, 540), None);
    }
    // the key-down that was not relayed did not mark the key as held
    assert_eq!(relay.handle(UiEvent::Enter, 960, 540), None);
    assert_eq!(relay.handle(UiEvent::KeyDown(65), 960, 540), Some(vec![2, 65]));
    assert_eq!(relay.handle(UiEvent::Leave, 960, 540), None);
    assert_eq!(relay.handle(UiEvent::KeyUp(65), 960, 540), None);
}

#[test]
fn events_inside_the_window() {
    let mut relay = InputRelay::new(1920, 1080);
    assert_eq!(relay.handle(UiEvent::Enter, 960, 540), None);
    assert_eq!(relay.handle(UiEvent::KeyDown(97), 960, 540), Some(vec![2, 97]));
    assert_eq!(relay.handle(UiEvent::KeyUp(97), 960, 540), Some(vec![1, 97]));
    assert_eq!(relay.handle(UiEvent::Shortcut(98), 960, 540), Some(vec![2, 98]));
    assert_eq!(relay.handle(UiEvent::Push(233), 960, 540), Some(vec![4, 233]));
    assert_eq!(relay.handle(UiEvent::Released(233), 960, 540), Some(vec![3, 233]));
    assert_eq!(relay.handle(UiEvent::WheelUp, 960, 540), Some(vec![5]));
    assert_eq!(relay.handle(UiEvent::WheelDown, 960, 540), Some(vec![6]));
    assert_eq!(relay.handle(UiEvent::Other, 960, 540), None);
    // 1920 * 480 / 960 = 960 = 0x03C0; 1080 * 100 / 540 = 200
    assert_eq!(relay.handle(UiEvent::Move(480, 100), 960, 540), Some(vec![7, 3, 0xC0, 0, 200]));
    assert_eq!(relay.handle(UiEvent::Drag(480, 100), 960, 540), Some(vec![7, 3, 0xC0, 0, 200]));
    // events other than moves do not look at the window's size
    assert_eq!(relay.handle(UiEvent::WheelUp, 0, 0), Some(vec![5]));
}

#[test]
fn key_dedup_in_the_window() {
    let mut relay = InputRelay::new(4, 4);
    relay.handle(UiEvent::Enter, 4, 4);
    let events = [
        UiEvent::KeyDown(65),
        UiEvent::KeyDown(65),
        UiEvent::KeyUp(65),
        UiEvent::KeyDown(65),
    ];
    let sent: Vec<Vec<u8>> = events.iter().filter_map(|&e| relay.handle(e, 4, 4)).collect();
    assert_eq!(sent.len(), 3);
    assert_eq!(sent, vec![vec![2, 65], vec![1, 65], vec![2, 65]]);
    // a shortcut is a key-down like another
    assert_eq!(relay.handle(UiEvent::Shortcut(65), 4, 4), None);
    // leaving the window does not release the key
    relay.handle(UiEvent::Leave, 4, 4);
    relay.handle(UiEvent::Enter, 4, 4);
    assert_eq!(relay.handle(UiEvent::KeyDown(65), 4, 4), None);
}
