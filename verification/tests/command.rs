use diffscreen::command::{
    decode_command, encode_command, param_len, Command, InputEncoder, KEY_DOWN, KEY_UP,
    MOUSE_KEY_DOWN, MOUSE_KEY_UP, MOUSE_WHEEL_DOWN, MOUSE_WHEEL_UP, MOVE,
};
use diffscreen::wire::ProtocolViolation;

#[test]
fn opcodes() {
    assert_eq!(
        [KEY_UP, KEY_DOWN, MOUSE_KEY_UP, MOUSE_KEY_DOWN, MOUSE_WHEEL_UP, MOUSE_WHEEL_DOWN, MOVE],
        [1, 2, 3, 4, 5, 6, 7]
    );
}

#[test]
fn commands_on_the_wire() {
    assert_eq!(encode_command(Command::KeyUp(65)), vec![1, 65]);
    assert_eq!(encode_command(Command::KeyDown(65)), vec![2, 65]);
    assert_eq!(encode_command(Command::MouseButtonUp(233)), vec![3, 233]);
    assert_eq!(encode_command(Command::MouseButtonDown(235)), vec![4, 235]);
    assert_eq!(encode_command(Command::WheelUp), vec![5]);
    assert_eq!(encode_command(Command::WheelDown), vec![6]);
    assert_eq!(encode_command(Command::Move(0x0102, 0x0304)), vec![7, 1, 2, 3, 4]);
    assert_eq!(encode_command(Command::Move(1919, 1079)), vec![7, 7, 127, 4, 55]);
    assert_eq!(encode_command(Command::Move(65535, 0)), vec![7, 255, 255, 0, 0]);
}

#[test]
fn parameter_lengths() {
    assert_eq!(param_len(1), Some(1));
    assert_eq!(param_len(2), Some(1));
    assert_eq!(param_len(3), Some(1));
    assert_eq!(param_len(4), Some(1));
    assert_eq!(param_len(5), Some(0));
    assert_eq!(param_len(6), Some(0));
    assert_eq!(param_len(7), Some(4));
    assert_eq!(param_len(0), None);
    assert_eq!(param_len(8), None);
    assert_eq!(param_len(255), None);
}

#[test]
fn command_round_trip() {
    let commands = [
        Command::KeyUp(0),
        Command::KeyUp(255),
        Command::KeyDown(97),
        Command::MouseButtonUp(233),
        Command::MouseButtonDown(235),
        Command::WheelUp,
        Command::WheelDown,
        Command::Move(0, 0),
        Command::Move(65535, 65535),
        Command::Move(256, 255),
    ];
    for cmd in commands {
        let bytes = encode_command(cmd);
        assert_eq!(param_len(bytes[0]), Some(bytes.len() - 1));
        assert_eq!(decode_command(bytes[0], &bytes[1..]), Ok(cmd));
    }
}

#[test]
fn decode_exact_values() {
    assert_eq!(decode_command(7, &[1, 2, 3, 4]), Ok(Command::Move(258, 772)));
    assert_eq!(decode_command(2, &[65]), Ok(Command::KeyDown(65)));
    assert_eq!(decode_command(5, &[]), Ok(Command::WheelUp));
}

#[test]
fn unknown_opcode_is_a_violation() {
    for opcode in [0u8, 8, 9, 100, 255] {
        assert_eq!(decode_command(opcode, &[]), Err(ProtocolViolation::BadOpcode));
        assert_eq!(decode_command(opcode, &[1]), Err(ProtocolViolation::BadOpcode));
    }
}

#[test]
fn wrong_number_of_parameters_is_a_violation() {
    assert_eq!(decode_command(1, &[]), Err(ProtocolViolation::MalformedLength));
    assert_eq!(decode_command(2, &[1, 2]), Err(ProtocolViolation::MalformedLength));
    assert_eq!(decode_command(5, &[1]), Err(ProtocolViolation::MalformedLength));
    assert_eq!(decode_command(7, &[1, 2, 3]), Err(ProtocolViolation::MalformedLength));
    assert_eq!(decode_command(7, &[1, 2, 3, 4, 5]), Err(ProtocolViolation::MalformedLength));
}

#[test]
fn key_dedup() {
    let mut encoder = InputEncoder::new();
    let events = [
        Command::KeyDown(65),
        Command::KeyDown(65),
        Command::KeyUp(65),
        Command::KeyDown(65),
    ];
    let sent: Vec<Vec<u8>> = events.iter().filter_map(|&cmd| encoder.emit(cmd)).collect();
    assert_eq!(sent, vec![vec![2, 65], vec![1, 65], vec![2, 65]]);
}

#[test]
fn key_up_always_goes_out() {
    let mut encoder = InputEncoder::new();
    assert_eq!(encoder.emit(Command::KeyUp(10)), Some(vec![1, 10]));
    assert_eq!(encoder.emit(Command::KeyUp(10)), Some(vec![1, 10]));
    assert_eq!(encoder.emit(Command::KeyDown(10)), Some(vec![2, 10]));
    assert_eq!(encoder.emit(Command::KeyDown(10)), None);
}

#[test]
fn keys_are_tracked_one_by_one() {
    let mut encoder = InputEncoder::new();
    for key in [0u8, 127, 128, 255] {
        assert!(encoder.emit(Command::KeyDown(key)).is_some());
    }
    for key in [0u8, 127, 128, 255] {
        assert!(encoder.emit(Command::KeyDown(key)).is_none());
    }
    assert!(encoder.emit(Command::KeyUp(128)).is_some());
    assert!(encoder.emit(Command::KeyDown(127)).is_none());
    assert!(encoder.emit(Command::KeyDown(128)).is_some());
}

#[test]
fn other_commands_are_never_held_back() {
    let mut encoder = InputEncoder::new();
    for _ in 0..3 {
        assert_eq!(encoder.emit(Command::MouseButtonDown(233)), Some(vec![4, 233]));
        assert_eq!(encoder.emit(Command::WheelUp), Some(vec![5]));
        assert_eq!(encoder.emit(Command::Move(1, 1)), Some(vec![7, 0, 1, 0, 1]));
    }
    // a button code does not mark the key of that code as held
    assert_eq!(encoder.emit(Command::KeyDown(233)), Some(vec![2, 233]));
}
