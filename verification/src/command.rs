//! The wire encoding of keyboard and mouse input: one opcode byte, then no,
//! one or four parameter bytes, and the suppression of repeated key-downs.

use crate::bitmap::Bitmap;
use crate::wire::{be16_bytes, be16_value, ProtocolViolation};
use vstd::prelude::*;

verus! {

/// Opcode: a key was released. One parameter byte, the key code.
pub const KEY_UP: u8 = 1;

/// Opcode: a key was pressed. One parameter byte, the key code.
pub const KEY_DOWN: u8 = 2;

/// Opcode: a mouse button was released. One parameter byte, the button code.
pub const MOUSE_KEY_UP: u8 = 3;

/// Opcode: a mouse button was pressed. One parameter byte, the button code.
pub const MOUSE_KEY_DOWN: u8 = 4;

/// Opcode: the wheel turned up by one notch. No parameter.
pub const MOUSE_WHEEL_UP: u8 = 5;

/// Opcode: the wheel turned down by one notch. No parameter.
pub const MOUSE_WHEEL_DOWN: u8 = 6;

/// Opcode: the pointer moved. Four parameter bytes: x, then y, each a
/// big-endian 16-bit number in the coordinates of the source's display.
pub const MOVE: u8 = 7;

/// One input event on its way from the viewer to the source.
#[derive(Clone, Copy, Debug, PartialEq, Eq, Structural)]
pub enum Command {
    KeyUp(u8),
    KeyDown(u8),
    MouseButtonUp(u8),
    MouseButtonDown(u8),
    WheelUp,
    WheelDown,
    Move(u16, u16),
}

/// The opcode of a command.
pub open spec fn opcode_of(cmd: Command) -> u8 {
    match cmd {
        Command::KeyUp(_) => KEY_UP,
        Command::KeyDown(_) => KEY_DOWN,
        Command::MouseButtonUp(_) => MOUSE_KEY_UP,
        Command::MouseButtonDown(_) => MOUSE_KEY_DOWN,
        Command::WheelUp => MOUSE_WHEEL_UP,
        Command::WheelDown => MOUSE_WHEEL_DOWN,
        Command::Move(_, _) => MOVE,
    }
}

/// The parameter bytes of a command.
pub open spec fn params_of(cmd: Command) -> Seq<u8> {
    match cmd {
        Command::KeyUp(code) => seq![code],
        Command::KeyDown(code) => seq![code],
        Command::MouseButtonUp(code) => seq![code],
        Command::MouseButtonDown(code) => seq![code],
        Command::WheelUp => Seq::empty(),
        Command::WheelDown => Seq::empty(),
        Command::Move(x, y) => be16_bytes(x) + be16_bytes(y),
    }
}

/// A command as it goes out on the wire: the opcode, then the parameters.
pub open spec fn command_bytes(cmd: Command) -> Seq<u8> {
    seq![opcode_of(cmd)] + params_of(cmd)
}

/// The number of parameter bytes that follow an opcode, or `None` for a
/// byte that is no opcode.
pub open spec fn param_len_spec(opcode: u8) -> Option<nat> {
    if opcode == KEY_UP || opcode == KEY_DOWN || opcode == MOUSE_KEY_UP || opcode
        == MOUSE_KEY_DOWN {
        Some(1)
    } else if opcode == MOUSE_WHEEL_UP || opcode == MOUSE_WHEEL_DOWN {
        Some(0)
    } else if opcode == MOVE {
        Some(4)
    } else {
        None
    }
}

/// The command that an opcode and its parameter bytes spell, if there is
/// one: the opcode must be known and the parameters as many as it asks for.
pub open spec fn parse_command(opcode: u8, params: Seq<u8>) -> Option<Command> {
    if param_len_spec(opcode) != Some(params.len()) {
        None
    } else if opcode == KEY_UP {
        Some(Command::KeyUp(params[0]))
    } else if opcode == KEY_DOWN {
        Some(Command::KeyDown(params[0]))
    } else if opcode == MOUSE_KEY_UP {
        Some(Command::MouseButtonUp(params[0]))
    } else if opcode == MOUSE_KEY_DOWN {
        Some(Command::MouseButtonDown(params[0]))
    } else if opcode == MOUSE_WHEEL_UP {
        Some(Command::WheelUp)
    } else if opcode == MOUSE_WHEEL_DOWN {
        Some(Command::WheelDown)
    } else {
        Some(
            Command::Move(
                be16_value(params[0], params[1]) as u16,
                be16_value(params[2], params[3]) as u16,
            ),
        )
    }
}

/// Whether a command is held back because the source already takes the key
/// for held: a key-down for a key in `held`.
pub open spec fn suppressed(held: Set<u8>, cmd: Command) -> bool {
    cmd matches Command::KeyDown(code) && held.contains(code)
}

/// The keys held after a command, given the keys held before it.
pub open spec fn held_after(held: Set<u8>, cmd: Command) -> Set<u8> {
    match cmd {
        Command::KeyDown(code) => held.insert(code),
        Command::KeyUp(code) => held.remove(code),
        _ => held,
    }
}

/// The keys held after a sequence of commands, starting with none held.
pub open spec fn held_after_all(cmds: Seq<Command>) -> Set<u8>
    decreases cmds.len(),
{
    if cmds.len() == 0 {
        Set::empty()
    } else {
        held_after(held_after_all(cmds.drop_last()), cmds.last())
    }
}

/// The commands of a sequence that go out on the wire, starting with no key
/// held.
pub open spec fn emitted(cmds: Seq<Command>) -> Seq<Command>
    decreases cmds.len(),
{
    if cmds.len() == 0 {
        Seq::empty()
    } else if suppressed(held_after_all(cmds.drop_last()), cmds.last()) {
        emitted(cmds.drop_last())
    } else {
        emitted(cmds.drop_last()).push(cmds.last())
    }
}

/// What is decoded from the bytes of a command is that command.
pub proof fn lemma_command_round_trip(cmd: Command)
    ensures
        param_len_spec(opcode_of(cmd)) == Some(params_of(cmd).len()),
        parse_command(opcode_of(cmd), params_of(cmd)) == Some(cmd),
        command_bytes(cmd).len() == 1 + params_of(cmd).len(),
{
}

/// The bytes of a decoded command are the bytes it was decoded from.
pub proof fn lemma_command_of_bytes(opcode: u8, params: Seq<u8>)
    requires
        parse_command(opcode, params) is Some,
    ensures
        command_bytes(parse_command(opcode, params).unwrap()) == seq![opcode] + params,
{
    let cmd = parse_command(opcode, params).unwrap();
    assert(params_of(cmd) =~= params);
}

/// A key is held exactly if a key-down for it came in with no key-up for it
/// after that.
pub proof fn lemma_held_iff_down_without_up(cmds: Seq<Command>, code: u8)
    ensures
        held_after_all(cmds).contains(code) <==> exists|i: int|
            0 <= i < cmds.len() && cmds[i] == Command::KeyDown(code) && forall|j: int|
                i < j < cmds.len() ==> cmds[j] != Command::KeyUp(code),
    decreases cmds.len(),
{
    let down_without_up = |s: Seq<Command>|
        exists|i: int|
            0 <= i < s.len() && s[i] == Command::KeyDown(code) && forall|j: int|
                i < j < s.len() ==> s[j] != Command::KeyUp(code);
    if cmds.len() > 0 {
        let init = cmds.drop_last();
        let last = cmds.last();
        lemma_held_iff_down_without_up(init, code);
        if last == Command::KeyDown(code) {
            let i = cmds.len() - 1;
            assert(cmds[i] == Command::KeyDown(code));
        } else if last == Command::KeyUp(code) {
            assert(cmds[cmds.len() - 1] == Command::KeyUp(code));
        } else {
            if down_without_up(init) {
                let i = choose|i: int|
                    0 <= i < init.len() && init[i] == Command::KeyDown(code) && forall|j: int|
                        i < j < init.len() ==> init[j] != Command::KeyUp(code);
                assert(cmds[i] == init[i]);
                assert forall|j: int| i < j < cmds.len() implies cmds[j] != Command::KeyUp(
                    code,
                ) by {
                    if j < init.len() {
                        assert(cmds[j] == init[j]);
                    }
                }
            }
            if down_without_up(cmds) {
                let i = choose|i: int|
                    0 <= i < cmds.len() && cmds[i] == Command::KeyDown(code) && forall|j: int|
                        i < j < cmds.len() ==> cmds[j] != Command::KeyUp(code);
                assert(i < init.len());
                assert(init[i] == cmds[i]);
                assert forall|j: int| i < j < init.len() implies init[j] != Command::KeyUp(
                    code,
                ) by {
                    assert(cmds[j] == init[j]);
                }
            }
        }
    }
}

/// Holding commands back does not change which keys are held: the keys
/// held after the commands that went out are those held after all of them.
pub proof fn lemma_emitted_keeps_held(cmds: Seq<Command>)
    ensures
        held_after_all(emitted(cmds)) == held_after_all(cmds),
    decreases cmds.len(),
{
    if cmds.len() > 0 {
        let init = cmds.drop_last();
        let last = cmds.last();
        lemma_emitted_keeps_held(init);
        if suppressed(held_after_all(init), last) {
            assert(held_after(held_after_all(init), last) =~= held_after_all(init));
        } else {
            let e = emitted(init).push(last);
            assert(e.drop_last() =~= emitted(init));
            assert(e.last() == last);
        }
    }
}

/// Between two key-downs for one key that went out, a key-up for that key
/// went out: the source never sees a key pressed twice without a release.
pub proof fn lemma_no_repeated_key_down(cmds: Seq<Command>, code: u8, i: int, j: int)
    requires
        0 <= i < j < emitted(cmds).len(),
        emitted(cmds)[i] == Command::KeyDown(code),
        emitted(cmds)[j] == Command::KeyDown(code),
    ensures
        exists|m: int| i < m < j && emitted(cmds)[m] == Command::KeyUp(code),
    decreases cmds.len(),
{
    let init = cmds.drop_last();
    let last = cmds.last();
    let sent = emitted(init);
    if suppressed(held_after_all(init), last) {
        lemma_no_repeated_key_down(init, code, i, j);
    } else if j < sent.len() {
        lemma_no_repeated_key_down(init, code, i, j);
        let m = choose|m: int| i < m < j && sent[m] == Command::KeyUp(code);
        assert(emitted(cmds)[m] == sent[m]);
    } else {
        assert(last == Command::KeyDown(code));
        lemma_emitted_keeps_held(init);
        lemma_held_iff_down_without_up(sent, code);
        assert(sent[i] == Command::KeyDown(code));
        assert(!held_after_all(sent).contains(code));
        assert(exists|m: int| i < m < sent.len() && sent[m] == Command::KeyUp(code));
        let m = choose|m: int| i < m < sent.len() && sent[m] == Command::KeyUp(code);
        assert(emitted(cmds)[m] == sent[m]);
    }
}

/// The number of parameter bytes that follow an opcode, or `None` for a
/// byte that is no opcode.
pub fn param_len(opcode: u8) -> (n: Option<usize>)
    ensures
        n is Some <==> param_len_spec(opcode) is Some,
        n matches Some(k) ==> param_len_spec(opcode) == Some(k as nat),
{
    if opcode == KEY_UP || opcode == KEY_DOWN || opcode == MOUSE_KEY_UP || opcode
        == MOUSE_KEY_DOWN {
        Some(1)
    } else if opcode == MOUSE_WHEEL_UP || opcode == MOUSE_WHEEL_DOWN {
        Some(0)
    } else if opcode == MOVE {
        Some(4)
    } else {
        None
    }
}

/// The bytes of a command as they go out on the wire.
pub fn encode_command(cmd: Command) -> (bytes: Vec<u8>)
    ensures
        bytes@ == command_bytes(cmd),
{
    let mut bytes: Vec<u8> = Vec::new();
    match cmd {
        Command::KeyUp(code) => {
            bytes.push(KEY_UP);
            bytes.push(code);
        },
        Command::KeyDown(code) => {
            bytes.push(KEY_DOWN);
            bytes.push(code);
        },
        Command::MouseButtonUp(code) => {
            bytes.push(MOUSE_KEY_UP);
            bytes.push(code);
        },
        Command::MouseButtonDown(code) => {
            bytes.push(MOUSE_KEY_DOWN);
            bytes.push(code);
        },
        Command::WheelUp => {
            bytes.push(MOUSE_WHEEL_UP);
        },
        Command::WheelDown => {
            bytes.push(MOUSE_WHEEL_DOWN);
        },
        Command::Move(x, y) => {
            bytes.push(MOVE);
            bytes.push((x / 0x100) as u8);
            bytes.push((x % 0x100) as u8);
            bytes.push((y / 0x100) as u8);
            bytes.push((y % 0x100) as u8);
        },
    }
    proof {
        assert(bytes@ =~= command_bytes(cmd));
    }
    bytes
}

/// Decodes a command from its opcode and the parameter bytes read after it.
///
/// A byte that is no opcode is a protocol violation and ends the input
/// channel; so does a number of parameter bytes other than the opcode asks
/// for.
pub fn decode_command(opcode: u8, params: &[u8]) -> (cmd: Result<Command, ProtocolViolation>)
    ensures
        cmd matches Ok(c) ==> parse_command(opcode, params@) == Some(c),
        cmd matches Err(e) ==> parse_command(opcode, params@) is None && e == (if param_len_spec(
            opcode,
        ) is None {
            ProtocolViolation::BadOpcode
        } else {
            ProtocolViolation::MalformedLength
        }),
{
    let needed = match param_len(opcode) {
        Some(n) => n,
        None => {
            return Err(ProtocolViolation::BadOpcode);
        },
    };
    if params.len() != needed {
        return Err(ProtocolViolation::MalformedLength);
    }
    if opcode == KEY_UP {
        Ok(Command::KeyUp(params[0]))
    } else if opcode == KEY_DOWN {
        Ok(Command::KeyDown(params[0]))
    } else if opcode == MOUSE_KEY_UP {
        Ok(Command::MouseButtonUp(params[0]))
    } else if opcode == MOUSE_KEY_DOWN {
        Ok(Command::MouseButtonDown(params[0]))
    } else if opcode == MOUSE_WHEEL_UP {
        Ok(Command::WheelUp)
    } else if opcode == MOUSE_WHEEL_DOWN {
        Ok(Command::WheelDown)
    } else {
        let x: u16 = (params[0] as u16) * 0x100 + (params[1] as u16);
        let y: u16 = (params[2] as u16) * 0x100 + (params[3] as u16);
        Ok(Command::Move(x, y))
    }
}

/// The sending side of the input channel. It remembers which keys the
/// source takes for held, and holds back a key-down for any of them.
pub struct InputEncoder {
    held: Bitmap,
}

impl InputEncoder {
    /// The keys that the source takes for held.
    pub closed spec fn held(&self) -> Set<u8> {
        self.held@
    }

    /// An encoder for a fresh session: no key is held.
    pub fn new() -> (encoder: Self)
        ensures
            encoder.held() == Set::<u8>::empty(),
    {
        InputEncoder { held: Bitmap::new() }
    }

    /// Takes note of a command and gives the bytes to send for it, or `None`
    /// for a key-down that is held back.
    ///
    /// A key-down marks its key as held; a key-up marks it as released and
    /// always goes out, held or not.
    pub fn emit(&mut self, cmd: Command) -> (bytes: Option<Vec<u8>>)
        ensures
            final(self).held() == held_after(old(self).held(), cmd),
            bytes is None <==> suppressed(old(self).held(), cmd),
            bytes matches Some(b) ==> b@ == command_bytes(cmd),
    {
        match cmd {
            Command::KeyDown(code) => {
                if !self.held.push(code) {
                    return None;
                }
            },
            Command::KeyUp(code) => {
                self.held.remove(code);
            },
            _ => {},
        }
        Some(encode_command(cmd))
    }
}

} // verus!
