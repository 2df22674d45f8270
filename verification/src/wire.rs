//! The bytes of the frame stream: the metadata that opens it and the length
//! prefix of every frame packet. All numbers travel big-endian.

use vstd::prelude::*;

verus! {

/// The longest payload that a frame packet can carry: what three bytes of
/// length can express, 16 MiB less one byte.
pub const MAX_PAYLOAD: usize = 0xFF_FFFF;

/// The number of bytes of a frame packet's length prefix.
pub const HEADER_LEN: usize = 3;

/// The number of bytes of the metadata that follows the handshake.
pub const META_LEN: usize = 4;

/// What a peer can do wrong on the wire. Each of these ends the session.
#[derive(Clone, Copy, Debug, PartialEq, Eq, Structural)]
pub enum ProtocolViolation {
    /// An input command began with a byte that is no opcode.
    BadOpcode,
    /// The ticket presented was not the expected one.
    AuthMismatch,
    /// A length that the three-byte prefix cannot express.
    MalformedLength,
}

/// The three-byte prefix that announces a payload of `len` bytes.
pub open spec fn header_bytes(len: int) -> Seq<u8> {
    seq![(len / 0x1_0000) as u8, ((len / 0x100) % 0x100) as u8, (len % 0x100) as u8]
}

/// The payload length that a three-byte prefix announces.
pub open spec fn header_value(header: Seq<u8>) -> int {
    header[0] as int * 0x1_0000 + header[1] as int * 0x100 + header[2] as int
}

/// The two bytes of a 16-bit number, high byte first.
pub open spec fn be16_bytes(n: u16) -> Seq<u8> {
    seq![(n / 0x100) as u8, (n % 0x100) as u8]
}

/// The 16-bit number whose high byte is `hi` and whose low byte is `lo`.
pub open spec fn be16_value(hi: u8, lo: u8) -> int {
    hi as int * 0x100 + lo as int
}

/// The four bytes of metadata for a picture of `width` by `height` pixels.
pub open spec fn meta_bytes(width: u16, height: u16) -> Seq<u8> {
    be16_bytes(width) + be16_bytes(height)
}

/// Reading back the prefix written for a payload gives the payload's
/// length, for every length that the prefix can express.
pub proof fn lemma_header_round_trip(len: int)
    requires
        0 <= len <= MAX_PAYLOAD,
    ensures
        header_bytes(len).len() == HEADER_LEN,
        header_value(header_bytes(len)) == len,
{
}

/// Every three bytes are the prefix of exactly the length they announce,
/// and that length is one a payload may have.
pub proof fn lemma_header_of_value(header: Seq<u8>)
    requires
        header.len() == HEADER_LEN,
    ensures
        0 <= header_value(header) <= MAX_PAYLOAD,
        header_bytes(header_value(header)) == header,
{
    assert(header_bytes(header_value(header)) =~= header);
}

/// Reading back the metadata written for a picture gives its width and
/// height.
pub proof fn lemma_meta_round_trip(width: u16, height: u16)
    ensures
        meta_bytes(width, height).len() == META_LEN,
        be16_value(meta_bytes(width, height)[0], meta_bytes(width, height)[1]) == width,
        be16_value(meta_bytes(width, height)[2], meta_bytes(width, height)[3]) == height,
{
}

/// Writes the length prefix for a payload of `data_len` bytes into the
/// first three bytes of `res`.
///
/// A payload longer than [`MAX_PAYLOAD`] has no prefix: it is refused, and
/// `res` is left as it was.
pub fn encode(data_len: usize, res: &mut [u8]) -> (done: Result<(), ProtocolViolation>)
    requires
        old(res)@.len() >= HEADER_LEN,
    ensures
        done is Ok <==> data_len <= MAX_PAYLOAD,
        done is Ok ==> final(res)@ == header_bytes(data_len as int) + old(res)@.skip(
            HEADER_LEN as int,
        ),
        done is Err ==> done == Err::<(), ProtocolViolation>(ProtocolViolation::MalformedLength)
            && final(res)@ == old(res)@,
{
    if data_len > MAX_PAYLOAD {
        return Err(ProtocolViolation::MalformedLength);
    }
    let ghost before = res@;
    res[0] = (data_len / 0x1_0000) as u8;
    res[1] = ((data_len / 0x100) % 0x100) as u8;
    res[2] = (data_len % 0x100) as u8;
    proof {
        assert(res@ =~= header_bytes(data_len as int) + before.skip(HEADER_LEN as int));
    }
    Ok(())
}

/// Reads the payload length from the first three bytes of `buffer`.
pub fn depack(buffer: &[u8]) -> (len: usize)
    requires
        buffer@.len() >= HEADER_LEN,
    ensures
        len == header_value(buffer@),
        len <= MAX_PAYLOAD,
{
    (buffer[0] as usize) * 0x1_0000 + (buffer[1] as usize) * 0x100 + (buffer[2] as usize)
}

/// A payload with its length prefix in front: one frame packet as it goes
/// out on the wire.
pub open spec fn packet_bytes(payload: Seq<u8>) -> Seq<u8> {
    header_bytes(payload.len() as int) + payload
}

/// A packet falls apart again into its payload: the prefix announces the
/// payload's length, and the payload follows it unchanged.
pub proof fn lemma_packet_round_trip(payload: Seq<u8>)
    requires
        payload.len() <= MAX_PAYLOAD,
    ensures
        packet_bytes(payload).len() == HEADER_LEN + payload.len(),
        header_value(packet_bytes(payload)) == payload.len(),
        packet_bytes(payload).skip(HEADER_LEN as int) == payload,
{
    lemma_header_round_trip(payload.len() as int);
    assert(packet_bytes(payload).skip(HEADER_LEN as int) =~= payload);
}

/// Appends to `out` the frame packet for a payload, or refuses a payload
/// that is longer than [`MAX_PAYLOAD`] and leaves `out` as it was.
pub fn push_packet(out: &mut Vec<u8>, payload: &[u8]) -> (done: Result<(), ProtocolViolation>)
    ensures
        done is Ok <==> payload@.len() <= MAX_PAYLOAD,
        done is Ok ==> final(out)@ == old(out)@ + packet_bytes(payload@),
        done matches Err(e) ==> e == ProtocolViolation::MalformedLength && final(out)@ == old(out)@,
{
    let n = payload.len();
    if n > MAX_PAYLOAD {
        return Err(ProtocolViolation::MalformedLength);
    }
    let ghost before = out@;
    out.push((n / 0x1_0000) as u8);
    out.push(((n / 0x100) % 0x100) as u8);
    out.push((n % 0x100) as u8);
    let mut i: usize = 0;
    while i < n
        invariant
            n == payload@.len(),
            i <= n,
            out@.len() == before.len() + HEADER_LEN + i,
            forall|k: int| 0 <= k < before.len() ==> out@[k] == before[k],
            forall|k: int|
                0 <= k < HEADER_LEN ==> out@[before.len() + k] == header_bytes(n as int)[k],
            forall|k: int| 0 <= k < i ==> out@[before.len() + HEADER_LEN + k] == payload@[k],
        decreases n - i,
    {
        out.push(payload[i]);
        i += 1;
    }
    proof {
        assert(out@ =~= before + packet_bytes(payload@));
    }
    Ok(())
}

/// Builds the frame packet for a payload, or refuses a payload that is
/// longer than [`MAX_PAYLOAD`].
pub fn frame_packet(payload: &[u8]) -> (packet: Result<Vec<u8>, ProtocolViolation>)
    ensures
        packet is Ok <==> payload@.len() <= MAX_PAYLOAD,
        packet matches Ok(bytes) ==> bytes@ == packet_bytes(payload@),
        packet matches Err(e) ==> e == ProtocolViolation::MalformedLength,
{
    let mut bytes: Vec<u8> = Vec::new();
    match push_packet(&mut bytes, payload) {
        Ok(()) => {
            proof {
                assert(bytes@ =~= packet_bytes(payload@));
            }
            Ok(bytes)
        },
        Err(e) => Err(e),
    }
}

/// The metadata for a picture of `width` by `height` pixels.
pub fn encode_meta(width: u16, height: u16) -> (meta: [u8; 4])
    ensures
        meta@ == meta_bytes(width, height),
{
    let meta: [u8; 4] = [
        (width / 0x100) as u8,
        (width % 0x100) as u8,
        (height / 0x100) as u8,
        (height % 0x100) as u8,
    ];
    proof {
        assert(meta@ =~= meta_bytes(width, height));
    }
    meta
}

/// The width and height that four bytes of metadata announce.
pub fn decode_meta(meta: &[u8; 4]) -> (size: (u16, u16))
    ensures
        size.0 == be16_value(meta@[0], meta@[1]),
        size.1 == be16_value(meta@[2], meta@[3]),
{
    let width: u16 = (meta[0] as u16) * 0x100 + (meta[1] as u16);
    let height: u16 = (meta[2] as u16) * 0x100 + (meta[3] as u16);
    (width, height)
}

} // verus!
