//! The video codec backend, as far as it is this library's business: what
//! the codec is given, when that is refused before the codec is asked, how
//! large the planes of a decoded picture are, and how the packets that the
//! encoder emits for one frame go out on the wire.
//!
//! The codec itself is not part of this library.

use crate::wire::{packet_bytes, push_packet, ProtocolViolation, MAX_PAYLOAD};
use vstd::prelude::*;

verus! {

/// The video codecs that a session can use.
#[derive(Clone, Copy, Debug, PartialEq, Eq, Structural, Hash)]
pub enum VideoCodecId {
    VP8,
}

impl Default for VideoCodecId {
    fn default() -> (id: VideoCodecId)
        ensures
            id == VideoCodecId::VP8,
    {
        VideoCodecId::VP8
    }
}

/// What an encoder or decoder is set up with.
#[derive(Clone, Copy, Debug)]
pub struct Config {
    /// The width (in pixels).
    pub width: u32,
    /// The height (in pixels).
    pub height: u32,
    /// The timebase numerator and denominator (in seconds).
    pub timebase: [i32; 2],
    /// The target bitrate (in kilobits per second).
    pub bitrate: u32,
    /// The codec.
    pub codec: VideoCodecId,
}

/// Why the video codec could not be set up or used.
#[derive(Clone, Copy, Debug, PartialEq, Eq, Structural)]
pub enum VideoError {
    /// The width is not divisible by 2.
    OddWidth,
    /// The height is not divisible by 2.
    OddHeight,
    /// A call of the codec came back with this error code.
    Call(i32),
    /// The codec handed out no data where data was due.
    BadPointer,
}

/// The bitrate that sessions ask of the codec, in kilobits per second.
pub const BITRATE: u32 = 8192;

/// The configuration of a session's codec: the picture's size, a timebase
/// of a thousandth of a frame's slot, and [`BITRATE`].
pub open spec fn session_config(width: u32, height: u32, fps: i32) -> Config {
    Config {
        width,
        height,
        timebase: [1i32, (fps * 1000) as i32],
        bitrate: BITRATE,
        codec: VideoCodecId::VP8,
    }
}

/// What is wrong with a picture size, if anything: the codec takes even
/// widths and heights only, and the width is looked at first.
pub open spec fn size_fault(width: u32, height: u32) -> Option<VideoError> {
    if width % 2 != 0 {
        Some(VideoError::OddWidth)
    } else if height % 2 != 0 {
        Some(VideoError::OddHeight)
    } else {
        None
    }
}

/// The number of bytes of the luma plane and of each chroma plane of a
/// decoded picture of `height` rows, whose luma rows are `stride_y` and
/// whose chroma rows are `stride_uv` bytes apart. The planes cover an even
/// number of rows.
pub open spec fn plane_lens_spec(stride_y: int, stride_uv: int, height: int) -> (int, int) {
    let rows = if height % 2 == 0 {
        height
    } else {
        height + 1
    };
    (stride_y * rows, stride_uv * (rows / 2))
}

/// The packets of one frame as they go out on the wire: each payload with
/// its length in front, in the order in which the encoder emitted them.
pub open spec fn packets_bytes(payloads: Seq<Seq<u8>>) -> Seq<u8>
    decreases payloads.len(),
{
    if payloads.len() == 0 {
        Seq::empty()
    } else {
        packets_bytes(payloads.drop_last()) + packet_bytes(payloads.last())
    }
}

/// Whether every payload is short enough for a packet.
pub open spec fn all_fit(payloads: Seq<Seq<u8>>) -> bool {
    forall|i: int| 0 <= i < payloads.len() ==> (#[trigger] payloads[i]).len() <= MAX_PAYLOAD
}

/// The payloads of a vector of buffers.
pub open spec fn payloads_of(buffers: Seq<Vec<u8>>) -> Seq<Seq<u8>> {
    Seq::new(buffers.len(), |i: int| buffers[i]@)
}

impl Config {
    /// The configuration of a session's codec.
    pub fn for_session(width: u32, height: u32, fps: i32) -> (config: Config)
        requires
            0 <= fps * 1000 <= i32::MAX,
        ensures
            config == session_config(width, height, fps),
    {
        let config = Config {
            width,
            height,
            timebase: [1, fps * 1000],
            bitrate: BITRATE,
            codec: VideoCodecId::VP8,
        };
        proof {
            assert(config.timebase@ =~= session_config(width, height, fps).timebase@);
        }
        config
    }

    /// Refuses a configuration whose width or height is odd.
    pub fn check(&self) -> (checked: Result<(), VideoError>)
        ensures
            checked is Ok <==> size_fault(self.width, self.height) is None,
            checked matches Err(e) ==> size_fault(self.width, self.height) == Some(e),
    {
        if self.width % 2 != 0 {
            return Err(VideoError::OddWidth);
        }
        if self.height % 2 != 0 {
            return Err(VideoError::OddHeight);
        }
        Ok(())
    }
}

/// What a call of the codec that came back with `code` amounts to: success
/// for zero, and an error that carries the code for anything else.
pub fn check_code(code: i32) -> (checked: Result<(), VideoError>)
    ensures
        checked is Ok <==> code == 0,
        checked matches Err(e) ==> e == VideoError::Call(code),
{
    if code != 0 {
        Err(VideoError::Call(code))
    } else {
        Ok(())
    }
}

/// Whether a buffer of `data_len` bytes holds an I420 picture of `width` by
/// `height` pixels, which takes three bytes for every two pixels.
pub fn frame_holds_picture(data_len: usize, width: usize, height: usize) -> (holds: bool)
    ensures
        holds == (2 * data_len >= 3 * (width * height)),
{
    assert(width * height <= 0xFFFF_FFFF_FFFF_FFFF * 0xFFFF_FFFF_FFFF_FFFF) by (nonlinear_arith)
        requires
            0 <= width <= 0xFFFF_FFFF_FFFF_FFFF,
            0 <= height <= 0xFFFF_FFFF_FFFF_FFFF,
    ;
    let pixels: u128 = (width as u128) * (height as u128);
    if pixels > 0xFFFF_FFFF_FFFF_FFFF {
        false
    } else {
        2 * (data_len as u128) >= 3 * pixels
    }
}

/// The number of bytes of the luma plane and of each chroma plane of a
/// decoded picture, or `None` if this machine cannot address that many.
pub fn plane_lens(stride_y: usize, stride_uv: usize, height: usize) -> (lens: Option<
    (usize, usize),
>)
    ensures
        lens is Some <==> plane_lens_spec(stride_y as int, stride_uv as int, height as int).0
            <= usize::MAX && plane_lens_spec(stride_y as int, stride_uv as int, height as int).1
            <= usize::MAX,
        lens matches Some(l) ==> (l.0 as int, l.1 as int) == plane_lens_spec(
            stride_y as int,
            stride_uv as int,
            height as int,
        ),
{
    let rows: u128 = if height % 2 == 0 {
        height as u128
    } else {
        height as u128 + 1
    };
    assert(stride_y * rows <= 0xFFFF_FFFF_FFFF_FFFF * 0x1_0000_0000_0000_0000 && stride_uv * (rows
        / 2) <= 0xFFFF_FFFF_FFFF_FFFF * 0x1_0000_0000_0000_0000) by (nonlinear_arith)
        requires
            stride_y <= 0xFFFF_FFFF_FFFF_FFFF,
            stride_uv <= 0xFFFF_FFFF_FFFF_FFFF,
            0 <= rows <= 0x1_0000_0000_0000_0000,
    ;
    let luma: u128 = (stride_y as u128) * rows;
    let chroma: u128 = (stride_uv as u128) * (rows / 2);
    if luma > usize::MAX as u128 || chroma > usize::MAX as u128 {
        None
    } else {
        Some((luma as usize, chroma as usize))
    }
}

/// Builds the bytes to send for the packets that the encoder emitted for
/// one frame, in their order. There may be none, with nothing to send then.
///
/// A payload that is too long for a packet is refused, and with it the
/// whole frame.
pub fn frame_packets(payloads: &Vec<Vec<u8>>) -> (bytes: Result<Vec<u8>, ProtocolViolation>)
    ensures
        bytes is Ok <==> all_fit(payloads_of(payloads@)),
        bytes matches Ok(b) ==> b@ == packets_bytes(payloads_of(payloads@)),
        bytes matches Err(e) ==> e == ProtocolViolation::MalformedLength,
{
    let ghost all = payloads_of(payloads@);
    let mut out: Vec<u8> = Vec::new();
    let mut i: usize = 0;
    while i < payloads.len()
        invariant
            i <= payloads@.len(),
            all == payloads_of(payloads@),
            all_fit(all.take(i as int)),
            out@ == packets_bytes(all.take(i as int)),
        decreases payloads@.len() - i,
    {
        proof {
            assert(all.take(i + 1).drop_last() =~= all.take(i as int));
            assert(all.take(i + 1).last() == payloads@[i as int]@);
        }
        match push_packet(&mut out, payloads[i].as_slice()) {
            Ok(()) => {},
            Err(e) => {
                proof {
                    assert(all[i as int].len() > MAX_PAYLOAD);
                }
                return Err(e);
            },
        }
        proof {
            assert forall|j: int| 0 <= j < i + 1 implies (#[trigger] all.take(i + 1)[j]).len()
                <= MAX_PAYLOAD by {
                if j < i {
                    assert(all.take(i as int)[j] == all.take(i + 1)[j]);
                }
            }
        }
        i += 1;
    }
    proof {
        assert(all.take(i as int) =~= all);
    }
    Ok(out)
}

} // verus!
