//! The tunable constants of a session.

use vstd::prelude::*;

verus! {

/// Frames captured in a second, unless the source is told otherwise.
pub const FPS: u64 = 20;

/// The bits of each colour byte that are transmitted. The more low bits are
/// dropped, the better the frames compress and the coarser the colours.
pub const BIT_MASK: u8 = 0b1111_1000;

/// The compression level, from 0 (least effort, most bandwidth) to 21 (most
/// effort, least bandwidth).
pub const COMPRESS_LEVEL: i32 = 3;

/// Whether the sender pauses after a large packet.
pub const SKIP: bool = true;

/// A packet longer than this many bytes makes the sender pause.
pub const SKIP_LENGTH: usize = 1024 * 5;

/// The length of that pause, in milliseconds.
pub const SKIP_TIME: u64 = 100;

} // verus!
