//! The two ends of the frame stream. The sender turns each captured frame
//! into at most one packet: the first frame whole, every later one as its
//! difference from the frame sent before it, and nothing at all when the
//! picture stood still. The receiver applies the packets to the frame on
//! display.
//!
//! Both rely on every packet arriving once and in order.

use crate::compress::{zstd_content, CodecError, CompressionBackend};
use crate::config::{SKIP, SKIP_LENGTH, SKIP_TIME};
use crate::delta::{
    all_zero, decode_delta, encode_delta, lemma_delta_round_trip, lemma_zero_delta_iff_equal,
    mask_frame, masked, xor_seq,
};
use crate::error::SessionError;
use crate::wire::{frame_packet, packet_bytes, ProtocolViolation, HEADER_LEN, MAX_PAYLOAD};
use vstd::prelude::*;

verus! {

/// What the payload of a packet decompresses to: the frame itself for the
/// first packet of a session, and its difference from the frame before it
/// for every later one.
pub open spec fn sent_content(started: bool, previous: Seq<u8>, frame: Seq<u8>) -> Seq<u8> {
    if started {
        xor_seq(previous, frame)
    } else {
        frame
    }
}

/// The frame on display after a content was applied to it: the content
/// itself for the first packet of a session, and the frame shown before
/// XORed with it for every later one.
pub open spec fn shown_after(started: bool, shown: Seq<u8>, content: Seq<u8>) -> Seq<u8> {
    if started {
        xor_seq(shown, content)
    } else {
        content
    }
}

/// Whether a frame is passed over because it shows what the frame before
/// it showed.
pub open spec fn stands_still(started: bool, previous: Seq<u8>, frame: Seq<u8>) -> bool {
    started && previous == frame
}

/// Whether a frame has another length than the frame before it: the
/// picture was resized, which a running session cannot follow.
pub open spec fn resized(started: bool, previous: Seq<u8>, frame: Seq<u8>) -> bool {
    started && previous.len() != frame.len()
}

/// The pause after a packet of `clen` bytes, in milliseconds.
pub open spec fn skip_spec(clen: int) -> int {
    if SKIP && clen > SKIP_LENGTH {
        SKIP_TIME as int
    } else {
        0
    }
}

/// A receiver that shows what the sender sent last shows, after the next
/// packet, what the sender captured next: the content that the sender packs
/// for a frame, applied to the frame before it, is that frame.
pub proof fn lemma_receiver_follows_sender(started: bool, previous: Seq<u8>, frame: Seq<u8>)
    requires
        started ==> previous.len() == frame.len(),
    ensures
        shown_after(started, previous, sent_content(started, previous, frame)) == frame,
{
    if started {
        lemma_delta_round_trip(previous, frame);
    }
}

/// The contents that go out for a sequence of captured frames: the first
/// frame whole, then for every frame that differs from the one before it
/// the difference between the two.
pub open spec fn contents_sent(frames: Seq<Seq<u8>>) -> Seq<Seq<u8>>
    decreases frames.len(),
{
    if frames.len() == 0 {
        Seq::empty()
    } else if frames.len() == 1 {
        seq![frames[0]]
    } else {
        let before = frames.drop_last();
        if stands_still(true, before.last(), frames.last()) {
            contents_sent(before)
        } else {
            contents_sent(before).push(sent_content(true, before.last(), frames.last()))
        }
    }
}

/// The frame on display after a sequence of contents was applied in order,
/// each exactly once.
pub open spec fn shown_after_all(contents: Seq<Seq<u8>>) -> Seq<u8>
    decreases contents.len(),
{
    if contents.len() == 0 {
        Seq::empty()
    } else {
        shown_after(
            contents.len() > 1,
            shown_after_all(contents.drop_last()),
            contents.last(),
        )
    }
}

/// Whatever the source captures, the viewer shows the frame captured last:
/// if every content that goes out for a sequence of frames of one length is
/// applied, in order and once, the frame on display is the last frame.
pub proof fn lemma_stream_shows_last_frame(frames: Seq<Seq<u8>>)
    requires
        frames.len() > 0,
        forall|i: int| 0 <= i < frames.len() ==> (#[trigger] frames[i]).len() == frames[0].len(),
    ensures
        contents_sent(frames).len() > 0,
        shown_after_all(contents_sent(frames)) == frames.last(),
    decreases frames.len(),
{
    if frames.len() == 1 {
        let contents = contents_sent(frames);
        assert(contents.last() == frames[0]);
    } else {
        let before = frames.drop_last();
        let previous = before.last();
        let frame = frames.last();
        assert forall|i: int| 0 <= i < before.len() implies (#[trigger] before[i]).len()
            == before[0].len() by {
            assert(before[i] == frames[i]);
            assert(before[0] == frames[0]);
        }
        lemma_stream_shows_last_frame(before);
        assert(previous == frames[frames.len() - 2]);
        assert(previous.len() == frame.len());
        if !stands_still(true, previous, frame) {
            let sent = contents_sent(before);
            let contents = sent.push(sent_content(true, previous, frame));
            assert(contents.drop_last() =~= sent);
            lemma_receiver_follows_sender(true, previous, frame);
        }
    }
}

/// The sender transmits no difference that is all zero: where a frame is
/// not passed over, the difference that is packed for it has a byte that is
/// not zero.
pub proof fn lemma_no_zero_delta_sent(previous: Seq<u8>, frame: Seq<u8>)
    requires
        previous.len() == frame.len(),
        !stands_still(true, previous, frame),
    ensures
        !all_zero(sent_content(true, previous, frame)),
{
    lemma_zero_delta_iff_equal(previous, frame);
}

/// A frame that shows what the frame before it showed is passed over, after
/// the first frame of a session: the difference of a frame from itself is
/// never sent.
pub proof fn lemma_same_frame_stands_still(frame: Seq<u8>)
    ensures
        stands_still(true, frame, frame),
        !stands_still(false, frame, frame),
        all_zero(xor_seq(frame, frame)),
{
    lemma_zero_delta_iff_equal(frame, frame);
}

/// The pause that a packet of `clen` bytes calls for, in milliseconds:
/// [`SKIP_TIME`] after one longer than [`SKIP_LENGTH`], none after another.
/// The caller sleeps that long before it produces the next frame, so that a
/// slow connection is not flooded.
pub fn skip(clen: usize) -> (millis: u64)
    ensures
        millis == skip_spec(clen as int),
{
    if SKIP {
        if clen > SKIP_LENGTH {
            return SKIP_TIME;
        }
    }
    0
}

/// The time left of a frame's slot, in nanoseconds, when `elapsed`
/// nanoseconds of it were spent on the frame and `fps` frames go into a
/// second.
pub fn pace(elapsed: u64, fps: u64) -> (left: u64)
    requires
        fps > 0,
    ensures
        left == if elapsed < 1_000_000_000u64 / fps {
            1_000_000_000u64 / fps - elapsed
        } else {
            0
        },
{
    let slot: u64 = 1_000_000_000 / fps;
    if elapsed < slot {
        slot - elapsed
    } else {
        0
    }
}

/// The sending end of a frame stream.
pub struct FrameSender {
    backend: CompressionBackend,
    previous: Vec<u8>,
    diff: Vec<u8>,
    payload: Vec<u8>,
    started: bool,
    mask: u8,
}

impl FrameSender {
    /// The frame that was sent last.
    pub closed spec fn previous(&self) -> Seq<u8> {
        self.previous@
    }

    /// Whether the first frame of the session went out.
    pub closed spec fn started(&self) -> bool {
        self.started
    }

    /// The bits of each byte that are transmitted.
    pub closed spec fn mask(&self) -> u8 {
        self.mask
    }

    /// A sender for a session whose frames are cut down to the bits of
    /// `mask` and compressed at `level`. A mask of `0xFF` keeps every bit.
    pub fn new(level: i32, mask: u8) -> (sender: Result<Self, SessionError>)
        ensures
            sender matches Ok(s) ==> !s.started() && s.mask() == mask && s.previous()
                == Seq::<u8>::empty(),
            sender matches Err(e) ==> e == SessionError::Codec(CodecError::Setup),
    {
        match CompressionBackend::new(level) {
            Ok(backend) => Ok(
                FrameSender {
                    backend,
                    previous: Vec::new(),
                    diff: Vec::new(),
                    payload: Vec::new(),
                    started: false,
                    mask,
                },
            ),
            Err(_) => Err(SessionError::Codec(CodecError::Setup)),
        }
    }

    /// Takes a captured frame and gives the packet to send for it, or `None`
    /// if it shows what the frame before it showed.
    ///
    /// The frame is first cut down to the bits of the mask. With a packet
    /// goes a swap of buffers: the sender keeps the frame, and `frame` gets
    /// the buffer of the frame before it, to capture into again. Without a
    /// packet `frame` keeps the (masked) frame, and so does it after an
    /// error, which ends the session. A frame of another length than the
    /// frame before it is such an error.
    pub fn next_packet(&mut self, frame: &mut Vec<u8>) -> (packet: Result<
        Option<Vec<u8>>,
        SessionError,
    >)
        ensures
            final(self).mask() == old(self).mask(),
            packet matches Ok(Some(bytes)) ==> {
                let cut = masked(old(frame)@, old(self).mask());
                let payload = bytes@.skip(HEADER_LEN as int);
                &&& !resized(old(self).started(), old(self).previous(), cut)
                &&& !stands_still(old(self).started(), old(self).previous(), cut)
                &&& bytes@ == packet_bytes(payload)
                &&& payload.len() <= MAX_PAYLOAD
                &&& zstd_content(payload) == sent_content(
                    old(self).started(),
                    old(self).previous(),
                    cut,
                )
                &&& final(self).started()
                &&& final(self).previous() == cut
                &&& final(frame)@ == old(self).previous()
            },
            packet matches Ok(None) ==> {
                let cut = masked(old(frame)@, old(self).mask());
                &&& stands_still(old(self).started(), old(self).previous(), cut)
                &&& final(self).started()
                &&& final(self).previous() == old(self).previous()
                &&& final(frame)@ == cut
            },
            packet matches Err(e) ==> {
                let cut = masked(old(frame)@, old(self).mask());
                &&& !stands_still(old(self).started(), old(self).previous(), cut)
                &&& resized(old(self).started(), old(self).previous(), cut) <==> e
                    == SessionError::Codec(CodecError::WrongLength)
                &&& !resized(old(self).started(), old(self).previous(), cut) ==> e
                    == SessionError::Codec(CodecError::Compress) || e == SessionError::Protocol(
                    ProtocolViolation::MalformedLength,
                )
                &&& final(self).started() == old(self).started()
                &&& final(self).previous() == old(self).previous()
                &&& final(frame)@ == cut
            },
    {
        mask_frame(frame.as_mut_slice(), self.mask);
        let ghost cut = frame@;
        if self.started && frame.len() != self.previous.len() {
            return Err(SessionError::Codec(CodecError::WrongLength));
        }
        let packed = if self.started {
            let changed = encode_delta(frame.as_slice(), self.previous.as_slice(), &mut self.diff);
            if !changed {
                return Ok(None);
            }
            self.backend.compress_with_room(self.diff.as_slice(), &mut self.payload)
        } else {
            self.backend.compress_with_room(frame.as_slice(), &mut self.payload)
        };
        match packed {
            Ok(_) => {},
            Err(e) => {
                return Err(SessionError::Codec(e));
            },
        }
        match frame_packet(self.payload.as_slice()) {
            Ok(bytes) => {
                proof {
                    assert(bytes@.skip(HEADER_LEN as int) =~= self.payload@);
                }
                core::mem::swap(&mut self.previous, frame);
                self.started = true;
                Ok(Some(bytes))
            },
            Err(e) => Err(SessionError::Protocol(e)),
        }
    }
}

/// The receiving end of a frame stream.
pub struct FrameReceiver {
    backend: CompressionBackend,
    shown: Vec<u8>,
    content: Vec<u8>,
    started: bool,
    frame_len: usize,
}

impl FrameReceiver {
    /// The frame on display.
    pub closed spec fn shown(&self) -> Seq<u8> {
        self.shown@
    }

    /// Whether the first packet of the session was applied.
    pub closed spec fn started(&self) -> bool {
        self.started
    }

    /// The number of bytes of a frame.
    pub closed spec fn frame_len(&self) -> nat {
        self.frame_len as nat
    }

    /// Whether the frame on display has the length of a frame.
    pub closed spec fn wf(&self) -> bool {
        self.shown@.len() == self.frame_len
    }

    /// A receiver for a session whose frames have `frame_len` bytes. Until
    /// the first packet is applied it shows a frame of zeros.
    pub fn new(frame_len: usize) -> (receiver: Result<Self, SessionError>)
        ensures
            receiver matches Ok(r) ==> r.wf() && !r.started() && r.frame_len() == frame_len
                && r.shown() == Seq::new(frame_len as nat, |i: int| 0u8),
            receiver matches Err(e) ==> e == SessionError::Codec(CodecError::Setup),
    {
        match CompressionBackend::new(0) {
            Ok(backend) => {
                let mut shown: Vec<u8> = Vec::new();
                shown.resize(frame_len, 0u8);
                proof {
                    assert(shown@ =~= Seq::new(frame_len as nat, |i: int| 0u8));
                }
                Ok(
                    FrameReceiver {
                        backend,
                        shown,
                        content: Vec::new(),
                        started: false,
                        frame_len,
                    },
                )
            },
            Err(_) => Err(SessionError::Codec(CodecError::Setup)),
        }
    }

    /// The frame on display.
    pub fn frame(&self) -> (shown: &[u8])
        ensures
            shown@ == self.shown(),
    {
        self.shown.as_slice()
    }

    /// Applies the decompressed content of a packet to the frame on
    /// display: the first content of a session replaces it, every later one
    /// is XORed onto it.
    ///
    /// A content that has not the length of a frame is refused, and the
    /// frame on display stays as it is.
    pub fn apply(&mut self, content: &[u8]) -> (done: Result<(), SessionError>)
        requires
            old(self).wf(),
        ensures
            final(self).wf(),
            final(self).frame_len() == old(self).frame_len(),
            done is Ok <==> content@.len() == old(self).frame_len(),
            done is Ok ==> final(self).started() && final(self).shown() == shown_after(
                old(self).started(),
                old(self).shown(),
                content@,
            ),
            done matches Err(e) ==> e == SessionError::Codec(CodecError::WrongLength),
            done is Err ==> final(self).started() == old(self).started(),
            done is Err ==> final(self).shown() == old(self).shown(),
    {
        if content.len() != self.frame_len {
            return Err(SessionError::Codec(CodecError::WrongLength));
        }
        if self.started {
            decode_delta(self.shown.as_mut_slice(), content);
        } else {
            let n = self.frame_len;
            let mut i: usize = 0;
            while i < n
                invariant
                    n == content@.len(),
                    self.shown@.len() == n,
                    self.frame_len == n,
                    i <= n,
                    forall|k: int| 0 <= k < i ==> self.shown@[k] == content@[k],
                decreases n - i,
            {
                self.shown[i] = content[i];
                i += 1;
            }
            proof {
                assert(self.shown@ =~= content@);
            }
            self.started = true;
        }
        Ok(())
    }

    /// Takes the payload of a received packet: decompresses it and applies
    /// its content to the frame on display.
    ///
    /// A payload that does not decompress, or whose content has not the
    /// length of a frame, ends the session; the frame on display stays as
    /// it is.
    pub fn receive(&mut self, payload: &[u8]) -> (done: Result<(), SessionError>)
        requires
            old(self).wf(),
        ensures
            final(self).wf(),
            final(self).frame_len() == old(self).frame_len(),
            done is Ok ==> zstd_content(payload@).len() == old(self).frame_len(),
            done is Ok ==> final(self).started(),
            done is Ok ==> final(self).shown() == shown_after(
                old(self).started(),
                old(self).shown(),
                zstd_content(payload@),
            ),
            done matches Err(e) ==> e == SessionError::Codec(CodecError::Decompress) || e
                == SessionError::Codec(CodecError::WrongLength),
            done matches Err(e) ==> (e == SessionError::Codec(CodecError::WrongLength)
                ==> zstd_content(payload@).len() != old(self).frame_len()),
            done is Err ==> final(self).started() == old(self).started(),
            done is Err ==> final(self).shown() == old(self).shown(),
    {
        let mut content: Vec<u8> = Vec::new();
        core::mem::swap(&mut content, &mut self.content);
        let done = match self.backend.decompress_with_room(payload, &mut content, self.frame_len) {
            Ok(_) => self.apply(content.as_slice()),
            Err(e) => Err(SessionError::Codec(e)),
        };
        core::mem::swap(&mut content, &mut self.content);
        done
    }
}

} // verus!
