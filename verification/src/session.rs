//! The course of a session on either end: the ticket is presented and
//! answered, the source announces the size of its picture, and from then on
//! frame packets follow one another until the connection ends.
//!
//! Each end is a function from its phase and an event to the next phase and
//! what to do. Whoever owns the connection performs the action and comes
//! back with the next event.

use crate::auth::{check_ticket, reply_for, AuthError, AUTH_BAD_SECRET, AUTH_OK};
use crate::wire::{
    be16_value, decode_meta, depack, encode_meta, header_value, meta_bytes, ProtocolViolation,
    META_LEN,
};
use vstd::prelude::*;

verus! {

/// How a session's payloads are made.
#[derive(Clone, Copy, Debug, PartialEq, Eq, Structural)]
pub enum CodecKind {
    /// Differences between frames, compressed as plain bytes.
    Generic,
    /// Whole frames, handed to a video codec.
    Video,
}

/// What both ends agree on once the handshake is over. It stays as it is
/// until the connection ends.
#[derive(Clone, Copy, Debug, PartialEq, Eq, Structural)]
pub struct Session {
    pub width: u16,
    pub height: u16,
    pub codec: CodecKind,
    pub level: i32,
}

/// How far a session has come.
#[derive(Clone, Copy, Debug, PartialEq, Eq, Structural)]
pub enum Phase {
    /// The ticket has not been accepted yet.
    Connecting,
    /// The ticket was accepted; the metadata has not gone out yet.
    Handshook,
    /// Frame packets follow one another.
    Streaming,
    /// The session is over. Nothing brings it back.
    Closed,
}

/// What happens to the source's end of a session.
#[derive(Clone, Copy, Debug)]
pub enum SourceEvent {
    /// Eight bytes arrived where the ticket is due.
    Ticket([u8; 8]),
    /// The size of the picture is known.
    Sized(u16, u16),
    /// A frame packet is ready to go out.
    Frame,
    /// Reading or writing failed, or the connection was closed.
    Lost,
}

/// What the source does next.
#[derive(Clone, Copy, Debug)]
pub enum SourceAction {
    /// Send this byte and go on.
    Accept(u8),
    /// Send this byte and close the connection.
    Refuse(u8),
    /// Send these four bytes of metadata.
    Announce([u8; 4]),
    /// Send the frame packet.
    Send,
    /// Close the connection.
    Close,
}

/// What happens to the viewer's end of a session.
#[derive(Clone, Copy, Debug)]
pub enum ViewerEvent {
    /// The byte that answers the ticket arrived.
    Reply(u8),
    /// The four bytes of metadata arrived.
    Meta([u8; 4]),
    /// The three bytes in front of a payload arrived.
    Header([u8; 3]),
    /// Reading or writing failed, or the connection was closed.
    Lost,
}

/// What the viewer does next.
#[derive(Clone, Copy, Debug, PartialEq, Eq, Structural)]
pub enum ViewerAction {
    /// Read the four bytes of metadata.
    AwaitMeta,
    /// Set up a display of this width and height and read the first header.
    Display(u16, u16),
    /// Read a payload of this many bytes, apply it, and read the next
    /// header.
    ReadPayload(usize),
    /// Give up: the source refused the ticket.
    Refused(AuthError),
    /// Close the connection.
    Close,
}

/// The phase that follows an event on the source's end.
pub open spec fn source_next(phase: Phase, event: SourceEvent, expected: Seq<u8>) -> Phase {
    match (phase, event) {
        (Phase::Connecting, SourceEvent::Ticket(ticket)) => if ticket@ == expected {
            Phase::Handshook
        } else {
            Phase::Closed
        },
        (Phase::Handshook, SourceEvent::Sized(_, _)) => Phase::Streaming,
        (Phase::Streaming, SourceEvent::Frame) => Phase::Streaming,
        _ => Phase::Closed,
    }
}

/// The bytes that the source sends in answer to an event.
pub open spec fn source_sends(phase: Phase, event: SourceEvent, expected: Seq<u8>) -> Seq<u8> {
    match (phase, event) {
        (Phase::Connecting, SourceEvent::Ticket(ticket)) => seq![reply_for(expected, ticket@)],
        (Phase::Handshook, SourceEvent::Sized(width, height)) => meta_bytes(width, height),
        _ => Seq::empty(),
    }
}

/// The phase that follows an event on the viewer's end.
pub open spec fn viewer_next(phase: Phase, event: ViewerEvent) -> Phase {
    match (phase, event) {
        (Phase::Connecting, ViewerEvent::Reply(reply)) => if reply == AUTH_OK {
            Phase::Handshook
        } else {
            Phase::Closed
        },
        (Phase::Handshook, ViewerEvent::Meta(_)) => Phase::Streaming,
        (Phase::Streaming, ViewerEvent::Header(_)) => Phase::Streaming,
        _ => Phase::Closed,
    }
}

/// What the viewer does in answer to an event.
pub open spec fn viewer_does(phase: Phase, event: ViewerEvent) -> ViewerAction {
    match (phase, event) {
        (Phase::Connecting, ViewerEvent::Reply(reply)) => if reply == AUTH_OK {
            ViewerAction::AwaitMeta
        } else if reply == AUTH_BAD_SECRET {
            ViewerAction::Refused(AuthError::BadSecret)
        } else {
            ViewerAction::Refused(AuthError::Other(reply))
        },
        (Phase::Handshook, ViewerEvent::Meta(meta)) => ViewerAction::Display(
            be16_value(meta@[0], meta@[1]) as u16,
            be16_value(meta@[2], meta@[3]) as u16,
        ),
        (Phase::Streaming, ViewerEvent::Header(header)) => ViewerAction::ReadPayload(
            header_value(header@) as usize,
        ),
        _ => ViewerAction::Close,
    }
}

/// A closed session stays closed, whatever happens, and sends nothing.
pub proof fn lemma_closed_is_final(
    source_event: SourceEvent,
    viewer_event: ViewerEvent,
    expected: Seq<u8>,
)
    ensures
        source_next(Phase::Closed, source_event, expected) == Phase::Closed,
        source_sends(Phase::Closed, source_event, expected) == Seq::<u8>::empty(),
        viewer_next(Phase::Closed, viewer_event) == Phase::Closed,
{
}

/// Whether an event brings the expected ticket.
pub open spec fn brings_ticket(event: SourceEvent, expected: Seq<u8>) -> bool {
    event matches SourceEvent::Ticket(ticket) && ticket@ == expected
}

/// The phase of the source's end after a sequence of events on a fresh
/// connection.
pub open spec fn source_phase_after(events: Seq<SourceEvent>, expected: Seq<u8>) -> Phase
    decreases events.len(),
{
    if events.len() == 0 {
        Phase::Connecting
    } else {
        source_next(source_phase_after(events.drop_last(), expected), events.last(), expected)
    }
}

/// The phase of the viewer's end after a sequence of events on a fresh
/// connection.
pub open spec fn viewer_phase_after(events: Seq<ViewerEvent>) -> Phase
    decreases events.len(),
{
    if events.len() == 0 {
        Phase::Connecting
    } else {
        viewer_next(viewer_phase_after(events.drop_last()), events.last())
    }
}

/// The source has accepted a ticket and sent nothing else exactly after one
/// event, which brought the expected ticket.
pub proof fn lemma_handshook_after_ticket(events: Seq<SourceEvent>, expected: Seq<u8>)
    ensures
        source_phase_after(events, expected) == Phase::Connecting <==> events.len() == 0,
        source_phase_after(events, expected) == Phase::Handshook <==> events.len() == 1
            && brings_ticket(events[0], expected),
    decreases events.len(),
{
    if events.len() > 0 {
        lemma_handshook_after_ticket(events.drop_last(), expected);
        if events.len() == 1 {
            assert(events.drop_last().len() == 0);
            assert(events.last() == events[0]);
        }
    }
}

/// Whatever happens on a connection, the source sends metadata only as its
/// second answer, and only if the first event brought the expected ticket:
/// nobody who has not presented it learns the size of the picture.
pub proof fn lemma_metadata_needs_ticket(events: Seq<SourceEvent>, expected: Seq<u8>, i: int)
    requires
        0 <= i < events.len(),
        source_sends(source_phase_after(events.take(i), expected), events[i], expected).len()
            == META_LEN,
    ensures
        i == 1,
        brings_ticket(events[0], expected),
        events[1] matches SourceEvent::Sized(width, height) && source_sends(
            source_phase_after(events.take(i), expected),
            events[i],
            expected,
        ) == meta_bytes(width, height),
{
    let seen = events.take(i);
    lemma_handshook_after_ticket(seen, expected);
    assert(source_phase_after(seen, expected) == Phase::Handshook);
    assert(seen[0] == events[0]);
}

/// Whatever happens on a connection, the viewer sets up its display only
/// after the source has accepted its ticket: a viewer that is streaming has
/// read the accepting reply first and the metadata second.
pub proof fn lemma_streaming_needs_acceptance(events: Seq<ViewerEvent>)
    requires
        viewer_phase_after(events) == Phase::Streaming,
    ensures
        events.len() >= 2,
        events[0] == ViewerEvent::Reply(AUTH_OK),
        events[1] is Meta,
        forall|i: int| 2 <= i < events.len() ==> (#[trigger] events[i]) is Header,
    decreases events.len(),
{
    lemma_viewer_phases(events);
    let before = events.drop_last();
    lemma_viewer_phases(before);
    if viewer_phase_after(before) == Phase::Streaming {
        lemma_streaming_needs_acceptance(before);
        assert(before[0] == events[0] && before[1] == events[1]);
        assert forall|i: int| 2 <= i < events.len() implies (#[trigger] events[i]) is Header by {
            if i < before.len() {
                assert(before[i] == events[i]);
            }
        }
    } else {
        assert(viewer_phase_after(before) == Phase::Handshook);
        assert(before[0] == events[0]);
    }
}

proof fn lemma_viewer_phases(events: Seq<ViewerEvent>)
    ensures
        viewer_phase_after(events) == Phase::Connecting <==> events.len() == 0,
        viewer_phase_after(events) == Phase::Handshook <==> events.len() == 1 && events[0]
            == ViewerEvent::Reply(AUTH_OK),
    decreases events.len(),
{
    if events.len() > 0 {
        lemma_viewer_phases(events.drop_last());
        if events.len() == 1 {
            assert(events.drop_last().len() == 0);
            assert(events.last() == events[0]);
        }
    }
}

/// Takes the source's end of a session one step further.
pub fn source_step(phase: Phase, event: SourceEvent, expected: &[u8; 8]) -> (step: (
    Phase,
    SourceAction,
))
    ensures
        step.0 == source_next(phase, event, expected@),
        match step.1 {
            SourceAction::Accept(reply) => step.0 == Phase::Handshook && seq![reply]
                == source_sends(phase, event, expected@) && reply == AUTH_OK,
            SourceAction::Refuse(reply) => step.0 == Phase::Closed && seq![reply] == source_sends(
                phase,
                event,
                expected@,
            ) && reply == AUTH_BAD_SECRET,
            SourceAction::Announce(meta) => step.0 == Phase::Streaming && meta@ == source_sends(
                phase,
                event,
                expected@,
            ),
            SourceAction::Send => step.0 == Phase::Streaming && phase == Phase::Streaming
                && source_sends(phase, event, expected@).len() == 0,
            SourceAction::Close => step.0 == Phase::Closed && source_sends(
                phase,
                event,
                expected@,
            ).len() == 0,
        },
{
    match (phase, event) {
        (Phase::Connecting, SourceEvent::Ticket(ticket)) => {
            let reply = check_ticket(expected, &ticket);
            if reply == AUTH_OK {
                (Phase::Handshook, SourceAction::Accept(reply))
            } else {
                (Phase::Closed, SourceAction::Refuse(reply))
            }
        },
        (Phase::Handshook, SourceEvent::Sized(width, height)) => {
            (Phase::Streaming, SourceAction::Announce(encode_meta(width, height)))
        },
        (Phase::Streaming, SourceEvent::Frame) => (Phase::Streaming, SourceAction::Send),
        _ => (Phase::Closed, SourceAction::Close),
    }
}

/// Takes the viewer's end of a session one step further.
pub fn viewer_step(phase: Phase, event: ViewerEvent) -> (step: (Phase, ViewerAction))
    ensures
        step.0 == viewer_next(phase, event),
        step.1 == viewer_does(phase, event),
{
    match (phase, event) {
        (Phase::Connecting, ViewerEvent::Reply(reply)) => {
            if reply == AUTH_OK {
                (Phase::Handshook, ViewerAction::AwaitMeta)
            } else if reply == AUTH_BAD_SECRET {
                (Phase::Closed, ViewerAction::Refused(AuthError::BadSecret))
            } else {
                (Phase::Closed, ViewerAction::Refused(AuthError::Other(reply)))
            }
        },
        (Phase::Handshook, ViewerEvent::Meta(meta)) => {
            let (width, height) = decode_meta(&meta);
            (Phase::Streaming, ViewerAction::Display(width, height))
        },
        (Phase::Streaming, ViewerEvent::Header(header)) => {
            let len = depack(header.as_slice());
            (Phase::Streaming, ViewerAction::ReadPayload(len))
        },
        _ => (Phase::Closed, ViewerAction::Close),
    }
}

impl Session {
    /// The session for a picture of `width` by `height` pixels, or a refusal
    /// if either does not fit the sixteen bits it has in the metadata.
    pub fn new(width: usize, height: usize, codec: CodecKind, level: i32) -> (session: Result<
        Session,
        ProtocolViolation,
    >)
        ensures
            session is Ok <==> width <= u16::MAX && height <= u16::MAX,
            session matches Ok(s) ==> s.width == width && s.height == height && s.codec == codec
                && s.level == level,
            session matches Err(e) ==> e == ProtocolViolation::MalformedLength,
    {
        if width > 0xFFFF || height > 0xFFFF {
            return Err(ProtocolViolation::MalformedLength);
        }
        Ok(Session { width: width as u16, height: height as u16, codec, level })
    }

    /// The number of bytes of a frame with `bytes_per_pixel` bytes for each
    /// pixel, or `None` if this machine cannot address that many.
    pub fn frame_len(&self, bytes_per_pixel: u8) -> (len: Option<usize>)
        ensures
            len is Some <==> self.width * self.height * bytes_per_pixel <= usize::MAX,
            len matches Some(n) ==> n == self.width * self.height * bytes_per_pixel,
    {
        let w: u64 = self.width as u64;
        let h: u64 = self.height as u64;
        let b: u64 = bytes_per_pixel as u64;
        assert(w * h <= 0xFFFF * 0xFFFF && w * h * b <= 0xFFFF * 0xFFFF * 0xFF) by (nonlinear_arith)
            requires
                w <= 0xFFFF,
                h <= 0xFFFF,
                b <= 0xFF,
        ;
        let bytes: u64 = w * h * b;
        if bytes > usize::MAX as u64 {
            None
        } else {
            Some(bytes as usize)
        }
    }
}

} // verus!
