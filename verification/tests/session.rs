use diffscreen::auth::{check_ticket, derive_ticket, AuthError};
use diffscreen::error::{auth_outcome, SessionError};
use diffscreen::session::{
    source_step, viewer_step, CodecKind, Phase, Session, SourceAction, SourceEvent, ViewerAction,
    ViewerEvent,
};
use diffscreen::wire::ProtocolViolation;

#[test]
fn auth_scenario_correct_ticket() {
    let expected = derive_ticket(b"diffscreen");
    let (phase, action) = source_step(Phase::Connecting, SourceEvent::Ticket(expected), &expected);
    assert_eq!(phase, Phase::Handshook);
    assert!(matches!(action, SourceAction::Accept(1)));
    // the session proceeds: metadata, then frames
    let (phase, action) = source_step(phase, SourceEvent::Sized(4, 4), &expected);
    assert_eq!(phase, Phase::Streaming);
    assert!(matches!(action, SourceAction::Announce([0, 4, 0, 4])));
    let (phase, action) = source_step(phase, SourceEvent::Frame, &expected);
    assert_eq!(phase, Phase::Streaming);
    assert!(matches!(action, SourceAction::Send));
}

#[test]
fn auth_scenario_wrong_ticket() {
    let expected = derive_ticket(b"diffscreen");
    let wrong = derive_ticket(b"guess");
    let (phase, action) = source_step(Phase::Connecting, SourceEvent::Ticket(wrong), &expected);
    assert_eq!(phase, Phase::Closed);
    assert!(matches!(action, SourceAction::Refuse(2)));
    // no metadata is sent, whatever comes
    let (phase, action) = source_step(phase, SourceEvent::Sized(4, 4), &expected);
    assert_eq!(phase, Phase::Closed);
    assert!(matches!(action, SourceAction::Close));
    let (phase, action) = source_step(phase, SourceEvent::Ticket(expected), &expected);
    assert_eq!(phase, Phase::Closed);
    assert!(matches!(action, SourceAction::Close));
}

#[test]
fn source_closes_on_what_does_not_fit_the_phase() {
    let expected = [7u8; 8];
    let events = [
        SourceEvent::Ticket(expected),
        SourceEvent::Sized(1, 1),
        SourceEvent::Frame,
        SourceEvent::Lost,
    ];
    // (phase, index of the one event that does not close the session)
    let fitting = [
        (Phase::Connecting, Some(0)),
        (Phase::Handshook, Some(1)),
        (Phase::Streaming, Some(2)),
        (Phase::Closed, None),
    ];
    for (phase, fits) in fitting {
        for (i, event) in events.iter().enumerate() {
            let (next, action) = source_step(phase, *event, &expected);
            if Some(i) == fits {
                assert_ne!(next, Phase::Closed);
            } else {
                assert_eq!(next, Phase::Closed);
                assert!(matches!(action, SourceAction::Close));
            }
        }
    }
}

#[test]
fn viewer_goes_through_the_handshake() {
    let (phase, action) = viewer_step(Phase::Connecting, ViewerEvent::Reply(1));
    assert_eq!((phase, action), (Phase::Handshook, ViewerAction::AwaitMeta));
    let (phase, action) = viewer_step(phase, ViewerEvent::Meta([0x07, 0x80, 0x04, 0x38]));
    assert_eq!((phase, action), (Phase::Streaming, ViewerAction::Display(1920, 1080)));
    let (phase, action) = viewer_step(phase, ViewerEvent::Header([0, 1, 44]));
    assert_eq!((phase, action), (Phase::Streaming, ViewerAction::ReadPayload(300)));
    let (phase, action) = viewer_step(phase, ViewerEvent::Header([0xFF, 0xFF, 0xFF]));
    assert_eq!((phase, action), (Phase::Streaming, ViewerAction::ReadPayload(0xFF_FFFF)));
    let (phase, action) = viewer_step(phase, ViewerEvent::Lost);
    assert_eq!((phase, action), (Phase::Closed, ViewerAction::Close));
    let (phase, action) = viewer_step(phase, ViewerEvent::Header([0, 0, 1]));
    assert_eq!((phase, action), (Phase::Closed, ViewerAction::Close));
}

#[test]
fn viewer_gives_up_when_refused() {
    assert_eq!(
        viewer_step(Phase::Connecting, ViewerEvent::Reply(2)),
        (Phase::Closed, ViewerAction::Refused(AuthError::BadSecret))
    );
    assert_eq!(
        viewer_step(Phase::Connecting, ViewerEvent::Reply(0)),
        (Phase::Closed, ViewerAction::Refused(AuthError::Other(0)))
    );
    assert_eq!(
        viewer_step(Phase::Connecting, ViewerEvent::Reply(200)),
        (Phase::Closed, ViewerAction::Refused(AuthError::Other(200)))
    );
    // a reply is due once only
    assert_eq!(
        viewer_step(Phase::Handshook, ViewerEvent::Reply(1)),
        (Phase::Closed, ViewerAction::Close)
    );
    assert_eq!(
        viewer_step(Phase::Connecting, ViewerEvent::Meta([0, 1, 0, 1])),
        (Phase::Closed, ViewerAction::Close)
    );
}

#[test]
fn session_sizes() {
    let session = Session::new(1920, 1080, CodecKind::Generic, 3).unwrap();
    assert_eq!((session.width, session.height), (1920, 1080));
    assert_eq!(session.codec, CodecKind::Generic);
    assert_eq!(session.level, 3);
    assert_eq!(session.frame_len(4), Some(1920 * 1080 * 4));
    assert_eq!(session.frame_len(3), Some(1920 * 1080 * 3));
    assert_eq!(session.frame_len(0), Some(0));
    let largest = Session::new(65535, 65535, CodecKind::Video, 0).unwrap();
    assert_eq!(largest.frame_len(4), Some(65535 * 65535 * 4));
    assert_eq!(
        Session::new(65536, 1, CodecKind::Generic, 3),
        Err(ProtocolViolation::MalformedLength)
    );
    assert_eq!(
        Session::new(1, 65536, CodecKind::Generic, 3),
        Err(ProtocolViolation::MalformedLength)
    );
    assert!(Session::new(0, 0, CodecKind::Generic, 3).is_ok());
}

#[test]
fn a_refused_ticket_is_a_protocol_violation() {
    let expected = derive_ticket(b"diffscreen");
    assert_eq!(auth_outcome(check_ticket(&expected, &expected)), Ok(()));
    let mismatch = Err(SessionError::Protocol(ProtocolViolation::AuthMismatch));
    assert_eq!(auth_outcome(check_ticket(&expected, &derive_ticket(b"guess"))), mismatch);
    assert_eq!(auth_outcome(2), mismatch);
    assert_eq!(auth_outcome(0), mismatch);
    assert_eq!(auth_outcome(255), mismatch);
}
