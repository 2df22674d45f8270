//! The ways in which a session ends.

use crate::auth::AUTH_OK;
use crate::compress::CodecError;
use crate::wire::ProtocolViolation;
use vstd::prelude::*;

verus! {

/// Why a session was closed. None of these is mended in place: the
/// connection is dropped, and a new one starts with a new handshake.
#[derive(Clone, Copy, Debug, PartialEq, Eq, Structural)]
pub enum SessionError {
    /// The peer broke the protocol.
    Protocol(ProtocolViolation),
    /// Reading or writing the connection failed, or it ended early.
    Transport,
    /// A payload could not be made or read.
    Codec(CodecError),
}

/// What the byte that answers a ticket means for the session: it goes on
/// after the accepting byte, and after any other byte it ends for a ticket
/// that was not the expected one.
pub open spec fn auth_outcome_spec(reply: u8) -> Result<(), SessionError> {
    if reply == AUTH_OK {
        Ok(())
    } else {
        Err(SessionError::Protocol(ProtocolViolation::AuthMismatch))
    }
}

/// Tells whether a session goes on after the byte that answered the ticket,
/// on the end that sent the byte as on the end that received it.
pub fn auth_outcome(reply: u8) -> (outcome: Result<(), SessionError>)
    ensures
        outcome == auth_outcome_spec(reply),
{
    if reply == AUTH_OK {
        Ok(())
    } else {
        Err(SessionError::Protocol(ProtocolViolation::AuthMismatch))
    }
}

} // verus!
