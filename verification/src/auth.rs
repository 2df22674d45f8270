//! The handshake ticket: eight bytes that both ends derive from the shared
//! secret. The source compares the ticket it receives with its own, byte for
//! byte, and answers with one byte.
//!
//! The ticket is the same for every session with one secret, and it travels
//! in the clear: whoever has seen it can present it again. It proves nothing
//! to somebody who can listen, and is kept in this shape only so that both
//! ends agree on the bytes.

use std::collections::hash_map::DefaultHasher;
use std::hash::Hasher;
use vstd::prelude::*;
use vstd::std_specs::hash::DefaultHasherAdditionalSpecFns;

verus! {

/// The number of bytes of a ticket.
pub const TICKET_LEN: usize = 8;

/// The reply to a ticket that is the expected one.
pub const AUTH_OK: u8 = 1;

/// The reply to a ticket that is not the expected one.
pub const AUTH_BAD_SECRET: u8 = 2;

/// Why the source did not grant a session.
#[derive(Clone, Copy, Debug, PartialEq, Eq, Structural)]
pub enum AuthError {
    /// The source answered that the secret is wrong.
    BadSecret,
    /// The source answered with a byte that is neither acceptance nor
    /// "wrong secret".
    Other(u8),
}

/// The eight bytes of a 64-bit digest, highest byte first.
pub open spec fn ticket_bytes(digest: u64) -> Seq<u8> {
    seq![
        (digest / 0x100_0000_0000_0000) as u8,
        ((digest / 0x1_0000_0000_0000) % 0x100) as u8,
        ((digest / 0x100_0000_0000) % 0x100) as u8,
        ((digest / 0x1_0000_0000) % 0x100) as u8,
        ((digest / 0x100_0000) % 0x100) as u8,
        ((digest / 0x1_0000) % 0x100) as u8,
        ((digest / 0x100) % 0x100) as u8,
        (digest % 0x100) as u8,
    ]
}

/// The 64-bit number that eight bytes spell, highest byte first.
pub open spec fn ticket_value(ticket: Seq<u8>) -> int {
    ticket[0] as int * 0x100_0000_0000_0000 + ticket[1] as int * 0x1_0000_0000_0000
        + ticket[2] as int * 0x100_0000_0000 + ticket[3] as int * 0x1_0000_0000
        + ticket[4] as int * 0x100_0000 + ticket[5] as int * 0x1_0000
        + ticket[6] as int * 0x100 + ticket[7] as int
}

/// The digest that the standard hasher gives for a secret written to it in
/// one piece.
pub open spec fn secret_digest(secret: Seq<u8>) -> u64 {
    DefaultHasher::spec_finish(seq![secret])
}

/// The byte with which the source answers a ticket.
pub open spec fn reply_for(expected: Seq<u8>, received: Seq<u8>) -> u8 {
    if expected == received {
        AUTH_OK
    } else {
        AUTH_BAD_SECRET
    }
}

/// A ticket spells the digest it was made from: two digests have the same
/// ticket only if they are the same digest.
pub proof fn lemma_ticket_spells_digest(digest: u64)
    ensures
        ticket_bytes(digest).len() == TICKET_LEN,
        ticket_value(ticket_bytes(digest)) == digest,
{
    let q0 = digest as int;
    let q1 = q0 / 0x100;
    let q2 = q1 / 0x100;
    let q3 = q2 / 0x100;
    let q4 = q3 / 0x100;
    let q5 = q4 / 0x100;
    let q6 = q5 / 0x100;
    let q7 = q6 / 0x100;
    assert(q2 == q0 / 0x1_0000);
    assert(q3 == q0 / 0x100_0000);
    assert(q4 == q0 / 0x1_0000_0000);
    assert(q5 == q0 / 0x100_0000_0000);
    assert(q6 == q0 / 0x1_0000_0000_0000);
    assert(q7 == q0 / 0x100_0000_0000_0000);
    let t = ticket_bytes(digest);
    assert(t[7] == q0 % 0x100 && t[6] == q1 % 0x100 && t[5] == q2 % 0x100 && t[4] == q3 % 0x100);
    assert(t[3] == q4 % 0x100 && t[2] == q5 % 0x100 && t[1] == q6 % 0x100 && t[0] == q7);
    assert(q6 == q7 * 0x100 + t[1]);
    assert(q5 == q6 * 0x100 + t[2]);
    assert(q4 == q5 * 0x100 + t[3]);
    assert(q3 == q4 * 0x100 + t[4]);
    assert(q2 == q3 * 0x100 + t[5]);
    assert(q1 == q2 * 0x100 + t[6]);
    assert(q0 == q1 * 0x100 + t[7]);
}

/// The source accepts the ticket of the digest it expects, and no other.
pub proof fn lemma_only_own_ticket_accepted(expected: u64, presented: u64)
    ensures
        reply_for(ticket_bytes(expected), ticket_bytes(presented)) == AUTH_OK <==> expected
            == presented,
{
    lemma_ticket_spells_digest(expected);
    lemma_ticket_spells_digest(presented);
}

/// The ticket for a digest.
pub fn ticket_from_digest(digest: u64) -> (ticket: [u8; 8])
    ensures
        ticket@ == ticket_bytes(digest),
{
    let ticket: [u8; 8] = [
        (digest / 0x100_0000_0000_0000) as u8,
        ((digest / 0x1_0000_0000_0000) % 0x100) as u8,
        ((digest / 0x100_0000_0000) % 0x100) as u8,
        ((digest / 0x1_0000_0000) % 0x100) as u8,
        ((digest / 0x100_0000) % 0x100) as u8,
        ((digest / 0x1_0000) % 0x100) as u8,
        ((digest / 0x100) % 0x100) as u8,
        (digest % 0x100) as u8,
    ];
    proof {
        assert(ticket@ =~= ticket_bytes(digest));
    }
    ticket
}

/// The ticket for a shared secret: the digest of the secret under the
/// standard hasher, highest byte first.
pub fn derive_ticket(secret: &[u8]) -> (ticket: [u8; 8])
    ensures
        ticket@ == ticket_bytes(secret_digest(secret@)),
{
    let mut hasher = DefaultHasher::new();
    hasher.write(secret);
    let digest = hasher.finish();
    proof {
        assert(hasher@ =~= seq![secret@]);
    }
    ticket_from_digest(digest)
}

/// The source's answer to a received ticket: [`AUTH_OK`] if it is the
/// expected one, byte for byte, and [`AUTH_BAD_SECRET`] if it is not.
pub fn check_ticket(expected: &[u8; 8], received: &[u8; 8]) -> (reply: u8)
    ensures
        reply == reply_for(expected@, received@),
{
    let mut i: usize = 0;
    while i < 8
        invariant
            i <= 8,
            forall|k: int| 0 <= k < i ==> expected@[k] == received@[k],
        decreases 8 - i,
    {
        if expected[i] != received[i] {
            return AUTH_BAD_SECRET;
        }
        i += 1;
    }
    proof {
        assert(expected@ =~= received@);
    }
    AUTH_OK
}

/// What the viewer makes of the source's answer: the session goes on after
/// [`AUTH_OK`] and after nothing else.
pub fn read_auth_reply(reply: u8) -> (granted: Result<(), AuthError>)
    ensures
        granted is Ok <==> reply == AUTH_OK,
        reply == AUTH_BAD_SECRET ==> granted == Err::<(), AuthError>(AuthError::BadSecret),
        reply != AUTH_OK && reply != AUTH_BAD_SECRET ==> granted == Err::<(), AuthError>(
            AuthError::Other(reply),
        ),
{
    if reply == AUTH_OK {
        Ok(())
    } else if reply == AUTH_BAD_SECRET {
        Err(AuthError::BadSecret)
    } else {
        Err(AuthError::Other(reply))
    }
}

} // verus!
