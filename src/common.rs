use vstd::prelude::*;
use crate::crypto::constant_eq;
use crate::error::TunnelError;

verus! {

pub const MAGIC1_LENGTH: usize = 17;

/// The clear prefix that a server sends first on a fresh control connection;
/// anything else marks the peer as noise and is dropped.
pub const MAGIC1: [u8; 17] = [231, 3, 23, 145, 7, 2, 46, 41, 78, 222, 175, 4, 8, 15, 16, 23, 42];

/// Accepts the first bytes of a control connection only when they are MAGIC1.
pub fn check_magic1(buf: &[u8]) -> (r: Result<(), TunnelError>)
    ensures
        r is Ok <==> buf@ == MAGIC1@,
        r is Err ==> r == Err::<(), TunnelError>(TunnelError::BadMagic),
{
    if constant_eq(buf, MAGIC1.as_slice()) {
        Ok(())
    } else {
        Err(TunnelError::BadMagic)
    }
}

/// The plaintext of a rendezvous notification: the big-endian port, then the
/// 14-byte ticket.
pub open spec fn notification_bytes(port: u16, ticket: Seq<u8>) -> Seq<u8> {
    seq![(port / 256) as u8, (port % 256) as u8] + ticket
}

pub const TICKET_LENGTH: usize = 14;
pub const NOTIFICATION_LENGTH: usize = 2 + TICKET_LENGTH;

} // verus!
