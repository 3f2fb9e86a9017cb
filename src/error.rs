use vstd::prelude::*;

verus! {

/// Why a handshake or a session was refused.
#[derive(Debug, Clone, Copy, PartialEq, Eq, Structural)]
pub enum TunnelError {
    /// A frame did not authenticate under the session cipher.
    Undecryptable,
    /// The peer did not open with the expected magic prefix.
    BadMagic,
    /// The peer did not prove knowledge of the pre-shared key.
    ChallengeFailed,
    /// The port manifest is not a list of 3-byte port records.
    BadManifest,
    /// The gateway asked for a port that the server does not forward.
    UnknownPort,
    /// Too many ports to describe in a one-byte length frame.
    TooManyPorts,
    /// An HTTP CONNECT proxy's reply grew past the size cap.
    ProxyReplyTooLarge,
    /// The system random source failed.
    RandomUnavailable,
}

} // verus!
