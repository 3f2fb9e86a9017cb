use vstd::prelude::*;
use crate::bytes::{append_bytes, read_array};
use crate::common::{notification_bytes, NOTIFICATION_LENGTH, TICKET_LENGTH};
use crate::config::{port_of_bytes, valid_tag, Port, Protocol};
use crate::crypto::{aead_open, aead_seal, constant_eq, nonce_succ, random_bytes, Cipher, CipherView};
use crate::error::TunnelError;

verus! {

/// Milliseconds between two polls of the rendezvous listener.
pub const BUSY_LOOP_DELAY: u64 = 15;

/// How long, in milliseconds, the gateway waits for the server's rendezvous
/// connection before it gives the session up.
pub const CONNECT_TIMEOUT: u64 = 2000;

/// The ports that a manifest lists, one per 3-byte record.
pub open spec fn manifest_ports(raw: Seq<u8>) -> Seq<Port> {
    Seq::new((raw.len() / 3) as nat, |i: int| port_of_bytes(raw.subrange(3 * i, 3 * i + 3)))
}

/// A manifest is a whole number of records, each with a valid tag.
pub open spec fn valid_manifest(raw: Seq<u8>) -> bool {
    raw.len() % 3 == 0 && forall|i: int| 0 <= i < raw.len() / 3 ==> valid_tag(#[trigger] raw[3 * i + 2])
}

/// Reads a decrypted port manifest.
pub fn parse_manifest(raw: &[u8]) -> (r: Result<Vec<Port>, TunnelError>)
    ensures
        r is Ok <==> valid_manifest(raw@),
        r matches Ok(v) ==> v@ == manifest_ports(raw@),
        r is Err ==> r == Err::<Vec<Port>, TunnelError>(TunnelError::BadManifest),
{
    let len = raw.len();
    if len % 3 != 0 {
        return Err(TunnelError::BadManifest);
    }
    let n = len / 3;
    let mut ports: Vec<Port> = Vec::new();
    let mut i: usize = 0;
    while i < n
        invariant
            len == raw@.len(),
            n == len / 3,
            len % 3 == 0,
            i <= n,
            ports@ == manifest_ports(raw@).take(i as int),
            forall|j: int| 0 <= j < i ==> valid_tag(#[trigger] raw@[3 * j + 2]),
        decreases n - i,
    {
        let tag = raw[3 * i + 2];
        if tag > 1 {
            return Err(TunnelError::BadManifest);
        }
        let rec = [raw[3 * i], raw[3 * i + 1], tag];
        assert(rec@ =~= raw@.subrange(3 * i as int, 3 * i + 3));
        let port = Port::from_bytes(&rec);
        ports.push(port);
        i = i + 1;
        assert(ports@ =~= manifest_ports(raw@).take(i as int));
    }
    assert(ports@ =~= manifest_ports(raw@));
    Ok(ports)
}

/// Reads the one-byte length frame that precedes the manifest: the on-wire
/// size of the manifest frame.
pub fn receive_manifest_length(cipher: &mut Cipher, frame: &[u8]) -> (r: Result<usize, TunnelError>)
    requires
        frame@.len() == 1 + crate::crypto::AEAD_LENGTH,
    ensures
        match aead_open(old(cipher)@.key, old(cipher)@.nonce, frame@) {
            Some(p) => p.len() == 1 && r == Ok::<usize, TunnelError>(p[0] as usize)
                && final(cipher)@ == (CipherView { key: old(cipher)@.key, nonce: nonce_succ(old(cipher)@.nonce) }),
            None => r == Err::<usize, TunnelError>(TunnelError::Undecryptable) && final(cipher)@ == old(cipher)@,
        },
{
    let p = cipher.decrypt(frame)?;
    Ok(p[0] as usize)
}

/// Decrypts and reads the manifest frame.
pub fn receive_manifest(cipher: &mut Cipher, frame: &[u8]) -> (r: Result<Vec<Port>, TunnelError>)
    ensures
        match aead_open(old(cipher)@.key, old(cipher)@.nonce, frame@) {
            Some(p) => final(cipher)@ == (CipherView { key: old(cipher)@.key, nonce: nonce_succ(old(cipher)@.nonce) })
                && (r is Ok <==> valid_manifest(p))
                && (r matches Ok(v) ==> v@ == manifest_ports(p))
                && (r is Err ==> r == Err::<Vec<Port>, TunnelError>(TunnelError::BadManifest)),
            None => r == Err::<Vec<Port>, TunnelError>(TunnelError::Undecryptable) && final(cipher)@ == old(cipher)@,
        },
{
    let p = cipher.decrypt(frame)?;
    parse_manifest(p.as_slice())
}

/// The TCP port numbers of a manifest, in order.
pub open spec fn tcp_ports(s: Seq<Port>) -> Seq<u16>
    decreases s.len(),
{
    if s.len() == 0 {
        Seq::empty()
    } else {
        let rest = tcp_ports(s.drop_last());
        if s.last().protocol == Protocol::TCP {
            rest.push(s.last().port)
        } else {
            rest
        }
    }
}

/// The ports that the gateway binds a listener on: every TCP port of the
/// manifest. UDP ports are not forwarded.
pub fn listener_ports(ports: &Vec<Port>) -> (r: Vec<u16>)
    ensures
        r@ == tcp_ports(ports@),
{
    let mut r: Vec<u16> = Vec::new();
    let mut i: usize = 0;
    while i < ports.len()
        invariant
            i <= ports@.len(),
            r@ == tcp_ports(ports@.take(i as int)),
        decreases ports@.len() - i,
    {
        let p = ports[i];
        assert(ports@.take(i + 1).drop_last() =~= ports@.take(i as int));
        if p.protocol == Protocol::TCP {
            r.push(p.port);
        }
        i = i + 1;
    }
    assert(ports@.take(ports@.len() as int) =~= ports@);
    r
}

/// A number is a listener port exactly when the manifest lists it as a TCP
/// port, so a teardown that dials every TCP port of the manifest reaches every
/// listener of the session.
pub proof fn lemma_listeners_are_tcp_ports(s: Seq<Port>, n: u16)
    ensures
        tcp_ports(s).contains(n) <==> exists|i: int| 0 <= i < s.len() && s[i] == (Port { port: n, protocol: Protocol::TCP }),
    decreases s.len(),
{
    if s.len() > 0 {
        let t = s.drop_last();
        lemma_listeners_are_tcp_ports(t, n);
        if tcp_ports(s).contains(n) {
            if !tcp_ports(t).contains(n) {
                assert(s[s.len() - 1] == (Port { port: n, protocol: Protocol::TCP }));
            } else {
                let i = choose|i: int| 0 <= i < t.len() && t[i] == (Port { port: n, protocol: Protocol::TCP });
                assert(s[i] == t[i]);
            }
        }
        if exists|i: int| 0 <= i < s.len() && s[i] == (Port { port: n, protocol: Protocol::TCP }) {
            let i = choose|i: int| 0 <= i < s.len() && s[i] == (Port { port: n, protocol: Protocol::TCP });
            if i < s.len() - 1 {
                assert(t[i] == s[i]);
                assert(tcp_ports(t).contains(n));
                let k = choose|k: int| 0 <= k < tcp_ports(t).len() && tcp_ports(t)[k] == n;
                if s.last().protocol == Protocol::TCP {
                    assert(tcp_ports(s)[k] == n);
                }
            } else {
                assert(tcp_ports(s).last() == n);
                assert(tcp_ports(s)[tcp_ports(s).len() - 1] == n);
            }
        }
    }
}

/// What the gateway does next while it waits for a rendezvous connection.
#[derive(Debug, Clone, Copy, PartialEq, Eq, Structural)]
pub enum PollAction {
    /// Sleep this many milliseconds, then poll again.
    Sleep(u64),
    /// Give the session up: the server did not connect in time.
    Abort,
}

/// One pending rendezvous: the client's port, the ticket sent for it, and
/// the time spent waiting so far.
pub struct Rendezvous {
    pub port: u16,
    pub ticket: [u8; 14],
    pub elapsed_ms: u64,
}

/// Builds the notification frame for a new client on `port`.
pub fn notification_frame(cipher: &mut Cipher, port: u16, ticket: &[u8; 14]) -> (r: Vec<u8>)
    ensures
        r@ == aead_seal(old(cipher)@.key, old(cipher)@.nonce, notification_bytes(port, ticket@)),
        r@.len() == NOTIFICATION_LENGTH + crate::crypto::AEAD_LENGTH,
        final(cipher)@ == (CipherView { key: old(cipher)@.key, nonce: nonce_succ(old(cipher)@.nonce) }),
{
    let mut msg: Vec<u8> = Vec::new();
    msg.push((port / 256) as u8);
    msg.push((port % 256) as u8);
    append_bytes(&mut msg, ticket.as_slice());
    assert(msg@ =~= notification_bytes(port, ticket@));
    cipher.encrypt(msg.as_slice())
}

impl Rendezvous {
    /// Starts a rendezvous for a new client on `port`: draws a fresh ticket
    /// and returns the notification frame to send to the server.
    pub fn start(cipher: &mut Cipher, port: u16) -> (r: Result<(Rendezvous, Vec<u8>), TunnelError>)
        ensures
            r matches Ok((rv, frame)) ==> rv.port == port && rv.elapsed_ms == 0
                && frame@.len() == NOTIFICATION_LENGTH + crate::crypto::AEAD_LENGTH
                && frame@ == aead_seal(old(cipher)@.key, old(cipher)@.nonce, notification_bytes(port, rv.ticket@))
                && final(cipher)@ == (CipherView { key: old(cipher)@.key, nonce: nonce_succ(old(cipher)@.nonce) }),
            r is Err ==> r == Err::<(Rendezvous, Vec<u8>), TunnelError>(TunnelError::RandomUnavailable)
                && final(cipher)@ == old(cipher)@,
    {
        match random_bytes(TICKET_LENGTH) {
            Some(v) => {
                let ticket = read_array::<14>(v.as_slice(), 0);
                let frame = notification_frame(cipher, port, &ticket);
                Ok((Rendezvous { port, ticket, elapsed_ms: 0 }, frame))
            },
            None => Err(TunnelError::RandomUnavailable),
        }
    }

    /// Called when no candidate connection is waiting: sleep and poll again,
    /// or abort once the budget is spent.
    pub fn on_idle(&mut self) -> (r: PollAction)
        ensures
            old(self).elapsed_ms >= CONNECT_TIMEOUT ==> r == PollAction::Abort && *final(self) == *old(self),
            old(self).elapsed_ms < CONNECT_TIMEOUT ==> r == PollAction::Sleep(BUSY_LOOP_DELAY)
                && final(self).elapsed_ms == old(self).elapsed_ms + BUSY_LOOP_DELAY
                && final(self).port == old(self).port && final(self).ticket == old(self).ticket,
    {
        if self.elapsed_ms >= CONNECT_TIMEOUT {
            PollAction::Abort
        } else {
            self.elapsed_ms = self.elapsed_ms + BUSY_LOOP_DELAY;
            PollAction::Sleep(BUSY_LOOP_DELAY)
        }
    }

    /// Checks a candidate's ticket reply: it must decrypt under the session
    /// cipher to this rendezvous's ticket.
    pub fn check_ticket(&self, cipher: &mut Cipher, reply: &[u8]) -> (r: bool)
        ensures
            r == (aead_open(old(cipher)@.key, old(cipher)@.nonce, reply@) == Some(self.ticket@)),
            reply@ == aead_seal(old(cipher)@.key, old(cipher)@.nonce, self.ticket@) ==> r,
            aead_open(old(cipher)@.key, old(cipher)@.nonce, reply@) is Some
                ==> final(cipher)@ == (CipherView { key: old(cipher)@.key, nonce: nonce_succ(old(cipher)@.nonce) }),
            aead_open(old(cipher)@.key, old(cipher)@.nonce, reply@) is None ==> final(cipher)@ == old(cipher)@,
    {
        match cipher.decrypt(reply) {
            Ok(p) => constant_eq(p.as_slice(), self.ticket.as_slice()),
            Err(_) => false,
        }
    }

    /// Judges one candidate rendezvous connection. It is paired with the client
    /// only when it comes from the host of the control connection and its
    /// reply, read in time, carries this rendezvous's ticket. A candidate from
    /// another host leaves the session cipher untouched.
    pub fn on_candidate(&self, cipher: &mut Cipher, same_source: bool, reply: Option<&[u8]>) -> (r: bool)
        ensures
            !same_source || reply is None ==> !r && final(cipher)@ == old(cipher)@,
            same_source && reply is Some ==> {
                let b = reply.unwrap()@;
                &&& r == (aead_open(old(cipher)@.key, old(cipher)@.nonce, b) == Some(self.ticket@))
                &&& b == aead_seal(old(cipher)@.key, old(cipher)@.nonce, self.ticket@) ==> r
                &&& aead_open(old(cipher)@.key, old(cipher)@.nonce, b) is Some
                    ==> final(cipher)@ == (CipherView { key: old(cipher)@.key, nonce: nonce_succ(old(cipher)@.nonce) })
                &&& aead_open(old(cipher)@.key, old(cipher)@.nonce, b) is None ==> final(cipher)@ == old(cipher)@
            },
    {
        if !same_source {
            return false;
        }
        match reply {
            Some(b) => self.check_ticket(cipher, b),
            None => false,
        }
    }
}

} // verus!
