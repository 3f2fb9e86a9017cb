use vstd::prelude::*;
use vstd::string::StringSliceAdditionalSpecFns;
use crate::bytes::{append_bytes, copy_range};
use crate::common::notification_bytes;
use crate::config::{has_key, lemma_port_round_trip, port_bytes, port_of_bytes, valid_tag, Port, Protocol};
use crate::gateway::{manifest_ports, valid_manifest};
use crate::crypto::{constant_eq, aead_open, aead_seal, nonce_succ, Cipher, CipherView, AEAD_LENGTH};
use crate::error::TunnelError;

verus! {

/// Seconds that a server waits before it dials the gateway again.
pub const RETRY_DELAY: u64 = 60;

/// The manifest that a server advertises: the wire form of each advertised
/// port, in table order.
pub open spec fn manifest_bytes(s: Seq<(Port, u16)>) -> Seq<u8>
    decreases s.len(),
{
    if s.len() == 0 {
        Seq::empty()
    } else {
        manifest_bytes(s.drop_last()) + port_bytes(s.last().0)
    }
}

proof fn lemma_manifest_len(s: Seq<(Port, u16)>)
    ensures
        manifest_bytes(s).len() == 3 * s.len(),
    decreases s.len(),
{
    if s.len() > 0 {
        lemma_manifest_len(s.drop_last());
    }
}

proof fn lemma_manifest_record(s: Seq<(Port, u16)>, i: int)
    requires
        0 <= i < s.len(),
    ensures
        manifest_bytes(s).subrange(3 * i, 3 * i + 3) == port_bytes(s[i].0),
    decreases s.len(),
{
    let t = s.drop_last();
    let prev = manifest_bytes(t);
    let b = manifest_bytes(s);
    lemma_manifest_len(t);
    if i < t.len() {
        lemma_manifest_record(t, i);
        assert(b.subrange(3 * i, 3 * i + 3) =~= prev.subrange(3 * i, 3 * i + 3));
    } else {
        assert(b.subrange(3 * i, 3 * i + 3) =~= port_bytes(s.last().0));
    }
}

/// The manifest that a server builds from its table reads back, on the
/// gateway, as the table's advertised ports in the same order.
pub proof fn lemma_manifest_round_trip(s: Seq<(Port, u16)>)
    ensures
        manifest_bytes(s).len() == 3 * s.len(),
        valid_manifest(manifest_bytes(s)),
        manifest_ports(manifest_bytes(s)) == s.map_values(|kv: (Port, u16)| kv.0),
{
    let b = manifest_bytes(s);
    lemma_manifest_len(s);
    assert(b.len() / 3 == s.len());
    assert forall|i: int| 0 <= i < s.len() implies valid_tag(#[trigger] b[3 * i + 2])
        && port_of_bytes(b.subrange(3 * i, 3 * i + 3)) == s[i].0 by {
        lemma_manifest_record(s, i);
        lemma_port_round_trip(s[i].0);
        assert(b[3 * i + 2] == b.subrange(3 * i, 3 * i + 3)[2]);
    }
    assert forall|i: int| 0 <= i < s.len() implies #[trigger] manifest_ports(b)[i] == s[i].0 by {
        lemma_manifest_record(s, i);
        lemma_port_round_trip(s[i].0);
    }
    assert(manifest_ports(b) =~= s.map_values(|kv: (Port, u16)| kv.0));
}

/// The on-wire size of the manifest frame, which the length frame carries.
pub open spec fn manifest_frame_len(n: nat) -> int {
    3 * n + AEAD_LENGTH
}

/// The most redirects that a server advertises.
pub const MAX_REDIRECTS: usize = 78;

/// Encrypts the length frame and the manifest frame that a server sends once
/// the handshake is done. At most `MAX_REDIRECTS` ports are advertised, so the
/// length fits in one byte.
pub fn manifest_frames(cipher: &mut Cipher, redirects: &Vec<(Port, u16)>) -> (r: Result<(Vec<u8>, Vec<u8>), TunnelError>)
    ensures
        redirects@.len() > MAX_REDIRECTS ==> r == Err::<(Vec<u8>, Vec<u8>), TunnelError>(TunnelError::TooManyPorts)
            && final(cipher)@ == old(cipher)@,
        redirects@.len() <= MAX_REDIRECTS ==> (r matches Ok((lf, mf))
            && lf@ == aead_seal(old(cipher)@.key, old(cipher)@.nonce, seq![manifest_frame_len(redirects@.len()) as u8])
            && mf@ == aead_seal(old(cipher)@.key, nonce_succ(old(cipher)@.nonce), manifest_bytes(redirects@))
            && mf@.len() == manifest_frame_len(redirects@.len())
            && final(cipher)@ == (CipherView { key: old(cipher)@.key, nonce: nonce_succ(nonce_succ(old(cipher)@.nonce)) })),
{
    let n = redirects.len();
    if n > MAX_REDIRECTS {
        return Err(TunnelError::TooManyPorts);
    }
    let mut ports: Vec<u8> = Vec::new();
    let mut i: usize = 0;
    while i < n
        invariant
            n == redirects@.len(),
            n <= MAX_REDIRECTS,
            i <= n,
            ports@ == manifest_bytes(redirects@.take(i as int)),
            ports@.len() == 3 * i,
        decreases n - i,
    {
        assert(redirects@.take(i + 1).drop_last() =~= redirects@.take(i as int));
        let b = redirects[i].0.to_bytes();
        append_bytes(&mut ports, b.as_slice());
        i = i + 1;
    }
    assert(redirects@.take(n as int) =~= redirects@);
    let length: u8 = (n * 3 + AEAD_LENGTH) as u8;
    let length_frame = [length];
    assert(length_frame@ =~= seq![manifest_frame_len(redirects@.len()) as u8]);
    let lf = cipher.encrypt(length_frame.as_slice());
    let mf = cipher.encrypt(ports.as_slice());
    Ok((lf, mf))
}

/// Finds the local port behind an advertised port.
pub fn lookup_redirect(redirects: &Vec<(Port, u16)>, port: Port) -> (r: Option<u16>)
    ensures
        r matches Some(l) ==> redirects@.contains((port, l)),
        r is None <==> !has_key(redirects@, port),
{
    let mut i: usize = 0;
    while i < redirects.len()
        invariant
            i <= redirects@.len(),
            forall|j: int| 0 <= j < i ==> redirects@[j].0 != port,
        decreases redirects@.len() - i,
    {
        let (p, l) = redirects[i];
        if p == port {
            assert(redirects@[i as int] == (port, l));
            return Some(l);
        }
        i = i + 1;
    }
    None
}

/// The port that a notification plaintext names.
pub open spec fn notified_port(p: Seq<u8>) -> u16 {
    (p[0] as int * 256 + p[1] as int) as u16
}

/// Handles a rendezvous notification on the server side: decrypts it, finds
/// the local port behind the notified TCP port, and seals the ticket for the
/// fresh connection to the gateway. Returns the notified port, the local
/// port and the ticket reply.
pub fn answer_notification(cipher: &mut Cipher, redirects: &Vec<(Port, u16)>, frame: &[u8])
    -> (r: Result<(u16, u16, Vec<u8>), TunnelError>)
    requires
        frame@.len() == crate::common::NOTIFICATION_LENGTH + AEAD_LENGTH,
    ensures
        match aead_open(old(cipher)@.key, old(cipher)@.nonce, frame@) {
            None => r == Err::<(u16, u16, Vec<u8>), TunnelError>(TunnelError::Undecryptable)
                && final(cipher)@ == old(cipher)@,
            Some(p) => {
                let port = Port { port: notified_port(p), protocol: Protocol::TCP };
                &&& p.len() == 16
                &&& !has_key(redirects@, port) ==> r == Err::<(u16, u16, Vec<u8>), TunnelError>(TunnelError::UnknownPort)
                    && final(cipher)@ == (CipherView { key: old(cipher)@.key, nonce: nonce_succ(old(cipher)@.nonce) })
                &&& has_key(redirects@, port) ==> (r matches Ok((q, l, reply)) && q == port.port
                    && redirects@.contains((port, l))
                    && reply@ == aead_seal(old(cipher)@.key, nonce_succ(old(cipher)@.nonce), p.skip(2))
                    && final(cipher)@ == (CipherView { key: old(cipher)@.key, nonce: nonce_succ(nonce_succ(old(cipher)@.nonce)) }))
            },
        },
        forall|q: u16, t: Seq<u8>| #![trigger aead_seal(old(cipher)@.key, old(cipher)@.nonce, notification_bytes(q, t))]
            t.len() == 14 && frame@ == aead_seal(old(cipher)@.key, old(cipher)@.nonce, notification_bytes(q, t))
                ==> aead_open(old(cipher)@.key, old(cipher)@.nonce, frame@) == Some(notification_bytes(q, t))
                    && notified_port(notification_bytes(q, t)) == q
                    && notification_bytes(q, t).skip(2) == t,
{
    let p = cipher.decrypt(frame)?;
    assert forall|q: u16, t: Seq<u8>| #![trigger notification_bytes(q, t)]
        t.len() == 14 implies notified_port(notification_bytes(q, t)) == q
            && notification_bytes(q, t).skip(2) == t by {
        assert(notification_bytes(q, t).skip(2) =~= t);
    }
    let port: u16 = (p[0] as u16) * 256 + p[1] as u16;
    let key = Port { port, protocol: Protocol::TCP };
    let local = match lookup_redirect(redirects, key) {
        Some(l) => l,
        None => return Err(TunnelError::UnknownPort),
    };
    let ticket = copy_range(p.as_slice(), 2, 16);
    assert(ticket@ =~= p@.skip(2));
    let reply = cipher.encrypt(ticket.as_slice());
    Ok((port, local, reply))
}

/// Largest reply, in bytes, that the server accepts from an HTTP proxy.
pub const PROXY_REPLY_CAP: usize = 1048576;

/// Most bytes read from the proxy at a time.
pub const PROXY_READ_CHUNK: usize = 1024;

/// `CONNECT `
pub const CONNECT_PREFIX: [u8; 8] = [67, 79, 78, 78, 69, 67, 84, 32];

/// ` HTTP/1.1\r\nHost: `
pub const CONNECT_HOST: [u8; 17] = [32, 72, 84, 84, 80, 47, 49, 46, 49, 13, 10, 72, 111, 115, 116, 58, 32];

/// `\r\n\r\n`
pub const CRLF_CRLF: [u8; 4] = [13, 10, 13, 10];

/// `\n\n`
pub const LF_LF: [u8; 2] = [10, 10];

/// The request that asks an HTTP proxy for a tunnel to `target` (`host:port`).
pub open spec fn connect_request_bytes(target: Seq<u8>) -> Seq<u8> {
    CONNECT_PREFIX@ + target + CONNECT_HOST@ + target + CRLF_CRLF@
}

/// Builds the HTTP CONNECT request for `target`.
pub fn connect_request(target: &str) -> (r: Vec<u8>)
    ensures
        r@ == connect_request_bytes(target.spec_bytes()),
{
    let t = target.as_bytes();
    let mut r: Vec<u8> = Vec::new();
    append_bytes(&mut r, CONNECT_PREFIX.as_slice());
    append_bytes(&mut r, t);
    append_bytes(&mut r, CONNECT_HOST.as_slice());
    append_bytes(&mut r, t);
    append_bytes(&mut r, CRLF_CRLF.as_slice());
    r
}

pub open spec fn ends_with(s: Seq<u8>, t: Seq<u8>) -> bool {
    t.len() <= s.len() && s.skip(s.len() - t.len()) == t
}

fn ends_with_bytes(s: &[u8], t: &[u8]) -> (r: bool)
    ensures
        r == ends_with(s@, t@),
{
    if t.len() > s.len() {
        return false;
    }
    let tail = copy_range(s, s.len() - t.len(), s.len());
    assert(tail@ =~= s@.skip(s@.len() - t@.len()));
    constant_eq(tail.as_slice(), t)
}

/// Where the reading of a proxy's reply stands.
#[derive(Debug, Clone, Copy, PartialEq, Eq, Structural)]
pub enum ProxyReply {
    /// Read more.
    Incomplete,
    /// The header ended: the tunnel is open.
    Complete,
}

/// Judges the bytes read so far from an HTTP proxy: the reply is complete once
/// it ends with an empty line, and refused once it outgrows the cap.
pub fn proxy_reply_status(buf: &[u8]) -> (r: Result<ProxyReply, TunnelError>)
    ensures
        buf@.len() > PROXY_REPLY_CAP ==> r == Err::<ProxyReply, TunnelError>(TunnelError::ProxyReplyTooLarge),
        buf@.len() <= PROXY_REPLY_CAP ==> r == Ok::<ProxyReply, TunnelError>(
            if ends_with(buf@, CRLF_CRLF@) || ends_with(buf@, LF_LF@) {
                ProxyReply::Complete
            } else {
                ProxyReply::Incomplete
            },
        ),
{
    if buf.len() > PROXY_REPLY_CAP {
        return Err(TunnelError::ProxyReplyTooLarge);
    }
    if ends_with_bytes(buf, CRLF_CRLF.as_slice()) || ends_with_bytes(buf, LF_LF.as_slice()) {
        Ok(ProxyReply::Complete)
    } else {
        Ok(ProxyReply::Incomplete)
    }
}

} // verus!
