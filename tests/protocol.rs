use revtunnel::common::{check_magic1, MAGIC1};
use revtunnel::config::{Port, Protocol};
use revtunnel::crypto::{
    answer_challenge_message, challenge_message, check_challenge_reply, constant_eq, random_key, start_challenge,
    ChallengeSecret, Cipher, MAGIC2,
};
use revtunnel::error::TunnelError;
use revtunnel::gateway::{
    listener_ports, notification_frame, parse_manifest, receive_manifest, receive_manifest_length, PollAction,
    Rendezvous,
};
use revtunnel::server::{
    answer_notification, connect_request, lookup_redirect, manifest_frames, proxy_reply_status, ProxyReply,
};

fn handshake(gateway_psk: [u8; 32], server_psk: [u8; 32]) -> Result<(Cipher, Cipher), TunnelError> {
    let (secret, msg) = start_challenge(&gateway_psk)?;
    let (server_cipher, reply) = answer_challenge_message(&server_psk, &msg)?;
    let gateway_cipher = check_challenge_reply(&secret, &reply)?;
    Ok((gateway_cipher, server_cipher))
}

#[test]
fn port_to_bytes_is_big_endian_then_tag() {
    assert_eq!(Port::new_tcp(9000).to_bytes(), [0x23, 0x28, 1]);
    let udp = Port { port: 53, protocol: Protocol::UDP };
    assert_eq!(udp.to_bytes(), [0, 53, 0]);
}

#[test]
fn port_round_trip() {
    for port in [0u16, 1, 255, 256, 8080, 9000, 65535] {
        for protocol in [Protocol::TCP, Protocol::UDP] {
            let p = Port { port, protocol };
            let b = p.to_bytes();
            assert_eq!(b.len(), 3);
            assert_eq!(Port::from_bytes(&b), p);
        }
    }
}

#[test]
fn constant_eq_matches_equality() {
    assert!(constant_eq(b"", b""));
    assert!(constant_eq(b"abc", b"abc"));
    assert!(!constant_eq(b"abc", b"abd"));
    assert!(!constant_eq(b"abc", b"ab"));
    assert!(!constant_eq(b"", b"a"));
    assert!(constant_eq(&MAGIC1, &MAGIC1));
}

#[test]
fn nonce_advances_on_each_encryption() {
    let mut c = Cipher::new([7u8; 32], [0u8; 12]);
    let a = c.encrypt(b"same");
    let b = c.encrypt(b"same");
    assert_eq!(a.len(), 4 + 16);
    assert_ne!(a, b);
}

#[test]
fn nonce_counter_carries_into_next_byte() {
    // Started at FF 00 .., the first nonce in use is 00 01 ...
    let mut carried = Cipher::new([3u8; 32], [0xFF, 0, 0, 0, 0, 0, 0, 0, 0, 0, 0, 0]);
    // Started at FE 00 .., the nonces in use are FF 00 .., then 00 01 ...
    let mut stepped = Cipher::new([3u8; 32], [0xFE, 0, 0, 0, 0, 0, 0, 0, 0, 0, 0, 0]);
    let x = carried.encrypt(b"carry");
    let first = stepped.encrypt(b"carry");
    let second = stepped.encrypt(b"carry");
    assert_ne!(x, first);
    assert_eq!(x, second);
}

#[test]
fn nonce_counter_wraps_to_zero() {
    // Started at all FF, the first nonce in use is all zero.
    let mut wrapped = Cipher::new([3u8; 32], [0xFF; 12]);
    // Started at FE FF .., the nonces in use are all FF, then all zero.
    let mut start = [0xFF; 12];
    start[0] = 0xFE;
    let mut stepped = Cipher::new([3u8; 32], start);
    let x = wrapped.encrypt(b"w");
    let first = stepped.encrypt(b"w");
    let second = stepped.encrypt(b"w");
    assert_ne!(x, first);
    assert_eq!(x, second);
}

#[test]
fn decrypt_in_lockstep_and_failure_keeps_nonce() {
    let mut tx = Cipher::new([9u8; 32], [5u8; 12]);
    let mut rx = Cipher::new([9u8; 32], [5u8; 12]);
    let f1 = tx.encrypt(b"one");
    let f2 = tx.encrypt(b"two");
    assert_eq!(rx.decrypt(&[0u8; 19]), Err(TunnelError::Undecryptable));
    assert_eq!(rx.decrypt(&f1).unwrap(), b"one".to_vec());
    assert_eq!(rx.decrypt(&f2).unwrap(), b"two".to_vec());
    assert_eq!(rx.decrypt(&f2), Err(TunnelError::Undecryptable));
}

#[test]
fn handshake_with_shared_key_derives_same_session() {
    let (mut g, mut s) = handshake([0x11; 32], [0x11; 32]).unwrap();
    let frame = g.encrypt(b"ping");
    assert_eq!(s.decrypt(&frame).unwrap(), b"ping".to_vec());
    let back = s.encrypt(b"pong");
    assert_eq!(g.decrypt(&back).unwrap(), b"pong".to_vec());
}

#[test]
fn challenge_message_layout() {
    let secret = ChallengeSecret { control_key: [1u8; 32], control_nonce: [2u8; 12] };
    let msg = challenge_message(&[0x11; 32], &[4u8; 12], &secret);
    assert_eq!(msg.len(), 72);
    assert_eq!(&msg[..12], &[4u8; 12]);
    let (_, reply) = answer_challenge_message(&[0x11; 32], &msg).unwrap();
    assert_eq!(reply.len(), 48);
    let mut check = Cipher::new([1u8; 32], [2u8; 12]);
    assert!(check.decrypt(&reply).is_err());
    assert!(check_challenge_reply(&secret, &reply).is_ok());
}

#[test]
fn psk_mismatch_fails_server_answer() {
    assert_eq!(handshake([0x11; 32], [0x22; 32]).err(), Some(TunnelError::ChallengeFailed));
}

#[test]
fn wrong_magic2_reply_is_refused() {
    let secret = ChallengeSecret { control_key: [1u8; 32], control_nonce: [2u8; 12] };
    let mut forger = Cipher::new([1u8; 32], [2u8; 12]);
    let not_magic = forger.encrypt(&[0u8; 32]);
    assert_eq!(check_challenge_reply(&secret, &not_magic).err(), Some(TunnelError::ChallengeFailed));
    assert_eq!(check_challenge_reply(&secret, &[0u8; 48]).err(), Some(TunnelError::ChallengeFailed));
    assert_eq!(MAGIC2.len(), 32);
}

#[test]
fn wrong_magic1_is_dropped() {
    assert_eq!(check_magic1(&[0u8; 17]), Err(TunnelError::BadMagic));
    assert_eq!(check_magic1(&MAGIC1[..16]), Err(TunnelError::BadMagic));
    assert_eq!(check_magic1(&MAGIC1), Ok(()));
}

#[test]
fn manifest_parse_and_listeners() {
    let raw = [0x23, 0x28, 1, 0, 53, 0, 0x1F, 0x90, 1];
    let ports = parse_manifest(&raw).unwrap();
    assert_eq!(
        ports,
        vec![Port::new_tcp(9000), Port { port: 53, protocol: Protocol::UDP }, Port::new_tcp(8080)]
    );
    assert_eq!(listener_ports(&ports), vec![9000, 8080]);
    assert_eq!(parse_manifest(&[]).unwrap(), vec![]);
    assert_eq!(parse_manifest(&[0, 1]), Err(TunnelError::BadManifest));
    assert_eq!(parse_manifest(&[0, 1, 2]), Err(TunnelError::BadManifest));
}

#[test]
fn manifest_frames_round_trip() {
    let (mut g, mut s) = handshake([0x11; 32], [0x11; 32]).unwrap();
    let redirects = vec![(Port::new_tcp(9000), 8080u16), (Port { port: 53, protocol: Protocol::UDP }, 53u16)];
    let (lf, mf) = manifest_frames(&mut s, &redirects).unwrap();
    assert_eq!(lf.len(), 17);
    assert_eq!(mf.len(), 22);
    let len = receive_manifest_length(&mut g, &lf).unwrap();
    assert_eq!(len, 22);
    let ports = receive_manifest(&mut g, &mf).unwrap();
    assert_eq!(ports, vec![Port::new_tcp(9000), Port { port: 53, protocol: Protocol::UDP }]);
}

#[test]
fn too_many_ports() {
    let mut c = Cipher::new([1u8; 32], [0u8; 12]);
    let ok: Vec<(Port, u16)> = (0..78u16).map(|i| (Port::new_tcp(1000 + i), 1000 + i)).collect();
    let (_, mf) = manifest_frames(&mut c, &ok).unwrap();
    assert_eq!(mf.len(), 250);
    let too_many: Vec<(Port, u16)> = (0..79u16).map(|i| (Port::new_tcp(1000 + i), 1000 + i)).collect();
    assert_eq!(manifest_frames(&mut c, &too_many).err(), Some(TunnelError::TooManyPorts));
}

#[test]
fn happy_path_rendezvous() {
    let (mut g, mut s) = handshake([0x11; 32], [0x11; 32]).unwrap();
    let redirects = vec![(Port::new_tcp(9000), 8080u16)];
    let (rv, frame) = Rendezvous::start(&mut g, 9000).unwrap();
    assert_eq!(frame.len(), 32);
    let (port, local, reply) = answer_notification(&mut s, &redirects, &frame).unwrap();
    assert_eq!(port, 9000);
    assert_eq!(local, 8080);
    assert_eq!(reply.len(), 30);
    assert!(rv.check_ticket(&mut g, &reply));
}

#[test]
fn tampered_ticket_is_dropped() {
    let (mut g, mut s) = handshake([0x11; 32], [0x11; 32]).unwrap();
    let redirects = vec![(Port::new_tcp(9000), 8080u16)];
    let (rv, frame) = Rendezvous::start(&mut g, 9000).unwrap();
    let (_, _, reply) = answer_notification(&mut s, &redirects, &frame).unwrap();
    let mut forged = reply.clone();
    forged[0] ^= 0x55;
    assert!(!rv.check_ticket(&mut g, &forged));
    assert!(!rv.check_ticket(&mut g, &[7u8; 30]));
    assert!(rv.check_ticket(&mut g, &reply));
}

#[test]
fn wrong_ticket_under_right_key_is_dropped() {
    let mut g = Cipher::new([4u8; 32], [0u8; 12]);
    let mut s = Cipher::new([4u8; 32], [0u8; 12]);
    let ticket = [9u8; 14];
    let frame = notification_frame(&mut g, 9000, &ticket);
    let redirects = vec![(Port::new_tcp(9000), 8080u16)];
    let (_, _, _) = answer_notification(&mut s, &redirects, &frame).unwrap();
    let other = s.encrypt(&[8u8; 14]);
    let rv = Rendezvous { port: 9000, ticket, elapsed_ms: 0 };
    assert!(!rv.check_ticket(&mut g, &other));
}

#[test]
fn unknown_port_is_fatal() {
    let mut g = Cipher::new([4u8; 32], [0u8; 12]);
    let mut s = Cipher::new([4u8; 32], [0u8; 12]);
    let frame = notification_frame(&mut g, 9001, &[1u8; 14]);
    let redirects = vec![(Port::new_tcp(9000), 8080u16), (Port { port: 9001, protocol: Protocol::UDP }, 1u16)];
    assert_eq!(answer_notification(&mut s, &redirects, &frame).err(), Some(TunnelError::UnknownPort));
    assert_eq!(answer_notification(&mut s, &redirects, &[0u8; 32]).err(), Some(TunnelError::Undecryptable));
}

#[test]
fn lookup_finds_tcp_entry_only() {
    let redirects = vec![(Port { port: 9000, protocol: Protocol::UDP }, 1u16), (Port::new_tcp(9000), 8080u16)];
    assert_eq!(lookup_redirect(&redirects, Port::new_tcp(9000)), Some(8080));
    assert_eq!(lookup_redirect(&redirects, Port::new_tcp(9001)), None);
}

#[test]
fn rendezvous_wait_is_bounded() {
    let mut rv = Rendezvous { port: 9000, ticket: [0u8; 14], elapsed_ms: 0 };
    let mut sleeps: u64 = 0;
    loop {
        match rv.on_idle() {
            PollAction::Sleep(ms) => {
                assert_eq!(ms, 15);
                sleeps += 1;
            }
            PollAction::Abort => break,
        }
    }
    assert_eq!(sleeps, 134);
    assert_eq!(rv.elapsed_ms, 2010);
}

#[test]
fn connect_request_text() {
    let r = connect_request("gw.example:7000");
    assert_eq!(r, b"CONNECT gw.example:7000 HTTP/1.1\r\nHost: gw.example:7000\r\n\r\n".to_vec());
}

#[test]
fn proxy_reply_framing() {
    assert_eq!(proxy_reply_status(b"HTTP/1.1 200 OK\r\n"), Ok(ProxyReply::Incomplete));
    assert_eq!(proxy_reply_status(b"HTTP/1.1 200 OK\r\n\r\n"), Ok(ProxyReply::Complete));
    assert_eq!(proxy_reply_status(b"HTTP/1.1 200 OK\n\n"), Ok(ProxyReply::Complete));
    assert_eq!(proxy_reply_status(b""), Ok(ProxyReply::Incomplete));
    let mut big = vec![b'a'; 1048576];
    assert_eq!(proxy_reply_status(&big), Ok(ProxyReply::Incomplete));
    big.push(b'\n');
    assert_eq!(proxy_reply_status(&big), Err(TunnelError::ProxyReplyTooLarge));
}

#[test]
fn random_keys_differ() {
    let a = random_key().unwrap();
    let b = random_key().unwrap();
    assert_ne!(a, b);
    assert_ne!(a, [0u8; 32]);
}

#[test]
fn candidate_from_other_host_is_ignored() {
    let (mut g, mut s) = handshake([0x11; 32], [0x11; 32]).unwrap();
    let redirects = vec![(Port::new_tcp(9000), 8080u16)];
    let (rv, frame) = Rendezvous::start(&mut g, 9000).unwrap();
    let (_, _, reply) = answer_notification(&mut s, &redirects, &frame).unwrap();
    assert!(!rv.on_candidate(&mut g, false, Some(&reply)));
    assert!(!rv.on_candidate(&mut g, true, None));
    assert!(rv.on_candidate(&mut g, true, Some(&reply)));
}
