use vstd::prelude::*;
use crate::bytes::{append_bytes, read_array};
use crate::error::TunnelError;
use aes_gcm::aead::Aead;
use aes_gcm::{Aes256Gcm, KeyInit};
use rand::rngs::OsRng;
use rand::RngCore;

verus! {

pub const AEAD_LENGTH: usize = 16;
pub const NONCE_LENGTH: usize = 12;
pub const KEY_LENGTH: usize = 32;
pub const ENCRYPTED_CHALLENGE_LENGTH: usize = KEY_LENGTH + NONCE_LENGTH + AEAD_LENGTH;

pub type Key = [u8; 32];
pub type Nonce = [u8; 12];

/// The longest plaintext that AES-GCM accepts, in bytes.
pub open spec fn max_plaintext() -> int {
    68719476736
}

/// The bytes that an optional buffer holds.
pub open spec fn bytes_view(o: Option<Vec<u8>>) -> Option<Seq<u8>> {
    match o {
        Some(v) => Some(v@),
        None => None,
    }
}

/// AES-256-GCM encryption without associated data: ciphertext then tag.
pub uninterp spec fn aead_seal(key: Seq<u8>, nonce: Seq<u8>, plaintext: Seq<u8>) -> Seq<u8>;

/// AES-256-GCM decryption without associated data: the plaintext, or `None`
/// when the tag does not authenticate.
pub uninterp spec fn aead_open(key: Seq<u8>, nonce: Seq<u8>, ciphertext: Seq<u8>) -> Option<Seq<u8>>;

/// Relies on aes_gcm's `Aead::encrypt` for `Aes256Gcm`: deterministic in key,
/// nonce and plaintext; the output is the ciphertext followed by a 16-byte tag;
/// it fails only above the plaintext limit `P_MAX`.
#[verifier::external_body]
fn seal(key: &Key, nonce: &Nonce, plaintext: &[u8]) -> (r: Vec<u8>)
    requires
        plaintext@.len() <= max_plaintext(),
    ensures
        r@ == aead_seal(key@, nonce@, plaintext@),
        r@.len() == plaintext@.len() + AEAD_LENGTH,
{
    let cipher = Aes256Gcm::new(&(*key).into());
    cipher.encrypt(&(*nonce).into(), plaintext).unwrap()
}

/// Relies on aes_gcm's `Aead::decrypt` for `Aes256Gcm`: deterministic in key,
/// nonce and ciphertext; it refuses inputs shorter than the tag, strips the
/// 16-byte tag, and inverts `Aead::encrypt` under the same key and nonce.
/// A frame opens only when its tag matches the one recomputed over it, and the
/// plaintext is the same keystream applied again, so what opens to `p` is the
/// sealing of `p`.
#[verifier::external_body]
fn open(key: &Key, nonce: &Nonce, ciphertext: &[u8]) -> (r: Option<Vec<u8>>)
    ensures
        bytes_view(r) == aead_open(key@, nonce@, ciphertext@),
        r.is_some() ==> r.unwrap()@.len() + AEAD_LENGTH == ciphertext@.len(),
        r.is_some() && r.unwrap()@.len() <= max_plaintext() ==> ciphertext@ == aead_seal(key@, nonce@, r.unwrap()@),
        forall|p: Seq<u8>| #![trigger aead_seal(key@, nonce@, p)]
            p.len() <= max_plaintext() && ciphertext@ == aead_seal(key@, nonce@, p)
                ==> bytes_view(r) == Some(p),
{
    let cipher = Aes256Gcm::new(&(*key).into());
    cipher.decrypt(&(*nonce).into(), ciphertext).ok()
}

/// Relies on rand's `OsRng::try_fill_bytes`: fills the buffer from the
/// operating system's random source, or reports that the source failed.
#[verifier::external_body]
pub(crate) fn random_bytes(n: usize) -> (r: Option<Vec<u8>>)
    ensures
        r matches Some(v) ==> v@.len() == n,
{
    let mut buf = vec![0u8; n];
    match OsRng.try_fill_bytes(&mut buf) {
        Ok(()) => Some(buf),
        Err(_) => None,
    }
}

/// The successor of a nonce read as a little-endian counter: the first byte
/// below 0xFF goes up by one and every 0xFF byte before it becomes 0.
pub open spec fn nonce_succ(s: Seq<u8>) -> Seq<u8>
    decreases s.len(),
{
    if s.len() == 0 {
        s
    } else if s[0] < 255 {
        s.update(0, (s[0] + 1) as u8)
    } else {
        seq![0u8] + nonce_succ(s.drop_first())
    }
}

/// The number that a byte string stands for, least significant byte first.
pub open spec fn le_value(s: Seq<u8>) -> nat
    decreases s.len(),
{
    if s.len() == 0 {
        0
    } else {
        s[0] as nat + 256 * le_value(s.drop_first())
    }
}

/// 256 to the power `n`: one more than the largest counter of `n` bytes.
pub open spec fn pow256(n: nat) -> nat
    decreases n,
{
    if n == 0 {
        1
    } else {
        256 * pow256((n - 1) as nat)
    }
}

/// The nonce after `k` steps of the counter.
pub open spec fn nonce_after(s: Seq<u8>, k: nat) -> Seq<u8>
    decreases k,
{
    if k == 0 {
        s
    } else {
        nonce_succ(nonce_after(s, (k - 1) as nat))
    }
}

proof fn lemma_le_value_bound(s: Seq<u8>)
    ensures
        le_value(s) < pow256(s.len()),
    decreases s.len(),
{
    if s.len() > 0 {
        lemma_le_value_bound(s.drop_first());
    }
}

proof fn lemma_succ_len(s: Seq<u8>)
    ensures
        nonce_succ(s).len() == s.len(),
    decreases s.len(),
{
    if s.len() > 0 && s[0] == 255 {
        lemma_succ_len(s.drop_first());
    }
}

/// One step of the counter adds one to the value of the nonce, unless every
/// byte was 0xFF, in which case the counter wraps to zero.
pub proof fn lemma_nonce_succ_value(s: Seq<u8>)
    ensures
        nonce_succ(s).len() == s.len(),
        le_value(s) + 1 < pow256(s.len()) ==> le_value(nonce_succ(s)) == le_value(s) + 1,
        le_value(s) + 1 == pow256(s.len()) ==> le_value(nonce_succ(s)) == 0,
    decreases s.len(),
{
    lemma_succ_len(s);
    lemma_le_value_bound(s);
    if s.len() > 0 {
        let rest = s.drop_first();
        lemma_nonce_succ_value(rest);
        lemma_le_value_bound(rest);
        if s[0] < 255 {
            assert(nonce_succ(s).drop_first() =~= rest);
        } else {
            assert(nonce_succ(s).drop_first() =~= nonce_succ(rest));
        }
    }
}

/// Nonce monotonicity: as long as the counter does not wrap, `k` steps add
/// exactly `k` to the value of the nonce, so no two steps of a session ever
/// use the same nonce.
pub proof fn lemma_nonce_after_value(s: Seq<u8>, k: nat)
    requires
        le_value(s) + k < pow256(s.len()),
    ensures
        nonce_after(s, k).len() == s.len(),
        le_value(nonce_after(s, k)) == le_value(s) + k,
    decreases k,
{
    if k > 0 {
        lemma_nonce_after_value(s, (k - 1) as nat);
        lemma_nonce_succ_value(nonce_after(s, (k - 1) as nat));
    }
}

/// Distinct step counts within one counter period give distinct nonces.
pub proof fn lemma_nonces_never_repeat(s: Seq<u8>, j: nat, k: nat)
    requires
        j < k,
        le_value(s) + k < pow256(s.len()),
    ensures
        nonce_after(s, j) != nonce_after(s, k),
        le_value(nonce_after(s, j)) < le_value(nonce_after(s, k)),
{
    lemma_nonce_after_value(s, j);
    lemma_nonce_after_value(s, k);
}

proof fn lemma_succ_skip(s: Seq<u8>, i: int)
    requires
        0 <= i <= s.len(),
        forall|j: int| 0 <= j < i ==> s[j] == 255,
    ensures
        nonce_succ(s) == Seq::new(i as nat, |_j: int| 0u8) + nonce_succ(s.skip(i)),
    decreases i,
{
    if i == 0 {
        assert(s.skip(0) =~= s);
        assert(Seq::new(0, |_j: int| 0u8) + nonce_succ(s) =~= nonce_succ(s));
    } else {
        let rest = s.drop_first();
        lemma_succ_skip(rest, i - 1);
        assert(rest.skip(i - 1) =~= s.skip(i));
        assert(seq![0u8] + (Seq::new((i - 1) as nat, |_j: int| 0u8) + nonce_succ(s.skip(i)))
            =~= Seq::new(i as nat, |_j: int| 0u8) + nonce_succ(s.skip(i)));
    }
}

/// What a session cipher stands for: the key and the nonce of its next use.
pub struct CipherView {
    pub key: Seq<u8>,
    pub nonce: Seq<u8>,
}

/// An AES-256-GCM session: a key and a nonce counter that every successful
/// encryption or decryption advances by one step.
pub struct Cipher {
    key: Key,
    nonce: Nonce,
}

impl View for Cipher {
    type V = CipherView;

    closed spec fn view(&self) -> CipherView {
        CipherView { key: self.key@, nonce: self.nonce@ }
    }
}

/// Every session holds a 32-byte key and a 12-byte nonce.
pub proof fn lemma_cipher_lengths(c: &Cipher)
    ensures
        c@.key.len() == KEY_LENGTH,
        c@.nonce.len() == NONCE_LENGTH,
{
}

impl Cipher {
    /// A session keyed by `key` whose first use takes the nonce after `nonce`.
    pub fn new(key: Key, nonce: Nonce) -> (r: Cipher)
        ensures
            r@ == (CipherView { key: key@, nonce: nonce_succ(nonce@) }),
            r@.nonce.len() == NONCE_LENGTH,
    {
        let mut r = Cipher { key, nonce };
        r.increase_nonce();
        r
    }

    fn increase_nonce(&mut self)
        ensures
            final(self)@ == (CipherView { key: old(self)@.key, nonce: nonce_succ(old(self)@.nonce) }),
            final(self)@.nonce.len() == NONCE_LENGTH,
            le_value(final(self)@.nonce) == (le_value(old(self)@.nonce) + 1) % pow256(NONCE_LENGTH as nat),
    {
        let ghost orig = self.nonce@;
        proof {
            lemma_succ_len(orig);
            lemma_nonce_succ_value(orig);
            lemma_le_value_bound(orig);
            let p = pow256(NONCE_LENGTH as nat);
            if le_value(orig) + 1 < p {
                vstd::arithmetic::div_mod::lemma_small_mod((le_value(orig) + 1) as nat, p);
            } else {
                vstd::arithmetic::div_mod::lemma_mod_self_0(p as int);
            }
        }
        let mut i: usize = 0;
        let mut done = false;
        while i < NONCE_LENGTH && !done
            invariant
                i <= NONCE_LENGTH,
                orig.len() == NONCE_LENGTH,
                self.key == old(self).key,
                self.nonce@.len() == NONCE_LENGTH,
                !done ==> forall|j: int| 0 <= j < i ==> orig[j] == 255,
                !done ==> self.nonce@ == Seq::new(i as nat, |_j: int| 0u8) + orig.skip(i as int),
                done ==> self.nonce@ == nonce_succ(orig),
            decreases NONCE_LENGTH - i + (if done { 0int } else { 1int }),
        {
            if self.nonce[i] < 255 {
                proof {
                    lemma_succ_skip(orig, i as int);
                }
                let b = self.nonce[i] + 1;
                self.nonce[i] = b;
                done = true;
                assert(self.nonce@ =~= Seq::new(i as nat, |_j: int| 0u8) + nonce_succ(orig.skip(i as int)));
            } else {
                self.nonce[i] = 0;
                i = i + 1;
                assert(self.nonce@ =~= Seq::new(i as nat, |_j: int| 0u8) + orig.skip(i as int));
            }
        }
        proof {
            if !done {
                lemma_succ_skip(orig, NONCE_LENGTH as int);
                assert(nonce_succ(orig.skip(NONCE_LENGTH as int)) =~= Seq::<u8>::empty());
                assert(self.nonce@ =~= nonce_succ(orig));
            }
        }
    }

    /// Encrypts `buf` under the current nonce, then advances the nonce.
    pub fn encrypt(&mut self, buf: &[u8]) -> (r: Vec<u8>)
        requires
            buf@.len() <= max_plaintext(),
        ensures
            r@ == aead_seal(old(self)@.key, old(self)@.nonce, buf@),
            r@.len() == buf@.len() + AEAD_LENGTH,
            final(self)@ == (CipherView { key: old(self)@.key, nonce: nonce_succ(old(self)@.nonce) }),
            le_value(final(self)@.nonce) == (le_value(old(self)@.nonce) + 1) % pow256(NONCE_LENGTH as nat),
    {
        let r = seal(&self.key, &self.nonce, buf);
        self.increase_nonce();
        r
    }

    /// Decrypts `buf` under the current nonce. The nonce advances only when
    /// the frame authenticates.
    pub fn decrypt(&mut self, buf: &[u8]) -> (r: Result<Vec<u8>, TunnelError>)
        ensures
            match aead_open(old(self)@.key, old(self)@.nonce, buf@) {
                Some(p) => r matches Ok(v) && v@ == p
                    && p.len() + AEAD_LENGTH == buf@.len()
                    && (p.len() <= max_plaintext() ==> buf@ == aead_seal(old(self)@.key, old(self)@.nonce, p))
                    && le_value(final(self)@.nonce) == (le_value(old(self)@.nonce) + 1) % pow256(NONCE_LENGTH as nat)
                    && final(self)@ == (CipherView { key: old(self)@.key, nonce: nonce_succ(old(self)@.nonce) }),
                None => r == Err::<Vec<u8>, TunnelError>(TunnelError::Undecryptable)
                    && final(self)@ == old(self)@,
            },
            forall|p: Seq<u8>| #![trigger aead_seal(old(self)@.key, old(self)@.nonce, p)]
                p.len() <= max_plaintext() && buf@ == aead_seal(old(self)@.key, old(self)@.nonce, p)
                    ==> (r matches Ok(v) && v@ == p),
    {
        match open(&self.key, &self.nonce, buf) {
            Some(p) => {
                self.increase_nonce();
                Ok(p)
            },
            None => Err(TunnelError::Undecryptable),
        }
    }
}

/// Compares two byte strings without stopping at the first difference, nor
/// at a difference in length: every byte up to the shorter length is read.
/// True exactly when they are equal.
pub fn constant_eq(x: &[u8], y: &[u8]) -> (r: bool)
    ensures
        r == (x@ == y@),
{
    let x_len = x.len();
    let y_len = y.len();
    let n = if x_len < y_len { x_len } else { y_len };
    let mut test_bit: u8 = if x_len == y_len { 0 } else { 1 };
    let mut i: usize = 0;
    while i < n
        invariant
            i <= n,
            x_len == x@.len(),
            y_len == y@.len(),
            n <= x_len,
            n <= y_len,
            (test_bit == 0) == (x_len == y_len && forall|j: int| 0 <= j < i ==> x@[j] == y@[j]),
        decreases n - i,
    {
        let a = x[i];
        let b = y[i];
        let prev = test_bit;
        test_bit = test_bit | (a ^ b);
        assert((prev | (a ^ b)) == 0u8 <==> (prev == 0u8 && a == b)) by (bit_vector);
        i = i + 1;
    }
    let r = test_bit == 0;
    if r {
        assert(x@ =~= y@);
    }
    r
}

pub const MAGIC2_LENGTH: usize = 32;

/// The known plaintext that a server encrypts under the session cipher to
/// prove that it holds the pre-shared key.
pub const MAGIC2: [u8; 32] = [
    198, 158, 252, 226, 190, 135, 45, 91, 254, 58, 121, 222, 55, 121, 188,
    144, 42, 174, 18, 202, 227, 208, 46, 22, 31, 81, 62, 77, 45, 14, 42, 98,
];

/// Draws a fresh 32-byte key from the system random source.
pub fn random_key() -> (r: Result<Key, TunnelError>)
    ensures
        r is Err ==> r == Err::<Key, TunnelError>(TunnelError::RandomUnavailable),
{
    match random_bytes(KEY_LENGTH) {
        Some(v) => Ok(read_array::<32>(v.as_slice(), 0)),
        None => Err(TunnelError::RandomUnavailable),
    }
}

fn random_nonce() -> (r: Result<Nonce, TunnelError>)
    ensures
        r is Err ==> r == Err::<Nonce, TunnelError>(TunnelError::RandomUnavailable),
{
    match random_bytes(NONCE_LENGTH) {
        Some(v) => Ok(read_array::<12>(v.as_slice(), 0)),
        None => Err(TunnelError::RandomUnavailable),
    }
}

/// The gateway's opening message: the initial nonce in clear, then the
/// session key and nonce encrypted under the pre-shared key.
pub open spec fn challenge_bytes(psk: Seq<u8>, init_nonce: Seq<u8>, material: Seq<u8>) -> Seq<u8> {
    init_nonce + aead_seal(psk, init_nonce, material)
}

/// What the gateway keeps between its challenge and the server's reply.
pub struct ChallengeSecret {
    pub control_key: Key,
    pub control_nonce: Nonce,
}

impl ChallengeSecret {
    /// The 44 bytes that the challenge carries: key, then nonce.
    pub open spec fn material(&self) -> Seq<u8> {
        self.control_key@ + self.control_nonce@
    }
}

/// Builds the gateway's challenge from its initial nonce and the session key
/// material that it chose.
pub fn challenge_message(psk: &Key, init_nonce: &Nonce, secret: &ChallengeSecret) -> (r: Vec<u8>)
    ensures
        r@ == challenge_bytes(psk@, init_nonce@, secret.material()),
        r@.len() == NONCE_LENGTH + ENCRYPTED_CHALLENGE_LENGTH,
{
    let mut material: Vec<u8> = Vec::new();
    append_bytes(&mut material, secret.control_key.as_slice());
    append_bytes(&mut material, secret.control_nonce.as_slice());
    let sealed = seal(psk, init_nonce, material.as_slice());
    let mut r: Vec<u8> = Vec::new();
    append_bytes(&mut r, init_nonce.as_slice());
    append_bytes(&mut r, sealed.as_slice());
    r
}

/// Opens a handshake on the gateway side: draws the initial nonce and the
/// session key material, and returns them with the challenge to send.
pub fn start_challenge(psk: &Key) -> (r: Result<(ChallengeSecret, Vec<u8>), TunnelError>)
    ensures
        r matches Ok((secret, msg)) ==> msg@.len() == NONCE_LENGTH + ENCRYPTED_CHALLENGE_LENGTH
            && msg@ == challenge_bytes(psk@, msg@.take(12), secret.material()),
        r is Err ==> r == Err::<(ChallengeSecret, Vec<u8>), TunnelError>(TunnelError::RandomUnavailable),
{
    let init_nonce = random_nonce()?;
    let control_key = random_key()?;
    let control_nonce = random_nonce()?;
    let secret = ChallengeSecret { control_key, control_nonce };
    let msg = challenge_message(psk, &init_nonce, &secret);
    assert(msg@.take(12) =~= init_nonce@);
    Ok((secret, msg))
}

/// The session a key and nonce of 44 bytes of material start.
pub open spec fn session_from(material: Seq<u8>) -> CipherView {
    CipherView { key: material.take(32), nonce: nonce_succ(material.skip(32)) }
}

/// Checks the server's reply to a challenge on the gateway side: it must be
/// MAGIC2 sealed under the session key and nonce that the challenge carried.
/// On success both ends hold the same session.
pub fn check_challenge_reply(secret: &ChallengeSecret, reply: &[u8]) -> (r: Result<Cipher, TunnelError>)
    ensures
        r is Ok <==> aead_open(secret.control_key@, secret.control_nonce@, reply@) == Some(MAGIC2@),
        r matches Ok(c) ==> c@ == session_from(secret.material()),
        r is Err ==> r == Err::<Cipher, TunnelError>(TunnelError::ChallengeFailed),
        reply@ == aead_seal(secret.control_key@, secret.control_nonce@, MAGIC2@) ==> r is Ok,
{
    proof {
        assert(secret.material().take(32) =~= secret.control_key@);
        assert(secret.material().skip(32) =~= secret.control_nonce@);
    }
    match open(&secret.control_key, &secret.control_nonce, reply) {
        Some(p) => {
            if constant_eq(p.as_slice(), MAGIC2.as_slice()) {
                Ok(Cipher::new(secret.control_key, secret.control_nonce))
            } else {
                Err(TunnelError::ChallengeFailed)
            }
        },
        None => Err(TunnelError::ChallengeFailed),
    }
}

/// Answers a gateway's challenge on the server side. The message is the
/// 12-byte initial nonce and the 60-byte sealed key material; the answer is
/// the session cipher and MAGIC2 sealed under the new key and nonce.
pub fn answer_challenge_message(psk: &Key, msg: &[u8]) -> (r: Result<(Cipher, Vec<u8>), TunnelError>)
    requires
        msg@.len() == NONCE_LENGTH + ENCRYPTED_CHALLENGE_LENGTH,
    ensures
        match aead_open(psk@, msg@.take(12), msg@.skip(12)) {
            Some(m) => (r matches Ok((c, reply)) && m.len() == 44 && c@ == session_from(m)
                && reply@ == aead_seal(m.take(32), m.skip(32), MAGIC2@)),
            None => r == Err::<(Cipher, Vec<u8>), TunnelError>(TunnelError::ChallengeFailed),
        },
        forall|m: Seq<u8>| #![trigger challenge_bytes(psk@, msg@.take(12), m)]
            m.len() == 44 && msg@ == challenge_bytes(psk@, msg@.take(12), m)
                ==> (r matches Ok((c, reply)) && c@ == session_from(m)
                    && reply@ == aead_seal(m.take(32), m.skip(32), MAGIC2@)),
{
    let init_nonce = read_array::<12>(msg, 0);
    let sealed = crate::bytes::copy_range(msg, NONCE_LENGTH, NONCE_LENGTH + ENCRYPTED_CHALLENGE_LENGTH);
    assert(init_nonce@ =~= msg@.take(12));
    assert(sealed@ =~= msg@.skip(12));
    assert forall|m: Seq<u8>| #![trigger challenge_bytes(psk@, msg@.take(12), m)]
        m.len() == 44 && msg@ == challenge_bytes(psk@, msg@.take(12), m)
            implies sealed@ == aead_seal(psk@, init_nonce@, m) by {
        assert(msg@.skip(12) =~= aead_seal(psk@, init_nonce@, m));
    }
    match open(psk, &init_nonce, sealed.as_slice()) {
        Some(m) => {
            let control_key = read_array::<32>(m.as_slice(), 0);
            let control_nonce = read_array::<12>(m.as_slice(), KEY_LENGTH);
            assert(control_key@ =~= m@.take(32));
            assert(control_nonce@ =~= m@.skip(32));
            let reply = seal(&control_key, &control_nonce, MAGIC2.as_slice());
            Ok((Cipher::new(control_key, control_nonce), reply))
        },
        None => Err(TunnelError::ChallengeFailed),
    }
}

} // verus!
