use vstd::prelude::*;
use vstd::string::StringExecFns;
use vstd::string::StringSliceAdditionalSpecFns;

use crate::protocol::codec::{lemma_u64_be_round_trip, u64_be};
use crate::crypto::primitives::{
    aead_open, aead_seal, chacha20poly1305_open, chacha20poly1305_seal, chacha_block_limit,
    hkdf_sha256, hkdf_sha256_okm,
};

verus! {

/// Failures of the authenticated encryption of a stream.
#[derive(Clone, Copy, Debug, PartialEq, Eq, Structural)]
pub enum CryptoError {
    EncryptionFailed,
    DecryptionFailed,
}

impl CryptoError {
    /// The error's text.
    pub fn message(&self) -> (r: String)
        ensures
            r@ == (match self {
                CryptoError::EncryptionFailed => "encryption failed"@,
                CryptoError::DecryptionFailed => "decryption failed"@,
            }),
    {
        match self {
            CryptoError::EncryptionFailed => String::from_str("encryption failed"),
            CryptoError::DecryptionFailed => String::from_str("decryption failed"),
        }
    }
}

/// The 12-byte nonce of a direction: its 4-byte prefix, then the counter in big-endian order.
pub open spec fn nonce_for(prefix: Seq<u8>, counter: u64) -> Seq<u8> {
    prefix + u64_be(counter)
}

/// The abstract state of an encrypted stream: per direction, the key (none in plaintext
/// mode), the nonce prefix and the number of messages processed so far.
pub ghost struct ChannelModel {
    pub send_key: Option<Seq<u8>>,
    pub recv_key: Option<Seq<u8>>,
    pub send_prefix: Seq<u8>,
    pub recv_prefix: Seq<u8>,
    pub send_counter: u64,
    pub recv_counter: u64,
}

/// The salt, info and length of the client-to-server key derivation.
pub open spec fn c2s_key(secret: Seq<u8>) -> Seq<u8> {
    hkdf_sha256_okm("drift-c2s".spec_bytes(), secret, "ws-connector".spec_bytes(), 32)
}

/// The server-to-client key.
pub open spec fn s2c_key(secret: Seq<u8>) -> Seq<u8> {
    hkdf_sha256_okm("drift-s2c".spec_bytes(), secret, "ws-connector".spec_bytes(), 32)
}

/// The eight bytes from which both nonce prefixes are cut.
pub open spec fn nonce_material(secret: Seq<u8>) -> Seq<u8> {
    hkdf_sha256_okm("drift-nonce".spec_bytes(), secret, "nonce-prefix".spec_bytes(), 8)
}

impl ChannelModel {
    /// The state of a stream that passes data through unchanged.
    pub open spec fn plaintext() -> ChannelModel {
        ChannelModel {
            send_key: None,
            recv_key: None,
            send_prefix: seq![0u8, 0u8, 0u8, 0u8],
            recv_prefix: seq![0u8, 0u8, 0u8, 0u8],
            send_counter: 0,
            recv_counter: 0,
        }
    }

    /// The state of a fresh stream derived from a shared secret, on the server side or not.
    pub open spec fn from_secret(secret: Seq<u8>, is_server: bool) -> ChannelModel {
        let c2s_prefix = nonce_material(secret).subrange(0, 4);
        let s2c_prefix = nonce_material(secret).subrange(4, 8);
        if is_server {
            ChannelModel {
                send_key: Some(s2c_key(secret)),
                recv_key: Some(c2s_key(secret)),
                send_prefix: s2c_prefix,
                recv_prefix: c2s_prefix,
                send_counter: 0,
                recv_counter: 0,
            }
        } else {
            ChannelModel {
                send_key: Some(c2s_key(secret)),
                recv_key: Some(s2c_key(secret)),
                send_prefix: c2s_prefix,
                recv_prefix: s2c_prefix,
                send_counter: 0,
                recv_counter: 0,
            }
        }
    }

    /// What encrypting `plaintext` gives.
    pub open spec fn encrypted(self, plaintext: Seq<u8>) -> Result<Seq<u8>, CryptoError> {
        match self.send_key {
            None => Ok(plaintext),
            Some(key) => if plaintext.len() / 64 < chacha_block_limit() {
                Ok(chacha20poly1305_seal(key, nonce_for(self.send_prefix, self.send_counter), plaintext))
            } else {
                Err(CryptoError::EncryptionFailed)
            },
        }
    }

    /// What decrypting `ciphertext` gives.
    pub open spec fn decrypted(self, ciphertext: Seq<u8>) -> Result<Seq<u8>, CryptoError> {
        match self.recv_key {
            None => Ok(ciphertext),
            Some(key) => match chacha20poly1305_open(
                key,
                nonce_for(self.recv_prefix, self.recv_counter),
                ciphertext,
            ) {
                Some(p) => Ok(p),
                None => Err(CryptoError::DecryptionFailed),
            },
        }
    }

    /// The state after encrypting one message: the send counter moves on (wrapping) unless
    /// the stream is plaintext.
    pub open spec fn after_encrypt(self) -> ChannelModel {
        match self.send_key {
            None => self,
            Some(_) => ChannelModel { send_counter: next_count(self.send_counter), ..self },
        }
    }

    /// The state after decrypting one message.
    pub open spec fn after_decrypt(self) -> ChannelModel {
        match self.recv_key {
            None => self,
            Some(_) => ChannelModel { recv_counter: next_count(self.recv_counter), ..self },
        }
    }
}

/// The next value of a 64-bit message counter, wrapping to zero after the largest.
pub open spec fn next_count(c: u64) -> u64 {
    if c == u64::MAX {
        0
    } else {
        (c + 1) as u64
    }
}

/// A stream that protects frames with ChaCha20-Poly1305, one key, nonce prefix and message
/// counter per direction; or, without keys, passes frames through unchanged.
pub struct CryptoStream {
    send_key: Option<Vec<u8>>,
    recv_key: Option<Vec<u8>>,
    send_nonce_prefix: Vec<u8>,
    recv_nonce_prefix: Vec<u8>,
    send_counter: u64,
    recv_counter: u64,
}

impl View for CryptoStream {
    type V = ChannelModel;

    closed spec fn view(&self) -> ChannelModel {
        ChannelModel {
            send_key: match self.send_key {
                Some(k) => Some(k@),
                None => None,
            },
            recv_key: match self.recv_key {
                Some(k) => Some(k@),
                None => None,
            },
            send_prefix: self.send_nonce_prefix@,
            recv_prefix: self.recv_nonce_prefix@,
            send_counter: self.send_counter,
            recv_counter: self.recv_counter,
        }
    }
}

/// Keys have 32 bytes and nonce prefixes 4.
pub open spec fn channel_wf(m: ChannelModel) -> bool {
    &&& (m.send_key matches Some(k) ==> k.len() == 32)
    &&& (m.recv_key matches Some(k) ==> k.len() == 32)
    &&& m.send_prefix.len() == 4
    &&& m.recv_prefix.len() == 4
}

/// The 12-byte nonce for `counter` under `prefix`.
fn make_nonce(prefix: &Vec<u8>, counter: u64) -> (r: Vec<u8>)
    ensures
        r@ == nonce_for(prefix@, counter),
{
    let mut nonce = prefix.clone();
    nonce.push((counter >> 56) as u8);
    nonce.push((counter >> 48) as u8);
    nonce.push((counter >> 40) as u8);
    nonce.push((counter >> 32) as u8);
    nonce.push((counter >> 24) as u8);
    nonce.push((counter >> 16) as u8);
    nonce.push((counter >> 8) as u8);
    nonce.push(counter as u8);
    assert(nonce@ =~= nonce_for(prefix@, counter));
    nonce
}

fn label(s: &str) -> (r: Vec<u8>)
    ensures
        r@ == s.spec_bytes(),
{
    let mut r: Vec<u8> = Vec::new();
    let b = s.as_bytes();
    let n = b.len();
    let mut i: usize = 0;
    while i < n
        invariant
            n == b@.len(),
            i <= n,
            r@ == b@.take(i as int),
        decreases n - i,
    {
        r.push(b[i]);
        i = i + 1;
        assert(r@ == b@.take(i as int));
    }
    assert(b@.take(n as int) == b@);
    r
}

fn derive(salt: &str, secret: &[u8], info: &str, len: usize) -> (r: Vec<u8>)
    requires
        len <= 8160,
    ensures
        r@ == hkdf_sha256_okm(salt.spec_bytes(), secret@, info.spec_bytes(), len as nat),
        r@.len() == len,
{
    let salt_bytes = label(salt);
    let info_bytes = label(info);
    match hkdf_sha256(salt_bytes.as_slice(), secret, info_bytes.as_slice(), len) {
        Ok(okm) => okm,
        Err(_) => {
            proof {
                assert(false);
            }
            Vec::new()
        },
    }
}

fn take_range(v: &Vec<u8>, from: usize, to: usize) -> (r: Vec<u8>)
    requires
        from <= to <= v@.len(),
    ensures
        r@ == v@.subrange(from as int, to as int),
{
    let mut r: Vec<u8> = Vec::new();
    let mut i: usize = from;
    while i < to
        invariant
            from <= i <= to,
            to <= v@.len(),
            r@ == v@.subrange(from as int, i as int),
        decreases to - i,
    {
        r.push(v[i]);
        i = i + 1;
        assert(r@ == v@.subrange(from as int, i as int));
    }
    r
}

impl CryptoStream {
    #[verifier::type_invariant]
    spec fn inv(&self) -> bool {
        channel_wf(self@)
    }

    /// Create a plaintext (no-op) stream that passes data through unchanged.
    /// Used when `--no-encryption` is set and transport-level TLS handles security.
    pub fn plaintext() -> (r: Self)
        ensures
            r@ == ChannelModel::plaintext(),
    {
        let r = CryptoStream {
            send_key: None,
            recv_key: None,
            send_nonce_prefix: vec![0u8, 0u8, 0u8, 0u8],
            recv_nonce_prefix: vec![0u8, 0u8, 0u8, 0u8],
            send_counter: 0,
            recv_counter: 0,
        };
        assert(r@ =~= ChannelModel::plaintext());
        r
    }

    /// Derive both directions' keys and nonce prefixes from a key-exchange secret with
    /// HKDF-SHA256; the server sends with the server-to-client key, the client with the other.
    pub fn from_shared_secret(shared_secret: &[u8; 32], is_server: bool) -> (r: Self)
        ensures
            r@ == ChannelModel::from_secret(shared_secret@, is_server),
    {
        let secret: &[u8] = shared_secret.as_slice();
        let c2s = derive("drift-c2s", secret, "ws-connector", 32);
        let s2c = derive("drift-s2c", secret, "ws-connector", 32);
        let material = derive("drift-nonce", secret, "nonce-prefix", 8);
        let c2s_prefix = take_range(&material, 0, 4);
        let s2c_prefix = take_range(&material, 4, 8);
        let r = if is_server {
            CryptoStream {
                send_key: Some(s2c),
                recv_key: Some(c2s),
                send_nonce_prefix: s2c_prefix,
                recv_nonce_prefix: c2s_prefix,
                send_counter: 0,
                recv_counter: 0,
            }
        } else {
            CryptoStream {
                send_key: Some(c2s),
                recv_key: Some(s2c),
                send_nonce_prefix: c2s_prefix,
                recv_nonce_prefix: s2c_prefix,
                send_counter: 0,
                recv_counter: 0,
            }
        };
        r
    }

    /// Encrypt one outgoing frame with the next send nonce; a plaintext stream returns the
    /// frame unchanged. The send counter moves on even when encryption fails. A ciphertext
    /// returned opens, under the same key and nonce, to the frame.
    pub fn encrypt(&mut self, plaintext: &[u8]) -> (r: Result<Vec<u8>, CryptoError>)
        ensures
            match r {
                Ok(c) => old(self)@.encrypted(plaintext@) == Ok::<Seq<u8>, CryptoError>(c@),
                Err(e) => old(self)@.encrypted(plaintext@) == Err::<Seq<u8>, CryptoError>(e),
            },
            final(self)@ == old(self)@.after_encrypt(),
            r matches Ok(c) ==> c@.len() == plaintext@.len() + if old(self)@.send_key is Some {
                16int
            } else {
                0int
            },
            old(self)@.send_key matches Some(k) ==> (r matches Ok(c) ==> chacha20poly1305_open(
                k,
                nonce_for(old(self)@.send_prefix, old(self)@.send_counter),
                c@,
            ) == Some(plaintext@)),
    {
        proof {
            use_type_invariant(&*self);
        }
        match &self.send_key {
            None => {
                let mut v: Vec<u8> = Vec::new();
                v.extend_from_slice(plaintext);
                assert(v@ =~= plaintext@);
                return Ok(v);
            },
            Some(key) => {
                let counter = self.send_counter;
                let nonce = make_nonce(&self.send_nonce_prefix, counter);
                let sealed = aead_seal(key.as_slice(), nonce.as_slice(), plaintext);
                self.send_counter = counter.wrapping_add(1);
                match sealed {
                    Ok(c) => Ok(c),
                    Err(_) => Err(CryptoError::EncryptionFailed),
                }
            },
        }
    }

    /// Decrypt one incoming frame with the next receive nonce; a plaintext stream returns the
    /// frame unchanged. The receive counter moves on even when decryption fails.
    pub fn decrypt(&mut self, ciphertext: &[u8]) -> (r: Result<Vec<u8>, CryptoError>)
        ensures
            match r {
                Ok(p) => old(self)@.decrypted(ciphertext@) == Ok::<Seq<u8>, CryptoError>(p@),
                Err(e) => old(self)@.decrypted(ciphertext@) == Err::<Seq<u8>, CryptoError>(e),
            },
            final(self)@ == old(self)@.after_decrypt(),
    {
        proof {
            use_type_invariant(&*self);
        }
        match &self.recv_key {
            None => {
                let mut v: Vec<u8> = Vec::new();
                v.extend_from_slice(ciphertext);
                assert(v@ =~= ciphertext@);
                return Ok(v);
            },
            Some(key) => {
                let counter = self.recv_counter;
                let nonce = make_nonce(&self.recv_nonce_prefix, counter);
                let opened = aead_open(key.as_slice(), nonce.as_slice(), ciphertext);
                self.recv_counter = counter.wrapping_add(1);
                match opened {
                    Ok(p) => Ok(p),
                    Err(_) => Err(CryptoError::DecryptionFailed),
                }
            },
        }
    }
}

/// `sender`'s outgoing direction matches `receiver`'s incoming one: same key (or none), same
/// nonce prefix, same count of messages so far.
pub open spec fn in_step(sender: ChannelModel, receiver: ChannelModel) -> bool {
    &&& sender.send_key == receiver.recv_key
    &&& sender.send_prefix == receiver.recv_prefix
    &&& sender.send_counter == receiver.recv_counter
}

/// The client's and the server's streams derived from one shared secret start in step in both
/// directions.
pub proof fn law_sides_start_in_step(secret: Seq<u8>)
    ensures
        in_step(ChannelModel::from_secret(secret, false), ChannelModel::from_secret(secret, true)),
        in_step(ChannelModel::from_secret(secret, true), ChannelModel::from_secret(secret, false)),
{
}

/// Two plaintext streams are in step in both directions.
pub proof fn law_plaintext_sides_in_step()
    ensures
        in_step(ChannelModel::plaintext(), ChannelModel::plaintext()),
{
}

/// What a sender encrypts, a receiver in step with it decrypts back: when `ciphertext` opens
/// to `plaintext` under the sender's key and current nonce (as every ciphertext that
/// `CryptoStream::encrypt` returns does), the receiver's decryption gives `plaintext`, and the
/// two stay in step after the message.
pub proof fn law_receiver_recovers_sent_frame(
    sender: ChannelModel,
    receiver: ChannelModel,
    plaintext: Seq<u8>,
    ciphertext: Seq<u8>,
)
    requires
        in_step(sender, receiver),
        sender.send_key matches Some(k) ==> chacha20poly1305_open(
            k,
            nonce_for(sender.send_prefix, sender.send_counter),
            ciphertext,
        ) == Some(plaintext),
        sender.send_key is None ==> ciphertext == plaintext,
    ensures
        receiver.decrypted(ciphertext) == Ok::<Seq<u8>, CryptoError>(plaintext),
        in_step(sender.after_encrypt(), receiver.after_decrypt()),
{
}

/// Different counters give different nonces under one prefix: within a direction no nonce
/// repeats before the counter wraps.
pub proof fn law_nonces_differ(prefix: Seq<u8>, c1: u64, c2: u64)
    requires
        c1 != c2,
    ensures
        nonce_for(prefix, c1) != nonce_for(prefix, c2),
{
    if nonce_for(prefix, c1) == nonce_for(prefix, c2) {
        let n = nonce_for(prefix, c1);
        assert(u64_be(c1) =~= n.subrange(prefix.len() as int, prefix.len() + 8int));
        assert(u64_be(c2) =~= n.subrange(prefix.len() as int, prefix.len() + 8int));
        lemma_u64_be_round_trip(c1);
        lemma_u64_be_round_trip(c2);
    }
}

/// The state of a stream after `n` encryptions.
pub open spec fn after_sends(m: ChannelModel, n: nat) -> ChannelModel
    decreases n,
{
    if n == 0 {
        m
    } else {
        after_sends(m, (n - 1) as nat).after_encrypt()
    }
}

/// The state of a stream after `n` decryptions (whether or not they succeeded).
pub open spec fn after_receipts(m: ChannelModel, n: nat) -> ChannelModel
    decreases n,
{
    if n == 0 {
        m
    } else {
        after_receipts(m, (n - 1) as nat).after_decrypt()
    }
}

proof fn lemma_in_step_after(sender: ChannelModel, receiver: ChannelModel, n: nat)
    requires
        in_step(sender, receiver),
    ensures
        in_step(after_sends(sender, n), after_receipts(receiver, n)),
    decreases n,
{
    if n > 0 {
        lemma_in_step_after(sender, receiver, (n - 1) as nat);
    }
}

/// Frame after frame, what a sender encrypts a receiver in step with it decrypts: when the
/// receiver has decrypted the sender's first `n` frames (in order, and nothing else), the
/// sender's next frame, sealed under the sender's key and current nonce as `encrypt` seals
/// it, decrypts to its plaintext.
pub proof fn law_nth_frame_round_trip(
    sender: ChannelModel,
    receiver: ChannelModel,
    n: nat,
    plaintext: Seq<u8>,
    ciphertext: Seq<u8>,
)
    requires
        in_step(sender, receiver),
        after_sends(sender, n).send_key matches Some(k) ==> chacha20poly1305_open(
            k,
            nonce_for(after_sends(sender, n).send_prefix, after_sends(sender, n).send_counter),
            ciphertext,
        ) == Some(plaintext),
        after_sends(sender, n).send_key is None ==> ciphertext == plaintext,
    ensures
        after_receipts(receiver, n).decrypted(ciphertext) == Ok::<Seq<u8>, CryptoError>(plaintext),
{
    lemma_in_step_after(sender, receiver, n);
    law_receiver_recovers_sent_frame(
        after_sends(sender, n),
        after_receipts(receiver, n),
        plaintext,
        ciphertext,
    );
}

/// The same for the two ends of one session, in either direction: the `n`-th frame that one
/// side's stream seals is decrypted by the other side's stream after its first `n` frames.
pub proof fn law_session_frames_round_trip(
    secret: Seq<u8>,
    sender_is_server: bool,
    n: nat,
    plaintext: Seq<u8>,
    ciphertext: Seq<u8>,
)
    requires
        after_sends(ChannelModel::from_secret(secret, sender_is_server), n).send_key matches Some(
            k,
        ) ==> chacha20poly1305_open(
            k,
            nonce_for(
                after_sends(ChannelModel::from_secret(secret, sender_is_server), n).send_prefix,
                after_sends(ChannelModel::from_secret(secret, sender_is_server), n).send_counter,
            ),
            ciphertext,
        ) == Some(plaintext),
    ensures
        after_receipts(ChannelModel::from_secret(secret, !sender_is_server), n).decrypted(
            ciphertext,
        ) == Ok::<Seq<u8>, CryptoError>(plaintext),
{
    let sender = ChannelModel::from_secret(secret, sender_is_server);
    let receiver = ChannelModel::from_secret(secret, !sender_is_server);
    assert(in_step(sender, receiver));
    lemma_sends_keep_key(sender, n);
    law_nth_frame_round_trip(sender, receiver, n, plaintext, ciphertext);
}

proof fn lemma_sends_keep_key(m: ChannelModel, n: nat)
    ensures
        after_sends(m, n).send_key == m.send_key,
        after_sends(m, n).send_prefix == m.send_prefix,
        m.send_key is Some ==> after_sends(m, n).send_counter == (m.send_counter + n) % 0x1_0000_0000_0000_0000int,
    decreases n,
{
    if n > 0 {
        lemma_sends_keep_key(m, (n - 1) as nat);
        let c = after_sends(m, (n - 1) as nat).send_counter;
        if m.send_key is Some {
            assert(next_count(c) == (c + 1) % 0x1_0000_0000_0000_0000int);
            assert((m.send_counter + n) % 0x1_0000_0000_0000_0000int == ((m.send_counter + (n - 1))
                % 0x1_0000_0000_0000_0000int + 1) % 0x1_0000_0000_0000_0000int) by (nonlinear_arith);
        }
    } else {
        assert((m.send_counter as int) % 0x1_0000_0000_0000_0000int == m.send_counter);
    }
}

/// An encrypting stream never reuses a nonce within 2^64 messages: the `i`-th and `j`-th
/// encryptions (`i < j`, fewer than 2^64 apart) use different nonces.
pub proof fn law_successive_sends_use_fresh_nonces(m: ChannelModel, i: nat, j: nat)
    requires
        m.send_key is Some,
        i < j,
        j - i < 0x1_0000_0000_0000_0000int,
    ensures
        nonce_for(after_sends(m, i).send_prefix, after_sends(m, i).send_counter) != nonce_for(
            after_sends(m, j).send_prefix,
            after_sends(m, j).send_counter,
        ),
{
    lemma_sends_keep_key(m, i);
    lemma_sends_keep_key(m, j);
    let ci = after_sends(m, i).send_counter;
    let cj = after_sends(m, j).send_counter;
    assert(ci != cj) by (nonlinear_arith)
        requires
            ci == (m.send_counter + i) % 0x1_0000_0000_0000_0000int,
            cj == (m.send_counter + j) % 0x1_0000_0000_0000_0000int,
            i < j,
            j - i < 0x1_0000_0000_0000_0000int,
    ;
    law_nonces_differ(m.send_prefix, ci, cj);
}

} // verus!
