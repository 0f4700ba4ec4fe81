use chacha20poly1305::aead::{Aead, KeyInit};
use hkdf::Hkdf;
use sha2::Sha256;
use vstd::prelude::*;

verus! {

/// The error type of the `aead` traits that `chacha20poly1305` implements.
#[verifier::external_type_specification]
#[verifier::external_body]
pub struct ExAeadError(chacha20poly1305::Error);

/// The error `hkdf` returns when asked for more output than HKDF can give.
#[verifier::external_type_specification]
#[verifier::external_body]
pub struct ExInvalidLength(hkdf::InvalidLength);

/// The ChaCha20-Poly1305 ciphertext (with its 16-byte tag appended) of `plaintext` under
/// `key` and `nonce`, with no associated data.
pub uninterp spec fn chacha20poly1305_seal(key: Seq<u8>, nonce: Seq<u8>, plaintext: Seq<u8>) -> Seq<u8>;

/// The plaintext that `ciphertext` authenticates to under `key` and `nonce`, with no associated
/// data, or `None` when the tag does not verify.
pub uninterp spec fn chacha20poly1305_open(key: Seq<u8>, nonce: Seq<u8>, ciphertext: Seq<u8>) -> Option<Seq<u8>>;

/// The `len` bytes of HKDF-SHA256 output keying material for `salt`, `ikm` and `info`.
pub uninterp spec fn hkdf_sha256_okm(salt: Seq<u8>, ikm: Seq<u8>, info: Seq<u8>, len: nat) -> Seq<u8>;

/// The largest message, in 64-byte blocks, that ChaCha20-Poly1305 accepts is below this count.
pub open spec fn chacha_block_limit() -> int {
    0xffff_ffff
}

/// Encrypts with `chacha20poly1305::ChaCha20Poly1305` (`KeyInit::new` on the key, then
/// `Aead::encrypt` with no associated data). Claimed of the crate: it fails exactly when the
/// plaintext holds `u32::MAX` or more 64-byte blocks; otherwise the ciphertext is the plaintext's
/// length plus the 16-byte tag, and decrypting it under the same key and nonce gives the
/// plaintext back.
#[verifier::external_body]
pub(crate) fn aead_seal(key: &[u8], nonce: &[u8], plaintext: &[u8]) -> (r: Result<Vec<u8>, chacha20poly1305::Error>)
    requires
        key@.len() == 32,
        nonce@.len() == 12,
    ensures
        r is Ok <==> plaintext@.len() / 64 < chacha_block_limit(),
        r matches Ok(c) ==> {
            &&& c@ == chacha20poly1305_seal(key@, nonce@, plaintext@)
            &&& c@.len() == plaintext@.len() + 16
            &&& chacha20poly1305_open(key@, nonce@, c@) == Some(plaintext@)
        },
{
    let cipher = chacha20poly1305::ChaCha20Poly1305::new(chacha20poly1305::Key::from_slice(key));
    cipher.encrypt(chacha20poly1305::Nonce::from_slice(nonce), plaintext)
}

/// Decrypts with `chacha20poly1305::ChaCha20Poly1305` (`KeyInit::new` on the key, then
/// `Aead::decrypt` with no associated data). Claimed of the crate: the result is the plaintext
/// that the ciphertext authenticates to, and an error exactly when there is none.
#[verifier::external_body]
pub(crate) fn aead_open(key: &[u8], nonce: &[u8], ciphertext: &[u8]) -> (r: Result<Vec<u8>, chacha20poly1305::Error>)
    requires
        key@.len() == 32,
        nonce@.len() == 12,
    ensures
        r is Ok <==> chacha20poly1305_open(key@, nonce@, ciphertext@) is Some,
        r matches Ok(p) ==> chacha20poly1305_open(key@, nonce@, ciphertext@) == Some(p@),
{
    let cipher = chacha20poly1305::ChaCha20Poly1305::new(chacha20poly1305::Key::from_slice(key));
    cipher.decrypt(chacha20poly1305::Nonce::from_slice(nonce), ciphertext)
}

/// HKDF-SHA256 with `hkdf::Hkdf::<Sha256>::new(Some(salt), ikm)` followed by `expand(info, ..)`
/// into `len` bytes. Claimed of the crate: it fails exactly when `len` exceeds 255 hash lengths
/// (8160 bytes); otherwise the output has `len` bytes.
#[verifier::external_body]
pub(crate) fn hkdf_sha256(salt: &[u8], ikm: &[u8], info: &[u8], len: usize) -> (r: Result<Vec<u8>, hkdf::InvalidLength>)
    ensures
        r is Ok <==> len <= 8160,
        r matches Ok(okm) ==> okm@ == hkdf_sha256_okm(salt@, ikm@, info@, len as nat)
            && okm@.len() == len,
{
    let mut okm = vec![0u8; len];
    match Hkdf::<Sha256>::new(Some(salt), ikm).expand(info, &mut okm) {
        Ok(()) => Ok(okm),
        Err(e) => Err(e),
    }
}

} // verus!
