use chacha20poly1305::aead::{Aead, KeyInit};
use chacha20poly1305::{ChaCha20Poly1305, Key, Nonce};
use drift::crypto::stream::{CryptoError, CryptoStream};
use hkdf::Hkdf;
use sha2::Sha256;

fn secret() -> [u8; 32] {
    let mut s = [0u8; 32];
    for (i, b) in s.iter_mut().enumerate() {
        *b = (i as u8).wrapping_mul(37).wrapping_add(11);
    }
    s
}

fn expand(salt: &[u8], secret: &[u8], info: &[u8], out: &mut [u8]) {
    Hkdf::<Sha256>::new(Some(salt), secret)
        .expand(info, out)
        .expect("short output");
}

#[test]
fn client_frames_decrypt_on_server_and_back() {
    let s = secret();
    let mut client = CryptoStream::from_shared_secret(&s, false);
    let mut server = CryptoStream::from_shared_secret(&s, true);
    for (i, msg) in [&b"hello"[..], b"", b"a longer frame of bytes \x00\x01\xff"]
        .iter()
        .enumerate()
    {
        let c = client.encrypt(msg).expect("encrypts");
        assert_eq!(c.len(), msg.len() + 16, "frame {i}");
        if !msg.is_empty() {
            assert_ne!(&c[..msg.len()], *msg);
        }
        assert_eq!(server.decrypt(&c).expect("decrypts"), msg.to_vec());
        let back = server.encrypt(msg).expect("encrypts");
        assert_eq!(client.decrypt(&back).expect("decrypts"), msg.to_vec());
    }
}

#[test]
fn ciphertext_matches_direct_derivation() {
    let s = secret();
    let mut c2s_key = [0u8; 32];
    expand(b"drift-c2s", &s, b"ws-connector", &mut c2s_key);
    let mut s2c_key = [0u8; 32];
    expand(b"drift-s2c", &s, b"ws-connector", &mut s2c_key);
    let mut material = [0u8; 8];
    expand(b"drift-nonce", &s, b"nonce-prefix", &mut material);

    let nonce = |prefix: &[u8], counter: u64| {
        let mut n = [0u8; 12];
        n[..4].copy_from_slice(prefix);
        n[4..].copy_from_slice(&counter.to_be_bytes());
        n
    };
    let c2s = ChaCha20Poly1305::new(Key::from_slice(&c2s_key));
    let s2c = ChaCha20Poly1305::new(Key::from_slice(&s2c_key));

    let mut client = CryptoStream::from_shared_secret(&s, false);
    let mut server = CryptoStream::from_shared_secret(&s, true);
    for counter in 0..3u64 {
        let msg = format!("message {counter}");
        let expected = c2s
            .encrypt(Nonce::from_slice(&nonce(&material[..4], counter)), msg.as_bytes())
            .unwrap();
        assert_eq!(client.encrypt(msg.as_bytes()).unwrap(), expected);
        let expected_back = s2c
            .encrypt(Nonce::from_slice(&nonce(&material[4..], counter)), msg.as_bytes())
            .unwrap();
        assert_eq!(server.encrypt(msg.as_bytes()).unwrap(), expected_back);
    }
}

#[test]
fn tampered_frame_is_refused_and_counter_moves_on() {
    let s = secret();
    let mut client = CryptoStream::from_shared_secret(&s, false);
    let mut server = CryptoStream::from_shared_secret(&s, true);
    let mut first = client.encrypt(b"first").unwrap();
    first[0] ^= 1;
    assert_eq!(server.decrypt(&first), Err(CryptoError::DecryptionFailed));
    let second = client.encrypt(b"second").unwrap();
    assert_eq!(server.decrypt(&second).unwrap(), b"second".to_vec());
    assert_eq!(server.decrypt(b"short"), Err(CryptoError::DecryptionFailed));
}

#[test]
fn frames_out_of_order_do_not_decrypt() {
    let s = secret();
    let mut client = CryptoStream::from_shared_secret(&s, false);
    let mut server = CryptoStream::from_shared_secret(&s, true);
    let _skipped = client.encrypt(b"one").unwrap();
    let two = client.encrypt(b"two").unwrap();
    assert_eq!(server.decrypt(&two), Err(CryptoError::DecryptionFailed));
}

#[test]
fn same_side_streams_cannot_talk() {
    let s = secret();
    let mut a = CryptoStream::from_shared_secret(&s, false);
    let mut b = CryptoStream::from_shared_secret(&s, false);
    let c = a.encrypt(b"x").unwrap();
    assert_eq!(b.decrypt(&c), Err(CryptoError::DecryptionFailed));
}

#[test]
fn plaintext_stream_passes_frames_through() {
    let mut p = CryptoStream::plaintext();
    assert_eq!(p.encrypt(b"abc").unwrap(), b"abc".to_vec());
    assert_eq!(p.decrypt(b"xyz").unwrap(), b"xyz".to_vec());
    assert_eq!(p.encrypt(b"").unwrap(), Vec::<u8>::new());
}

#[test]
fn crypto_error_messages() {
    assert_eq!(CryptoError::EncryptionFailed.message(), "encryption failed");
    assert_eq!(CryptoError::DecryptionFailed.message(), "decryption failed");
}

#[test]
fn repeated_frames_get_fresh_nonces() {
    let s = secret();
    let mut client = CryptoStream::from_shared_secret(&s, false);
    let mut server = CryptoStream::from_shared_secret(&s, true);
    let a = client.encrypt(b"same").unwrap();
    let b = client.encrypt(b"same").unwrap();
    assert_eq!(a.len(), 4 + 16);
    assert_ne!(a, b);
    assert_eq!(server.decrypt(&a).unwrap(), b"same".to_vec());
    assert_eq!(server.decrypt(&b).unwrap(), b"same".to_vec());
}
