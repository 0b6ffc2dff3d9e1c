use aes_gcm::aead::{Aead, KeyInit};
use aes_gcm::{Aes256Gcm, Key, Nonce};
use base64::engine::general_purpose::STANDARD;
use base64::Engine;
use centralenv::crypto::{decrypt, decrypt_checked, encrypt, open_parts, seal_with_nonce, CryptoError};

fn key() -> Vec<u8> {
    (0u8..32).collect()
}

#[test]
fn encrypt_then_decrypt_gives_plaintext_back() {
    let k = key();
    for text in ["", "hello", "p@ss w0rd=#\"\\", "ünïcödé ✓"] {
        let stored = encrypt(&k, text).unwrap();
        assert_eq!(decrypt(&k, &stored).unwrap(), text);
    }
}

#[test]
fn encrypt_uses_fresh_nonces() {
    let k = key();
    let a = encrypt(&k, "same").unwrap();
    let b = encrypt(&k, "same").unwrap();
    assert_ne!(a, b);
    assert_eq!(decrypt(&k, &a).unwrap(), "same");
    assert_eq!(decrypt(&k, &b).unwrap(), "same");
}

#[test]
fn stored_format_is_nonce_colon_ciphertext() {
    let k = key();
    let nonce = [7u8; 12];
    let stored = seal_with_nonce(&k, &nonce, "secret").unwrap();
    let cipher = Aes256Gcm::new(Key::<Aes256Gcm>::from_slice(&k));
    let ct = cipher.encrypt(Nonce::from_slice(&nonce), "secret".as_bytes()).unwrap();
    let expected = format!("{}:{}", STANDARD.encode(nonce), STANDARD.encode(&ct));
    assert_eq!(stored, expected);
    assert_eq!(ct.len(), "secret".len() + 16);
}

#[test]
fn encrypt_rejects_short_key() {
    assert_eq!(encrypt(&[1u8; 16], "x"), Err(CryptoError::InvalidKey));
    assert_eq!(encrypt(&[], "x"), Err(CryptoError::InvalidKey));
}

#[test]
fn decrypt_rejects_value_without_colon() {
    assert_eq!(decrypt(&key(), "abcdef"), Err(CryptoError::InvalidFormat));
}

#[test]
fn decrypt_rejects_bad_base64() {
    assert_eq!(decrypt(&key(), "!!!:AAAA"), Err(CryptoError::InvalidBase64));
    let nonce = STANDARD.encode([0u8; 12]);
    assert_eq!(decrypt(&key(), &format!("{}:***", nonce)), Err(CryptoError::InvalidBase64));
}

#[test]
fn decrypt_rejects_wrong_key_length() {
    let stored = encrypt(&key(), "v").unwrap();
    assert_eq!(decrypt(&[9u8; 31], &stored), Err(CryptoError::InvalidKey));
}

#[test]
fn decrypt_rejects_other_key_and_tampering() {
    let stored = encrypt(&key(), "value").unwrap();
    assert_eq!(decrypt(&[3u8; 32], &stored), Err(CryptoError::DecryptionFailed));
    let (n, c) = stored.split_once(':').unwrap();
    let mut ct = STANDARD.decode(c).unwrap();
    ct[0] ^= 1;
    let tampered = format!("{}:{}", n, STANDARD.encode(&ct));
    assert_eq!(decrypt(&key(), &tampered), Err(CryptoError::DecryptionFailed));
}

#[test]
fn decrypt_rejects_non_utf8_plaintext() {
    let k = key();
    let nonce = [1u8; 12];
    let cipher = Aes256Gcm::new(Key::<Aes256Gcm>::from_slice(&k));
    let ct = cipher.encrypt(Nonce::from_slice(&nonce), &[0xffu8, 0xfe][..]).unwrap();
    let stored = format!("{}:{}", STANDARD.encode(nonce), STANDARD.encode(&ct));
    assert_eq!(decrypt(&k, &stored), Err(CryptoError::InvalidUtf8));
    assert_eq!(open_parts(&k, &nonce, &ct), Err(CryptoError::InvalidUtf8));
}

#[test]
fn decrypt_checked_refuses_misfit_nonce() {
    let stored = format!("{}:{}", STANDARD.encode([0u8; 8]), STANDARD.encode([0u8; 20]));
    assert_eq!(decrypt_checked(&key(), &stored), None);
    assert_eq!(decrypt_checked(&[0u8; 5], &stored), Some(Err(CryptoError::InvalidKey)));
    let good = encrypt(&key(), "ok").unwrap();
    assert_eq!(decrypt_checked(&key(), &good), Some(Ok("ok".to_string())));
}

#[test]
fn decrypt_splits_at_first_colon() {
    assert_eq!(decrypt(&key(), "a:b:c"), Err(CryptoError::InvalidBase64));
}

#[test]
fn encrypted_text_has_one_colon_and_tagged_ciphertext() {
    let key = [9u8; 32];
    for plain in ["", "a", "hello world", "ünïcødé=#\"\\"] {
        let stored = encrypt(&key, plain).unwrap();
        assert_eq!(stored.matches(':').count(), 1);
        let (n, c) = stored.split_once(':').unwrap();
        assert_eq!(STANDARD.decode(n).unwrap().len(), 12);
        assert_eq!(STANDARD.decode(c).unwrap().len(), plain.len() + 16);
        assert_eq!(decrypt(&key, &stored).unwrap(), plain);
    }
}
