use credential_core::errors::AuthError;
use credential_core::vault::{decrypt, encrypt, DecryptedToken, EncryptedToken};

fn key_a() -> Vec<u8> {
    (0u8..32).collect()
}

fn key_b() -> Vec<u8> {
    (100u8..132).collect()
}

fn sample_token() -> DecryptedToken {
    DecryptedToken {
        access_token: b"access-token-abc123".to_vec(),
        refresh_token: b"refresh-token-xyz789".to_vec(),
        expires_at: 1_700_000_000_000,
        scope: b"activity:read_all".to_vec(),
    }
}

#[test]
fn encrypt_then_decrypt_returns_original() {
    let key = key_a();
    let token = sample_token();
    let sealed = encrypt(&key, &token);
    let opened = decrypt(&key, &sealed).expect("round trip must succeed");
    assert_eq!(opened.access_token, token.access_token);
    assert_eq!(opened.refresh_token, token.refresh_token);
    assert_eq!(opened.expires_at, token.expires_at);
    assert_eq!(opened.scope, token.scope);
}

#[test]
fn ciphertext_is_plaintext_plus_tag() {
    let key = key_a();
    let token = sample_token();
    let sealed = encrypt(&key, &token);
    let framed_len = 4 + token.access_token.len() + token.refresh_token.len();
    assert_eq!(sealed.ciphertext.len(), framed_len + 16);
    assert_eq!(sealed.nonce.len(), 12);
}

#[test]
fn ciphertext_differs_from_plaintext() {
    let key = key_a();
    let token = sample_token();
    let sealed = encrypt(&key, &token);
    // The sealed bytes must not contain the access token in the clear.
    let window = token.access_token.len();
    let found = sealed
        .ciphertext
        .windows(window)
        .any(|w| w == token.access_token.as_slice());
    assert!(!found);
}

#[test]
fn every_single_bit_flip_fails_decryption() {
    let key = key_a();
    let token = DecryptedToken {
        access_token: b"aa".to_vec(),
        refresh_token: b"rr".to_vec(),
        expires_at: 7,
        scope: Vec::new(),
    };
    let sealed = encrypt(&key, &token);
    for byte in 0..sealed.ciphertext.len() {
        for bit in 0..8 {
            let mut tampered = sealed.ciphertext.clone();
            tampered[byte] ^= 1 << bit;
            let mangled = EncryptedToken {
                ciphertext: tampered,
                nonce: sealed.nonce.clone(),
                expires_at: sealed.expires_at,
                scope: sealed.scope.clone(),
            };
            assert_eq!(decrypt(&key, &mangled).unwrap_err(), AuthError::DecryptionError);
        }
    }
}

#[test]
fn wrong_key_fails_decryption() {
    let token = sample_token();
    let sealed = encrypt(&key_a(), &token);
    assert_eq!(decrypt(&key_b(), &sealed).unwrap_err(), AuthError::DecryptionError);
}

#[test]
fn corrupted_nonce_fails_decryption() {
    let key = key_a();
    let token = sample_token();
    let sealed = encrypt(&key, &token);
    let mut bad_nonce = sealed.nonce.clone();
    bad_nonce[0] ^= 0x80;
    let mangled = EncryptedToken {
        ciphertext: sealed.ciphertext.clone(),
        nonce: bad_nonce,
        expires_at: sealed.expires_at,
        scope: sealed.scope.clone(),
    };
    assert_eq!(decrypt(&key, &mangled).unwrap_err(), AuthError::DecryptionError);
    // A nonce of the wrong length is refused outright.
    let short_nonce = EncryptedToken {
        ciphertext: sealed.ciphertext,
        nonce: vec![0u8; 5],
        expires_at: sealed.expires_at,
        scope: sealed.scope,
    };
    assert_eq!(decrypt(&key, &short_nonce).unwrap_err(), AuthError::DecryptionError);
}

#[test]
fn fresh_nonce_per_encryption() {
    let key = key_a();
    let token = sample_token();
    let first = encrypt(&key, &token);
    let second = encrypt(&key, &token);
    assert_ne!(first.nonce, second.nonce);
}

#[test]
fn empty_tokens_round_trip() {
    let key = key_a();
    let token = DecryptedToken {
        access_token: Vec::new(),
        refresh_token: Vec::new(),
        expires_at: 0,
        scope: Vec::new(),
    };
    let sealed = encrypt(&key, &token);
    assert_eq!(sealed.ciphertext.len(), 4 + 16);
    let opened = decrypt(&key, &sealed).expect("empty pair must round trip");
    assert!(opened.access_token.is_empty());
    assert!(opened.refresh_token.is_empty());
}

#[test]
fn hex_encode_exact_value() {
    let out = credential_core::hexcode::hex_encode(&[0xbe, 0xef, 0x00, 0x1a]);
    assert_eq!(out, b"beef001a".to_vec());
}
