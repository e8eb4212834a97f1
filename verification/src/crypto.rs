//! Trusted boundary to the cryptographic and entropy primitives.
//!
//! Every function here is an `external_body` wrapper around one outside
//! call; Verus believes the stated contract and verifies nothing below
//! it. The results of the hash, MAC and cipher calls are functions of
//! their arguments alone, so each is given an uninterpreted name that
//! the rest of the crate reasons with. Random draws and the clock get
//! no such name: nothing can be promised of their values.

use vstd::prelude::*;

use crate::errors::AuthError;

verus! {

/// Byte length of an AES-256-GCM key.
pub const AEAD_KEY_LEN: usize = 32;

/// Byte length of an AES-256-GCM nonce.
pub const AEAD_NONCE_LEN: usize = 12;

/// Byte length of the authentication tag appended to every ciphertext.
pub const AEAD_TAG_LEN: usize = 16;

/// Byte length of a SHA-256 digest, and of an HMAC-SHA-256 tag.
pub const DIGEST_LEN: usize = 32;

/// The SHA-256 digest of a byte string.
pub uninterp spec fn sha256_of(data: Seq<u8>) -> Seq<u8>;

/// The HMAC-SHA-256 tag over `msg` under `key`.
pub uninterp spec fn hmac_sha256_of(key: Seq<u8>, msg: Seq<u8>) -> Seq<u8>;

/// What AES-256-GCM decryption returns for a ciphertext under a key and
/// nonce: the unique plaintext the ciphertext authenticates, or `None`
/// when the authentication tag does not verify.
pub uninterp spec fn aead_open(key: Seq<u8>, nonce: Seq<u8>, ct: Seq<u8>) -> Option<Seq<u8>>;

/// Relies on sha2's `Sha256::digest`: a 32-byte digest determined by the
/// input bytes alone.
#[verifier::external_body]
pub fn sha256(data: &[u8]) -> (r: Vec<u8>)
    ensures
        r@ == sha256_of(data@),
        r@.len() == DIGEST_LEN,
{
    <sha2::Sha256 as sha2::Digest>::digest(data).to_vec()
}

/// Relies on the hmac crate's `Hmac<Sha256>`: a 32-byte tag determined
/// by the key and message alone. `new_from_slice` accepts keys of any
/// length for HMAC, so the construction cannot fail.
#[verifier::external_body]
pub fn hmac_sha256(key: &[u8], msg: &[u8]) -> (r: Vec<u8>)
    ensures
        r@ == hmac_sha256_of(key@, msg@),
        r@.len() == DIGEST_LEN,
{
    let mut mac = <hmac::Hmac<sha2::Sha256> as hmac::Mac>::new_from_slice(key)
        .expect("HMAC accepts any key length");
    hmac::Mac::update(&mut mac, msg);
    hmac::Mac::finalize(mac).into_bytes().to_vec()
}

/// Relies on aes-gcm's `Aes256Gcm`: sealing appends a 16-byte tag, and
/// decrypting the result under the same key and nonce returns exactly
/// the plaintext that was sealed. Encryption fails only for plaintexts
/// past 2^36 bytes, which the precondition rules out.
#[verifier::external_body]
pub fn aead_seal(key: &[u8], nonce: &[u8], plaintext: &[u8]) -> (r: Vec<u8>)
    requires
        key@.len() == AEAD_KEY_LEN,
        nonce@.len() == AEAD_NONCE_LEN,
        plaintext@.len() <= u32::MAX,
    ensures
        aead_open(key@, nonce@, r@) == Some(plaintext@),
        r@.len() == plaintext@.len() + AEAD_TAG_LEN,
{
    let cipher = <aes_gcm::Aes256Gcm as aes_gcm::KeyInit>::new_from_slice(key)
        .expect("key length checked by caller");
    let nonce_arr = aes_gcm::aead::generic_array::GenericArray::from_slice(nonce);
    <aes_gcm::Aes256Gcm as aes_gcm::aead::Aead>::encrypt(&cipher, nonce_arr, plaintext)
        .expect("plaintext length checked by caller")
}

/// Relies on aes-gcm's `Aes256Gcm`: decryption returns the sealed
/// plaintext when the authentication tag verifies and fails otherwise —
/// it never returns unauthenticated bytes.
#[verifier::external_body]
pub fn aead_unseal(key: &[u8], nonce: &[u8], ciphertext: &[u8]) -> (r: Result<Vec<u8>, AuthError>)
    requires
        key@.len() == AEAD_KEY_LEN,
        nonce@.len() == AEAD_NONCE_LEN,
    ensures
        match r {
            Ok(p) => aead_open(key@, nonce@, ciphertext@) == Some(p@),
            Err(e) => aead_open(key@, nonce@, ciphertext@) is None && e == AuthError::DecryptionError,
        },
{
    let cipher = <aes_gcm::Aes256Gcm as aes_gcm::KeyInit>::new_from_slice(key)
        .expect("key length checked by caller");
    let nonce_arr = aes_gcm::aead::generic_array::GenericArray::from_slice(nonce);
    match <aes_gcm::Aes256Gcm as aes_gcm::aead::Aead>::decrypt(&cipher, nonce_arr, ciphertext) {
        Ok(p) => Ok(p),
        Err(_) => Err(AuthError::DecryptionError),
    }
}

/// Relies on rand's `random`: one byte from the thread-local CSPRNG.
/// Nothing is promised of the value.
#[verifier::external_body]
pub fn random_byte() -> u8 {
    rand::random::<u8>()
}

/// Relies on uuid's `Uuid::new_v4` and its simple formatting: 32
/// lowercase hexadecimal ASCII digits. The value is random, so nothing
/// more is promised.
#[verifier::external_body]
pub fn fresh_uuid_hex() -> (r: Vec<u8>)
    ensures
        r@.len() == 32,
{
    uuid::Uuid::new_v4().simple().to_string().into_bytes()
}

/// Relies on chrono's `Utc::now`: the current time as non-negative Unix
/// milliseconds. The value depends on the clock, so nothing is promised
/// of it.
#[verifier::external_body]
pub fn now_millis() -> u64 {
    chrono::Utc::now().timestamp_millis() as u64
}

/// Draw `n` random bytes from the CSPRNG.
pub fn random_bytes(n: usize) -> (r: Vec<u8>)
    ensures
        r@.len() == n,
{
    let mut r: Vec<u8> = Vec::new();
    let mut i: usize = 0;
    while i < n
        invariant
            0 <= i <= n,
            r@.len() == i,
        decreases n - i,
    {
        r.push(random_byte());
        i = i + 1;
    }
    r
}

} // verus!
