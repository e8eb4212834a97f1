//! Token vault: authenticated encryption of OAuth token pairs at rest.
//!
//! A pair of third-party tokens is framed into one plaintext, sealed
//! with AES-256-GCM under a process-wide 256-bit key and a fresh random
//! nonce, and stored as ciphertext plus nonce. Decryption fails closed:
//! a ciphertext whose authentication tag does not verify never yields
//! bytes. Expiry and scope are not secret and travel in the clear, as
//! does the nonce (it must only never be reused under the same key).

use vstd::prelude::*;

use crate::bytes::copy_range;
use crate::codec::{be32, be32_val, lemma_be32_round, push_be32, read_be32};
use crate::crypto::{
    aead_open, aead_seal, aead_unseal, random_bytes, AEAD_KEY_LEN, AEAD_NONCE_LEN, AEAD_TAG_LEN,
};
use crate::errors::AuthError;

verus! {

/// A plaintext third-party token pair, as handed in by the OAuth layer.
#[derive(Debug)]
pub struct DecryptedToken {
    pub access_token: Vec<u8>,
    pub refresh_token: Vec<u8>,
    /// Expiry of the access token, Unix milliseconds.
    pub expires_at: u64,
    pub scope: Vec<u8>,
}

/// A token pair at rest: one sealed blob plus the nonce it was sealed
/// under. The ciphertext is the framed pair plus the authentication tag.
#[derive(Debug)]
pub struct EncryptedToken {
    pub ciphertext: Vec<u8>,
    pub nonce: Vec<u8>,
    pub expires_at: u64,
    pub scope: Vec<u8>,
}

/// The framed plaintext: a four-byte length field, the access token,
/// then the refresh token filling the rest.
pub open spec fn pair_frame(access: Seq<u8>, refresh: Seq<u8>) -> Seq<u8> {
    be32(access.len() as u32) + access + refresh
}

/// Parsing a framed plaintext back into the pair, if well formed.
pub open spec fn unframe(pt: Seq<u8>) -> Option<(Seq<u8>, Seq<u8>)> {
    if pt.len() < 4 {
        None
    } else {
        let n = be32_val(pt.take(4)) as int;
        if n > pt.len() - 4 {
            None
        } else {
            Some((pt.subrange(4, 4 + n), pt.subrange(4 + n, pt.len() as int)))
        }
    }
}

/// What decryption of a stored blob yields under a key: the token pair,
/// or nothing when the tag fails to verify or the frame is malformed.
pub open spec fn vault_open(key: Seq<u8>, nonce: Seq<u8>, ct: Seq<u8>) -> Option<(Seq<u8>, Seq<u8>)> {
    match aead_open(key, nonce, ct) {
        Some(pt) => unframe(pt),
        None => None,
    }
}

/// Unframing a frame yields back the pair that was framed.
pub proof fn lemma_unframe_frame(access: Seq<u8>, refresh: Seq<u8>)
    requires
        access.len() <= u32::MAX,
    ensures
        unframe(pair_frame(access, refresh)) == Some((access, refresh)),
{
    let pt = pair_frame(access, refresh);
    lemma_be32_round(access.len() as u32);
    assert(pt.take(4) =~= be32(access.len() as u32));
    let n = be32_val(pt.take(4)) as int;
    assert(n == access.len());
    assert(pt.subrange(4, 4 + n) =~= access);
    assert(pt.subrange(4 + n, pt.len() as int) =~= refresh);
}

/// Law: a blob produced by sealing a framed pair decrypts to exactly
/// that pair — the vault round trip loses nothing.
pub proof fn lemma_vault_round_trip(key: Seq<u8>, nonce: Seq<u8>, ct: Seq<u8>, access: Seq<u8>, refresh: Seq<u8>)
    requires
        access.len() <= u32::MAX,
        aead_open(key, nonce, ct) == Some(pair_frame(access, refresh)),
    ensures
        vault_open(key, nonce, ct) == Some((access, refresh)),
{
    lemma_unframe_frame(access, refresh);
}

/// Frame a token pair into one plaintext byte string.
fn frame_pair(access: &Vec<u8>, refresh: &Vec<u8>) -> (r: Vec<u8>)
    requires
        access@.len() <= u32::MAX,
        access@.len() + refresh@.len() + 4 <= u32::MAX,
    ensures
        r@ == pair_frame(access@, refresh@),
{
    let mut r: Vec<u8> = Vec::new();
    push_be32(&mut r, access.len() as u32);
    crate::bytes::extend_bytes(&mut r, access.as_slice());
    crate::bytes::extend_bytes(&mut r, refresh.as_slice());
    assert(r@ =~= pair_frame(access@, refresh@));
    r
}

/// Encrypt a token pair under `key` with a fresh random nonce.
///
/// The ciphertext is exactly the framed plaintext plus the tag, and
/// decrypting the result under the same key yields the pair back.
pub fn encrypt(key: &Vec<u8>, token: &DecryptedToken) -> (r: EncryptedToken)
    requires
        key@.len() == AEAD_KEY_LEN,
        token.access_token@.len() <= u32::MAX,
        token.access_token@.len() + token.refresh_token@.len() + 4 <= u32::MAX,
    ensures
        r.nonce@.len() == AEAD_NONCE_LEN,
        r.ciphertext@.len() == 4 + token.access_token@.len() + token.refresh_token@.len()
            + AEAD_TAG_LEN,
        aead_open(key@, r.nonce@, r.ciphertext@)
            == Some(pair_frame(token.access_token@, token.refresh_token@)),
        vault_open(key@, r.nonce@, r.ciphertext@)
            == Some((token.access_token@, token.refresh_token@)),
        r.expires_at == token.expires_at,
        r.scope@ == token.scope@,
{
    let nonce = random_bytes(AEAD_NONCE_LEN);
    let plaintext = frame_pair(&token.access_token, &token.refresh_token);
    let ciphertext = aead_seal(key.as_slice(), nonce.as_slice(), plaintext.as_slice());
    proof {
        lemma_unframe_frame(token.access_token@, token.refresh_token@);
    }
    EncryptedToken {
        ciphertext,
        nonce,
        expires_at: token.expires_at,
        scope: clone_bytes(&token.scope),
    }
}

/// Copy a byte vector.
pub fn clone_bytes(v: &Vec<u8>) -> (r: Vec<u8>)
    ensures
        r@ == v@,
{
    copy_range(v.as_slice(), 0, v.len())
}

/// Decrypt a stored blob under `key`.
///
/// Fails with `DecryptionError` — never with garbage plaintext — when
/// the tag does not verify (tampered ciphertext, wrong key) or the
/// stored nonce or frame is corrupted.
pub fn decrypt(key: &Vec<u8>, stored: &EncryptedToken) -> (r: Result<DecryptedToken, AuthError>)
    requires
        key@.len() == AEAD_KEY_LEN,
    ensures
        match r {
            Ok(t) => {
                &&& stored.nonce@.len() == AEAD_NONCE_LEN
                &&& vault_open(key@, stored.nonce@, stored.ciphertext@)
                    == Some((t.access_token@, t.refresh_token@))
                &&& t.expires_at == stored.expires_at
                &&& t.scope@ == stored.scope@
            },
            Err(e) => {
                &&& e == AuthError::DecryptionError
                &&& (stored.nonce@.len() != AEAD_NONCE_LEN
                    || vault_open(key@, stored.nonce@, stored.ciphertext@) is None)
            },
        },
{
    if stored.nonce.len() != AEAD_NONCE_LEN {
        return Err(AuthError::DecryptionError);
    }
    let plaintext = match aead_unseal(key.as_slice(), stored.nonce.as_slice(), stored.ciphertext.as_slice()) {
        Ok(p) => p,
        Err(e) => {
            return Err(e);
        },
    };
    if plaintext.len() < 4 {
        return Err(AuthError::DecryptionError);
    }
    let n = read_be32(plaintext.as_slice(), 0);
    assert(plaintext@.subrange(0, 4) =~= plaintext@.take(4));
    if n as usize > plaintext.len() - 4 {
        return Err(AuthError::DecryptionError);
    }
    let access_token = copy_range(plaintext.as_slice(), 4, 4 + n as usize);
    let refresh_token = copy_range(plaintext.as_slice(), 4 + n as usize, plaintext.len());
    Ok(DecryptedToken {
        access_token,
        refresh_token,
        expires_at: stored.expires_at,
        scope: clone_bytes(&stored.scope),
    })
}

} // verus!
