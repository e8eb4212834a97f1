//! One entry point over the credential classes.
//!
//! A request may present an API key, an admin token, or an agent
//! session token. The class is a tagged variant, and verification
//! dispatches to the matching authority — there is no inheritance and
//! no dynamic registry, just one function per variant behind one
//! match.

use vstd::prelude::*;

use crate::a2a::{find_session, session_valid, A2AEngine};
use crate::admin::{find_token, token_expired, token_matches, AdminAuthority};
use crate::apikey::{find_key, key_expired, key_matches, ApiKeyAuthority};
use crate::errors::AuthError;

verus! {

/// A credential as a caller presents it.
pub enum Credential {
    ApiKey(Vec<u8>),
    AdminToken(Vec<u8>),
    AgentSession(Vec<u8>),
}

/// A verified credential: which class it was, and the index of its
/// record in that class's authority.
#[derive(Clone, Copy, Debug, PartialEq, Eq, Structural)]
pub enum VerifiedCredential {
    ApiKey(usize),
    AdminToken(usize),
    AgentSession(usize),
}

/// Verify a presented credential against the authority of its class.
///
/// Each class keeps its own rules: the result carries the class tag
/// and the stored record's index, and the errors are exactly those of
/// the class's own verification.
pub fn verify_credential(
    presented: &Credential,
    api_keys: &ApiKeyAuthority,
    admins: &AdminAuthority,
    engine: &A2AEngine,
    now: u64,
) -> (r: Result<VerifiedCredential, AuthError>)
    ensures
        ({
            match presented {
                Credential::ApiKey(p) => {
                    let f = find_key(api_keys.keys@, p@, 0);
                    match r {
                        Ok(v) => {
                            &&& v matches VerifiedCredential::ApiKey(i)
                            &&& f == Some(i as int)
                            &&& api_keys.keys@[i as int].is_active
                            &&& !key_expired(api_keys.keys@[i as int], now)
                            &&& key_matches(api_keys.keys@[i as int], p@)
                        },
                        Err(e) => {
                            ||| (f is None && e == AuthError::InvalidCredential)
                            ||| (f matches Some(j) && !api_keys.keys@[j].is_active && e
                                == AuthError::Revoked)
                            ||| (f matches Some(j) && api_keys.keys@[j].is_active && key_expired(
                                api_keys.keys@[j],
                                now,
                            ) && e == AuthError::Expired)
                        },
                    }
                },
                Credential::AdminToken(p) => {
                    let f = find_token(admins.tokens@, p@, 0);
                    match r {
                        Ok(v) => {
                            &&& v matches VerifiedCredential::AdminToken(i)
                            &&& f == Some(i as int)
                            &&& admins.tokens@[i as int].is_active
                            &&& !token_expired(admins.tokens@[i as int], now)
                            &&& token_matches(admins.tokens@[i as int], p@)
                        },
                        Err(e) => {
                            ||| (f is None && e == AuthError::InvalidCredential)
                            ||| (f matches Some(j) && !admins.tokens@[j].is_active && e
                                == AuthError::Revoked)
                            ||| (f matches Some(j) && admins.tokens@[j].is_active && token_expired(
                                admins.tokens@[j],
                                now,
                            ) && e == AuthError::Expired)
                        },
                    }
                },
                Credential::AgentSession(p) => {
                    let f = find_session(engine.sessions@, p@, 0);
                    match r {
                        Ok(v) => {
                            &&& v matches VerifiedCredential::AgentSession(i)
                            &&& f == Some(i as int)
                            &&& session_valid(engine.sessions@[i as int], now)
                        },
                        Err(e) => {
                            ||| (f is None && e == AuthError::InvalidCredential)
                            ||| (f matches Some(j) && !engine.sessions@[j].is_active && e
                                == AuthError::Revoked)
                            ||| (f matches Some(j) && engine.sessions@[j].is_active && now
                                >= engine.sessions@[j].expires_at && e == AuthError::Expired)
                        },
                    }
                },
            }
        }),
{
    match presented {
        Credential::ApiKey(p) => match api_keys.verify(p, now) {
            Ok(i) => Ok(VerifiedCredential::ApiKey(i)),
            Err(e) => Err(e),
        },
        Credential::AdminToken(p) => match admins.verify(p, now) {
            Ok(i) => Ok(VerifiedCredential::AdminToken(i)),
            Err(e) => Err(e),
        },
        Credential::AgentSession(p) => match engine.verify_session(p, now) {
            Ok(i) => Ok(VerifiedCredential::AgentSession(i)),
            Err(e) => Err(e),
        },
    }
}

} // verus!
