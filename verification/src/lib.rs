//! Credential and access-control core for a multi-tenant API gateway.
//!
//! The crate covers four credential classes and the policy around them:
//! an encrypted vault for third-party OAuth token pairs, an API-key
//! authority with tiered rate limits, an admin-token authority with a
//! scoped permission model and a dual-secret revocation scheme, and an
//! agent-delegation (A2A) protocol engine with an explicit task state
//! machine. A shared usage ledger answers sliding-window admission
//! queries for all of them.
//!
//! All secrets are byte strings; persistence, transport and clock access
//! live outside this crate and hand plain values in.

pub mod errors;
pub mod bytes;
pub mod crypto;
pub mod secret;
pub mod hexcode;
pub mod codec;
pub mod vault;
pub mod ledger;
pub mod apikey;
pub mod admin;
pub mod a2a;
pub mod credential;
