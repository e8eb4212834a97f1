//! Error taxonomy shared by every authority in the crate.

use vstd::prelude::*;

verus! {

/// Why a credential operation was refused.
///
/// `InvalidCredential` covers both "not found" and "wrong secret", so a
/// caller cannot distinguish the two (no oracle leakage). Verification
/// failures are terminal: retrying with the same input cannot succeed.
#[derive(Clone, Copy, Debug, PartialEq, Eq, Structural)]
pub enum AuthError {
    /// Credential not found, or its secret did not match the stored hash.
    InvalidCredential,
    /// The credential matched but its expiry lies in the past.
    Expired,
    /// The credential matched but has been deactivated.
    Revoked,
    /// Admission was refused purely for volume reasons.
    RateLimited,
    /// A grant asked for scopes outside the client's capabilities.
    ScopeViolation,
    /// A task state-machine transition was attempted from the wrong state.
    InvalidTransition,
    /// Ownership or permission mismatch.
    Unauthorized,
    /// An authentication tag failed to verify during decryption.
    DecryptionError,
}

} // verus!
