//! The prefix-plus-hash lookup pattern shared by the secret-bearing
//! credential classes.
//!
//! A stored credential keeps a short non-secret prefix of its secret,
//! to narrow lookups, and a one-way hash of the whole secret, to
//! decide them. The same predicate serves API keys and admin tokens;
//! only the prefix length and the record type differ.

use vstd::prelude::*;

use crate::crypto::sha256_of;

verus! {

/// Does a presented secret agree with a stored (prefix, hash) pair?
/// The prefix narrows, the hash of the whole presented secret decides.
pub open spec fn secret_matches(
    stored_prefix: Seq<u8>,
    stored_hash: Seq<u8>,
    presented: Seq<u8>,
    prefix_len: int,
) -> bool {
    &&& presented.len() >= prefix_len
    &&& stored_prefix == presented.take(prefix_len)
    &&& stored_hash == sha256_of(presented)
}

} // verus!
