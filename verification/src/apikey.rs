//! API key authority: issuance, verification, tiering, rate limiting
//! and expiry of API keys.
//!
//! A key's secret is shown exactly once at issuance; only a short
//! non-secret prefix (for narrowing lookups) and a one-way hash of the
//! full secret are stored. Verification narrows by prefix and confirms
//! with a constant-time comparison of hashes.

use vstd::prelude::*;

use crate::bytes::{ct_eq, take_prefix};
use crate::crypto::{fresh_uuid_hex, random_bytes, sha256, sha256_of, DIGEST_LEN};
use crate::errors::AuthError;
use crate::hexcode::hex_encode;
use crate::ledger::{count_in_window, window_start, UsageLedger};

verus! {

/// Length of the non-secret lookup prefix of an API key secret.
pub const API_KEY_PREFIX_LEN: usize = 11;

/// Length of a full API key secret: the tag `ak_` plus 64 hex digits.
pub const API_KEY_SECRET_LEN: usize = 67;

/// One day in milliseconds: the default rate-limit window.
pub const DAY_MS: u64 = 86_400_000;

/// Service tiers, each with a fixed default quota per window.
#[derive(Clone, Copy, Debug, PartialEq, Eq, Structural)]
pub enum ApiKeyTier {
    Trial,
    Starter,
    Professional,
    Enterprise,
}

impl ApiKeyTier {
    /// The fixed default quota per window for this tier.
    pub open spec fn default_quota_spec(self) -> u32 {
        match self {
            ApiKeyTier::Trial => 100,
            ApiKeyTier::Starter => 1000,
            ApiKeyTier::Professional => 10_000,
            ApiKeyTier::Enterprise => 100_000,
        }
    }

    /// The fixed default quota per window for this tier.
    pub fn default_quota(&self) -> (r: u32)
        ensures
            r == self.default_quota_spec(),
    {
        match self {
            ApiKeyTier::Trial => 100,
            ApiKeyTier::Starter => 1000,
            ApiKeyTier::Professional => 10_000,
            ApiKeyTier::Enterprise => 100_000,
        }
    }

    /// The tier's stored name.
    pub open spec fn name_spec(self) -> Seq<u8> {
        match self {
            ApiKeyTier::Trial => seq![116u8, 114u8, 105u8, 97u8, 108u8],
            ApiKeyTier::Starter => seq![115u8, 116u8, 97u8, 114u8, 116u8, 101u8, 114u8],
            ApiKeyTier::Professional => seq![
                112u8, 114u8, 111u8, 102u8, 101u8, 115u8, 115u8, 105u8, 111u8, 110u8, 97u8, 108u8,
            ],
            ApiKeyTier::Enterprise => seq![
                101u8, 110u8, 116u8, 101u8, 114u8, 112u8, 114u8, 105u8, 115u8, 101u8,
            ],
        }
    }

    /// The tier's stored name (`trial`, `starter`, `professional`,
    /// `enterprise`).
    pub fn name(&self) -> (r: Vec<u8>)
        ensures
            r@ == self.name_spec(),
    {
        let mut r: Vec<u8> = Vec::new();
        match self {
            ApiKeyTier::Trial => {
                r.push(116);
                r.push(114);
                r.push(105);
                r.push(97);
                r.push(108);
            },
            ApiKeyTier::Starter => {
                r.push(115);
                r.push(116);
                r.push(97);
                r.push(114);
                r.push(116);
                r.push(101);
                r.push(114);
            },
            ApiKeyTier::Professional => {
                r.push(112);
                r.push(114);
                r.push(111);
                r.push(102);
                r.push(101);
                r.push(115);
                r.push(115);
                r.push(105);
                r.push(111);
                r.push(110);
                r.push(97);
                r.push(108);
            },
            ApiKeyTier::Enterprise => {
                r.push(101);
                r.push(110);
                r.push(116);
                r.push(101);
                r.push(114);
                r.push(112);
                r.push(114);
                r.push(105);
                r.push(115);
                r.push(101);
            },
        }
        assert(r@ =~= self.name_spec());
        r
    }

    /// Parse a stored tier name; any other byte string is refused.
    pub fn from_name(name: &[u8]) -> (r: Option<ApiKeyTier>)
        ensures
            match r {
                Some(t) => name@ == t.name_spec(),
                None => forall|t: ApiKeyTier| name@ != t.name_spec(),
            },
    {
        if ct_eq(name, ApiKeyTier::Trial.name().as_slice()) {
            Some(ApiKeyTier::Trial)
        } else if ct_eq(name, ApiKeyTier::Starter.name().as_slice()) {
            Some(ApiKeyTier::Starter)
        } else if ct_eq(name, ApiKeyTier::Professional.name().as_slice()) {
            Some(ApiKeyTier::Professional)
        } else if ct_eq(name, ApiKeyTier::Enterprise.name().as_slice()) {
            Some(ApiKeyTier::Enterprise)
        } else {
            None
        }
    }
}

/// A stored API key: everything but the secret, which is never kept.
pub struct ApiKeyRecord {
    /// Random 32-hex-digit identifier.
    pub id: Vec<u8>,
    pub user_id: Vec<u8>,
    pub name: Vec<u8>,
    /// First bytes of the secret, stored for lookup narrowing.
    pub key_prefix: Vec<u8>,
    /// SHA-256 of the full secret.
    pub key_hash: Vec<u8>,
    pub tier: ApiKeyTier,
    pub is_active: bool,
    /// Quota per window: the tier default, or a custom override.
    pub rate_limit_requests: u32,
    /// Window length in milliseconds.
    pub rate_limit_window_ms: u64,
    /// Unix milliseconds.
    pub created_at: u64,
    /// Unix milliseconds; `None` means the key never expires.
    pub expires_at: Option<u64>,
    pub last_used_at: Option<u64>,
}

/// Does a presented secret match a stored record? One instance of the
/// shared prefix-plus-hash pattern.
pub open spec fn key_matches(k: ApiKeyRecord, presented: Seq<u8>) -> bool {
    crate::secret::secret_matches(
        k.key_prefix@,
        k.key_hash@,
        presented,
        API_KEY_PREFIX_LEN as int,
    )
}

/// Is the record past its expiry at `now`?
pub open spec fn key_expired(k: ApiKeyRecord, now: u64) -> bool {
    match k.expires_at {
        Some(e) => e < now,
        None => false,
    }
}

/// The first index at or after `i` whose record matches `presented`.
pub open spec fn find_key(s: Seq<ApiKeyRecord>, presented: Seq<u8>, i: int) -> Option<int>
    decreases s.len() - i,
{
    if i < 0 || i >= s.len() {
        None
    } else if key_matches(s[i], presented) {
        Some(i)
    } else {
        find_key(s, presented, i + 1)
    }
}

/// If nothing at or after `i` matches, the search from `i` fails.
proof fn lemma_find_key_none(s: Seq<ApiKeyRecord>, presented: Seq<u8>, i: int)
    requires
        forall|j: int| i <= j < s.len() ==> !key_matches(#[trigger] s[j], presented),
    ensures
        find_key(s, presented, i) is None,
    decreases s.len() - i,
{
    if 0 <= i < s.len() {
        lemma_find_key_none(s, presented, i + 1);
    }
}

/// If `k` matches and nothing between `i` and `k` does, the search from
/// `i` finds `k`.
proof fn lemma_find_key_at(s: Seq<ApiKeyRecord>, presented: Seq<u8>, i: int, k: int)
    requires
        0 <= i <= k < s.len(),
        key_matches(s[k], presented),
        forall|j: int| i <= j < k ==> !key_matches(#[trigger] s[j], presented),
    ensures
        find_key(s, presented, i) == Some(k),
    decreases k - i,
{
    if i < k {
        lemma_find_key_at(s, presented, i + 1, k);
    }
}

/// Law: a stored key that a presented secret matches, while active and
/// unexpired, is found by verification — provided no other stored
/// record matches the same secret (distinct records keep distinct
/// hashes; a hash collision is the one thing this cannot exclude).
pub proof fn lemma_issued_secret_verifies(
    s: Seq<ApiKeyRecord>,
    presented: Seq<u8>,
    i: int,
    now: u64,
)
    requires
        0 <= i < s.len(),
        key_matches(s[i], presented),
        forall|j: int| 0 <= j < s.len() && j != i ==> !key_matches(#[trigger] s[j], presented),
    ensures
        find_key(s, presented, 0) == Some(i),
{
    lemma_find_key_at(s, presented, 0, i);
}

/// `k` with its active flag lowered and all else unchanged.
pub open spec fn deactivated(k: ApiKeyRecord) -> ApiKeyRecord {
    ApiKeyRecord { is_active: false, ..k }
}

/// What one pass of the expiry sweep leaves of a record at `now`.
pub open spec fn sweep_one(k: ApiKeyRecord, now: u64) -> ApiKeyRecord {
    if k.is_active && key_expired(k, now) {
        deactivated(k)
    } else {
        k
    }
}

/// How many records of `s` an expiry sweep at `now` deactivates.
pub open spec fn count_swept(s: Seq<ApiKeyRecord>, now: u64) -> nat
    decreases s.len(),
{
    if s.len() == 0 {
        0
    } else {
        count_swept(s.drop_last(), now)
            + (if s.last().is_active && key_expired(s.last(), now) { 1nat } else { 0nat })
    }
}

/// Law: the expiry sweep is idempotent — sweeping a record a second
/// time at the same instant changes nothing.
pub proof fn lemma_sweep_idempotent(k: ApiKeyRecord, now: u64)
    ensures
        sweep_one(sweep_one(k, now), now) == sweep_one(k, now),
{
}

/// Law: the expiry sweep is safe to run repeatedly — immediately after
/// one sweep, a second finds nothing left to deactivate.
pub proof fn lemma_second_sweep_counts_nothing(s: Seq<ApiKeyRecord>, now: u64)
    ensures
        count_swept(s.map_values(|k: ApiKeyRecord| sweep_one(k, now)), now) == 0,
    decreases s.len(),
{
    let swept = s.map_values(|k: ApiKeyRecord| sweep_one(k, now));
    if s.len() > 0 {
        lemma_second_sweep_counts_nothing(s.drop_last(), now);
        assert(swept.drop_last() =~= s.drop_last().map_values(
            |k: ApiKeyRecord| sweep_one(k, now),
        ));
        assert(swept.last() == sweep_one(s.last(), now));
    }
}

/// The first index at or after `i` whose record has id `id`.
pub open spec fn find_key_id(s: Seq<ApiKeyRecord>, id: Seq<u8>, i: int) -> Option<int>
    decreases s.len() - i,
{
    if i < 0 || i >= s.len() {
        None
    } else if s[i].id@ == id {
        Some(i)
    } else {
        find_key_id(s, id, i + 1)
    }
}

proof fn lemma_find_key_id_none(s: Seq<ApiKeyRecord>, id: Seq<u8>, i: int)
    requires
        forall|j: int| i <= j < s.len() ==> (#[trigger] s[j].id@) != id,
    ensures
        find_key_id(s, id, i) is None,
    decreases s.len() - i,
{
    if 0 <= i < s.len() {
        lemma_find_key_id_none(s, id, i + 1);
    }
}

proof fn lemma_find_key_id_at(s: Seq<ApiKeyRecord>, id: Seq<u8>, i: int, k: int)
    requires
        0 <= i <= k < s.len(),
        s[k].id@ == id,
        forall|j: int| i <= j < k ==> (#[trigger] s[j].id@) != id,
    ensures
        find_key_id(s, id, i) == Some(k),
    decreases k - i,
{
    if i < k {
        lemma_find_key_id_at(s, id, i + 1, k);
    }
}

/// Does a record pass the listing filter: owned by `user_id` (when
/// one is asked for), and active (when only active keys are wanted)?
pub open spec fn key_passes(k: ApiKeyRecord, user_id: Option<Seq<u8>>, active_only: bool) -> bool {
    &&& (match user_id {
        Some(u) => k.user_id@ == u,
        None => true,
    })
    &&& (!active_only || k.is_active)
}

/// The indices of the records that pass the listing filter, in
/// storage order.
pub open spec fn filtered_key_indices(
    s: Seq<ApiKeyRecord>,
    user_id: Option<Seq<u8>>,
    active_only: bool,
) -> Seq<int>
    decreases s.len(),
{
    if s.len() == 0 {
        Seq::empty()
    } else {
        filtered_key_indices(s.drop_last(), user_id, active_only) + (if key_passes(
            s.last(),
            user_id,
            active_only,
        ) {
            seq![s.len() - 1]
        } else {
            Seq::empty()
        })
    }
}

/// How many records of `s` are active.
pub open spec fn count_active(s: Seq<ApiKeyRecord>) -> nat
    decreases s.len(),
{
    if s.len() == 0 {
        0
    } else {
        count_active(s.drop_last()) + (if s.last().is_active {
            1nat
        } else {
            0nat
        })
    }
}

/// The API key authority: the stored key records.
pub struct ApiKeyAuthority {
    pub keys: Vec<ApiKeyRecord>,
}

impl ApiKeyAuthority {
    /// An authority with no keys.
    pub fn new() -> (r: ApiKeyAuthority)
        ensures
            r.keys@.len() == 0,
    {
        ApiKeyAuthority { keys: Vec::new() }
    }

    /// Borrow the record at `i`.
    pub fn key_at(&self, i: usize) -> (r: &ApiKeyRecord)
        requires
            i < self.keys@.len(),
        ensures
            *r == self.keys@[i as int],
    {
        &self.keys[i]
    }

    /// Number of stored records.
    pub fn len(&self) -> (r: usize)
        ensures
            r == self.keys@.len(),
    {
        self.keys.len()
    }

    /// Issue a new key: draw a high-entropy secret, store its prefix
    /// and hash, and return the index of the new record together with
    /// the plaintext secret — the only time the secret ever exists
    /// outside the caller's hands.
    ///
    /// The quota and window come from the tier defaults unless custom
    /// overrides are given; overrides take precedence.
    pub fn issue(
        &mut self,
        user_id: &Vec<u8>,
        name: &Vec<u8>,
        tier: ApiKeyTier,
        custom_quota: Option<u32>,
        custom_window_ms: Option<u64>,
        expires_at: Option<u64>,
        now: u64,
    ) -> (r: (usize, Vec<u8>))
        ensures
            final(self).keys@ == old(self).keys@.push(final(self).keys@.last()),
            r.0 == old(self).keys@.len(),
            ({
                let k = final(self).keys@.last();
                let secret = r.1;
                &&& secret@.len() == API_KEY_SECRET_LEN
                &&& key_matches(k, secret@)
                &&& k.key_prefix@ == secret@.take(API_KEY_PREFIX_LEN as int)
                &&& k.key_hash@ == sha256_of(secret@)
                &&& k.key_hash@.len() == DIGEST_LEN
                &&& k.id@.len() == 32
                &&& k.user_id@ == user_id@
                &&& k.name@ == name@
                &&& k.tier == tier
                &&& k.is_active
                &&& k.rate_limit_requests == (match custom_quota {
                    Some(q) => q,
                    None => tier.default_quota_spec(),
                })
                &&& k.rate_limit_window_ms == (match custom_window_ms {
                    Some(w) => w,
                    None => DAY_MS,
                })
                &&& k.created_at == now
                &&& k.expires_at == expires_at
                &&& k.last_used_at is None
            }),
    {
        let id = fresh_uuid_hex();
        let entropy = random_bytes(32);
        let hexpart = hex_encode(entropy.as_slice());
        let mut secret: Vec<u8> = Vec::new();
        secret.push(97);  // 'a'
        secret.push(107);  // 'k'
        secret.push(95);  // '_'
        crate::bytes::extend_bytes(&mut secret, hexpart.as_slice());
        assert(secret@.len() == API_KEY_SECRET_LEN);
        let key_prefix = take_prefix(secret.as_slice(), API_KEY_PREFIX_LEN);
        let key_hash = sha256(secret.as_slice());
        let record = ApiKeyRecord {
            id,
            user_id: crate::vault::clone_bytes(user_id),
            name: crate::vault::clone_bytes(name),
            key_prefix,
            key_hash,
            tier,
            is_active: true,
            rate_limit_requests: match custom_quota {
                Some(q) => q,
                None => tier.default_quota(),
            },
            rate_limit_window_ms: match custom_window_ms {
                Some(w) => w,
                None => DAY_MS,
            },
            created_at: now,
            expires_at,
            last_used_at: None,
        };
        let index = self.keys.len();
        self.keys.push(record);
        (index, secret)
    }

    /// Verify a presented secret at `now`.
    ///
    /// Succeeds with the index of the first matching record when that
    /// record is active and unexpired. Fails with `InvalidCredential`
    /// when no record matches — the same answer for "not found" and
    /// "wrong secret" — with `Revoked` when the matching record was
    /// deactivated, and with `Expired` when it is past its expiry.
    pub fn verify(&self, presented: &Vec<u8>, now: u64) -> (r: Result<usize, AuthError>)
        ensures
            ({
                let f = find_key(self.keys@, presented@, 0);
                match r {
                    Ok(i) => {
                        &&& f == Some(i as int)
                        &&& self.keys@[i as int].is_active
                        &&& !key_expired(self.keys@[i as int], now)
                        &&& key_matches(self.keys@[i as int], presented@)
                    },
                    Err(e) => {
                        ||| (f is None && e == AuthError::InvalidCredential)
                        ||| (f matches Some(j) && !self.keys@[j].is_active && e == AuthError::Revoked)
                        ||| (f matches Some(j) && self.keys@[j].is_active
                            && key_expired(self.keys@[j], now) && e == AuthError::Expired)
                    },
                }
            }),
    {
        if presented.len() < API_KEY_PREFIX_LEN {
            proof {
                lemma_find_key_none(self.keys@, presented@, 0);
            }
            return Err(AuthError::InvalidCredential);
        }
        let prefix = take_prefix(presented.as_slice(), API_KEY_PREFIX_LEN);
        let hash = sha256(presented.as_slice());
        let n = self.keys.len();
        let mut i: usize = 0;
        while i < n
            invariant
                n == self.keys@.len(),
                0 <= i <= n,
                prefix@ == presented@.take(API_KEY_PREFIX_LEN as int),
                presented@.len() >= API_KEY_PREFIX_LEN,
                hash@ == sha256_of(presented@),
                forall|j: int| 0 <= j < i ==> !key_matches(#[trigger] self.keys@[j], presented@),
            decreases n - i,
        {
            let k = &self.keys[i];
            if ct_eq(k.key_prefix.as_slice(), prefix.as_slice())
                && ct_eq(k.key_hash.as_slice(), hash.as_slice()) {
                proof {
                    lemma_find_key_at(self.keys@, presented@, 0, i as int);
                }
                if !k.is_active {
                    return Err(AuthError::Revoked);
                }
                let expired = match k.expires_at {
                    Some(e) => e < now,
                    None => false,
                };
                if expired {
                    return Err(AuthError::Expired);
                }
                return Ok(i);
            }
            i = i + 1;
        }
        proof {
            lemma_find_key_none(self.keys@, presented@, 0);
        }
        Err(AuthError::InvalidCredential)
    }

    /// Admission check: the only point where a request may be refused
    /// purely for volume. Counts the key's ledger records inside its
    /// sliding window and compares against its quota.
    pub fn check_admission(&self, i: usize, ledger: &UsageLedger, now: u64) -> (r: Result<
        (),
        AuthError,
    >)
        requires
            i < self.keys@.len(),
        ensures
            ({
                let k = self.keys@[i as int];
                let used = count_in_window(
                    ledger.records@,
                    k.id@,
                    window_start(now, k.rate_limit_window_ms),
                );
                match r {
                    Ok(()) => used < k.rate_limit_requests,
                    Err(e) => e == AuthError::RateLimited && used >= k.rate_limit_requests,
                }
            }),
    {
        let k = &self.keys[i];
        let used = ledger.count_in_window(&k.id, now, k.rate_limit_window_ms);
        if (used as u64) < (k.rate_limit_requests as u64) {
            Ok(())
        } else {
            Err(AuthError::RateLimited)
        }
    }

    /// Deactivate the key with id `key_id` on behalf of
    /// `requesting_user`. An owner mismatch fails with `Unauthorized`;
    /// an unknown id with `InvalidCredential`. Nothing else changes.
    pub fn revoke(&mut self, key_id: &Vec<u8>, requesting_user: &Vec<u8>) -> (r: Result<
        (),
        AuthError,
    >)
        ensures
            ({
                let f = find_key_id(old(self).keys@, key_id@, 0);
                match r {
                    Ok(()) => {
                        &&& f matches Some(j)
                        &&& old(self).keys@[f->Some_0].user_id@ == requesting_user@
                        &&& final(self).keys@ == old(self).keys@.update(
                            f->Some_0,
                            deactivated(old(self).keys@[f->Some_0]),
                        )
                    },
                    Err(e) => {
                        &&& final(self).keys@ == old(self).keys@
                        &&& {
                            ||| (f is None && e == AuthError::InvalidCredential)
                            ||| (f matches Some(j) && old(self).keys@[j].user_id@ != requesting_user@
                                && e == AuthError::Unauthorized)
                        }
                    },
                }
            }),
    {
        let n = self.keys.len();
        let mut i: usize = 0;
        while i < n
            invariant
                n == self.keys@.len(),
                0 <= i <= n,
                self.keys@ == old(self).keys@,
                forall|j: int| 0 <= j < i ==> (#[trigger] self.keys@[j].id@) != key_id@,
            decreases n - i,
        {
            if ct_eq(self.keys[i].id.as_slice(), key_id.as_slice()) {
                proof {
                    lemma_find_key_id_at(self.keys@, key_id@, 0, i as int);
                }
                if !ct_eq(self.keys[i].user_id.as_slice(), requesting_user.as_slice()) {
                    return Err(AuthError::Unauthorized);
                }
                self.keys[i].is_active = false;
                return Ok(());
            }
            i = i + 1;
        }
        proof {
            lemma_find_key_id_none(self.keys@, key_id@, 0);
        }
        Err(AuthError::InvalidCredential)
    }

    /// Record a successful use of the key at `i`.
    pub fn note_use(&mut self, i: usize, now: u64)
        requires
            i < old(self).keys@.len(),
        ensures
            final(self).keys@ == old(self).keys@.update(
                i as int,
                (ApiKeyRecord { last_used_at: Some(now), ..old(self).keys@[i as int] }),
            ),
    {
        self.keys[i].last_used_at = Some(now);
    }

    /// Batch-deactivate every active key past its expiry. Idempotent:
    /// a second sweep at the same instant deactivates nothing. Returns
    /// how many keys this sweep deactivated.
    pub fn expire_sweep(&mut self, now: u64) -> (count: usize)
        ensures
            final(self).keys@.len() == old(self).keys@.len(),
            forall|t: int|
                0 <= t < old(self).keys@.len() ==> final(self).keys@[t] == sweep_one(
                    #[trigger] old(self).keys@[t],
                    now,
                ),
            count == count_swept(old(self).keys@, now),
    {
        let n = self.keys.len();
        let mut count: usize = 0;
        let mut i: usize = 0;
        assert(old(self).keys@.take(0) =~= Seq::<ApiKeyRecord>::empty());
        while i < n
            invariant
                n == self.keys@.len(),
                n == old(self).keys@.len(),
                0 <= i <= n,
                forall|t: int|
                    0 <= t < i ==> self.keys@[t] == sweep_one(#[trigger] old(self).keys@[t], now),
                forall|t: int| i <= t < n ==> self.keys@[t] == #[trigger] old(self).keys@[t],
                count == count_swept(old(self).keys@.take(i as int), now),
                count <= i,
            decreases n - i,
        {
            let active = self.keys[i].is_active;
            let expired = match self.keys[i].expires_at {
                Some(e) => e < now,
                None => false,
            };
            if active && expired {
                self.keys[i].is_active = false;
                assert(self.keys@[i as int] == deactivated(old(self).keys@[i as int]));
                count = count + 1;
            }
            proof {
                let t = old(self).keys@.take(i + 1);
                assert(t.drop_last() =~= old(self).keys@.take(i as int));
                assert(t.last() == old(self).keys@[i as int]);
            }
            i = i + 1;
        }
        assert(old(self).keys@.take(n as int) =~= old(self).keys@);
        count
    }

    /// How many stored keys are currently active.
    pub fn active_key_count(&self) -> (r: usize)
        ensures
            r == count_active(self.keys@),
    {
        let n = self.keys.len();
        let mut count: usize = 0;
        let mut i: usize = 0;
        assert(self.keys@.take(0) =~= Seq::<ApiKeyRecord>::empty());
        while i < n
            invariant
                n == self.keys@.len(),
                0 <= i <= n,
                count == count_active(self.keys@.take(i as int)),
                count <= i,
            decreases n - i,
        {
            if self.keys[i].is_active {
                count = count + 1;
            }
            proof {
                let t = self.keys@.take(i + 1);
                assert(t.drop_last() =~= self.keys@.take(i as int));
                assert(t.last() == self.keys@[i as int]);
            }
            i = i + 1;
        }
        assert(self.keys@.take(n as int) =~= self.keys@);
        count
    }

    /// List stored keys, filtered and paged: the indices of the
    /// records that pass the filter, in storage order, skipping
    /// `offset` of them and keeping at most `limit`.
    pub fn keys_filtered(
        &self,
        user_id: Option<&Vec<u8>>,
        active_only: bool,
        limit: Option<usize>,
        offset: usize,
    ) -> (r: Vec<usize>)
        ensures
            ({
                let all = filtered_key_indices(
                    self.keys@,
                    (match user_id {
                        Some(u) => Some(u@),
                        None => None::<Seq<u8>>,
                    }),
                    active_only,
                );
                let off = if offset > all.len() {
                    all.len() as int
                } else {
                    offset as int
                };
                let end = (match limit {
                    Some(l) => if l > all.len() - off {
                        all.len() as int
                    } else {
                        off + l
                    },
                    None => all.len() as int,
                });
                r@.map_values(|x: usize| x as int) == all.subrange(off, end)
            }),
    {
        let ghost user_view: Option<Seq<u8>> = match user_id {
            Some(u) => Some(u@),
            None => None,
        };
        let n = self.keys.len();
        let mut full: Vec<usize> = Vec::new();
        let mut i: usize = 0;
        assert(self.keys@.take(0) =~= Seq::<ApiKeyRecord>::empty());
        assert(full@.map_values(|x: usize| x as int) =~= filtered_key_indices(
            self.keys@.take(0),
            user_view,
            active_only,
        ));
        while i < n
            invariant
                n == self.keys@.len(),
                0 <= i <= n,
                user_view == (match user_id {
                    Some(u) => Some(u@),
                    None => None::<Seq<u8>>,
                }),
                full@.map_values(|x: usize| x as int) == filtered_key_indices(
                    self.keys@.take(i as int),
                    user_view,
                    active_only,
                ),
                forall|j: int| 0 <= j < full@.len() ==> (#[trigger] full@[j]) < i,
            decreases n - i,
        {
            let k = &self.keys[i];
            let user_ok = match user_id {
                Some(u) => ct_eq(k.user_id.as_slice(), u.as_slice()),
                None => true,
            };
            if user_ok && (!active_only || k.is_active) {
                full.push(i);
            }
            proof {
                let t = self.keys@.take(i + 1);
                assert(t.drop_last() =~= self.keys@.take(i as int));
                assert(t.last() == self.keys@[i as int]);
                assert(full@.map_values(|x: usize| x as int) =~= filtered_key_indices(
                    t,
                    user_view,
                    active_only,
                ));
            }
            i = i + 1;
        }
        assert(self.keys@.take(n as int) =~= self.keys@);
        let ghost all = filtered_key_indices(self.keys@, user_view, active_only);
        assert(full@.len() == all.len());
        let total = full.len();
        let off = if offset > total {
            total
        } else {
            offset
        };
        let end = match limit {
            Some(l) => if l > total - off {
                total
            } else {
                off + l
            },
            None => total,
        };
        let mut out: Vec<usize> = Vec::new();
        let mut j: usize = off;
        assert(out@.map_values(|x: usize| x as int) =~= all.subrange(off as int, off as int));
        while j < end
            invariant
                off <= j <= end,
                end <= full@.len(),
                full@.map_values(|x: usize| x as int) == all,
                out@.map_values(|x: usize| x as int) == all.subrange(off as int, j as int),
            decreases end - j,
        {
            out.push(full[j]);
            proof {
                assert(all[j as int] == full@.map_values(|x: usize| x as int)[j as int]);
                assert(all.subrange(off as int, j + 1) =~= all.subrange(off as int, j as int).push(
                    all[j as int],
                ));
                assert(out@.map_values(|x: usize| x as int) =~= all.subrange(off as int, j + 1));
            }
            j = j + 1;
        }
        out
    }

    /// Run the expiry sweep against the process clock. The clock's
    /// reading cannot be pinned down, so the contract holds for some
    /// instant: whatever it was, the sweep behaved as `expire_sweep`
    /// at that instant.
    pub fn expire_sweep_now(&mut self) -> (count: usize)
        ensures
            exists|now: u64|
                {
                    &&& final(self).keys@.len() == old(self).keys@.len()
                    &&& (forall|t: int|
                        0 <= t < old(self).keys@.len() ==> final(self).keys@[t] == sweep_one(
                            #[trigger] old(self).keys@[t],
                            now,
                        ))
                    &&& count == #[trigger] count_swept(old(self).keys@, now)
                },
    {
        let now = crate::crypto::now_millis();
        self.expire_sweep(now)
    }
}

} // verus!
