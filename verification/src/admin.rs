//! Admin token authority: scoped service credentials with a
//! dual-secret revocation model.
//!
//! An issued token embeds its claims (token id, service name,
//! permissions, super-admin flag, expiry) and carries an HMAC-SHA-256
//! signature under a per-token signing secret. The store keeps only a
//! hash of the whole token and a separate, independently generated
//! hash of the signing secret: neither hash lets anyone derive the
//! other secret. The embedded claims are advisory — verification
//! always answers from the stored record.

use vstd::prelude::*;

use crate::apikey::{key_matches, ApiKeyAuthority, ApiKeyTier};
use crate::bytes::{copy_range, ct_eq, take_prefix};
use crate::codec::{be64, be64_val, lemma_be64_round, push_be64, read_be64};
use crate::crypto::{
    fresh_uuid_hex, hmac_sha256, hmac_sha256_of, random_bytes, sha256, sha256_of, DIGEST_LEN,
};
use crate::errors::AuthError;

verus! {

/// Length of the stored lookup prefix of an admin token.
pub const ADMIN_PREFIX_LEN: usize = 12;

/// Length of a token id: the tag `admin_` plus 32 hex digits.
pub const ADMIN_TOKEN_ID_LEN: usize = 38;

/// Length of the fixed head of a claims payload (everything before the
/// service name).
pub const CLAIMS_HEAD_LEN: usize = 49;

/// Length of the literal `admtk_` opening every signed token.
pub const ADMIN_LABEL_LEN: usize = 6;

/// Shortest well-formed signed token: label, claims head, signature.
pub const ADMIN_TOKEN_MIN_LEN: usize = 87;

/// A capability an admin token may hold.
#[derive(Clone, Copy, Debug, PartialEq, Eq, Structural)]
pub enum AdminPermission {
    ProvisionKeys,
    RevokeKeys,
    ListKeys,
    ViewUsage,
    ManageUsers,
    ManageAdminTokens,
}

impl AdminPermission {
    /// The bit this capability occupies in a permission mask.
    pub open spec fn bit_spec(self) -> u8 {
        match self {
            AdminPermission::ProvisionKeys => 0x01,
            AdminPermission::RevokeKeys => 0x02,
            AdminPermission::ListKeys => 0x04,
            AdminPermission::ViewUsage => 0x08,
            AdminPermission::ManageUsers => 0x10,
            AdminPermission::ManageAdminTokens => 0x20,
        }
    }

    /// The bit this capability occupies in a permission mask.
    pub fn bit(&self) -> (r: u8)
        ensures
            r == self.bit_spec(),
    {
        match self {
            AdminPermission::ProvisionKeys => 0x01,
            AdminPermission::RevokeKeys => 0x02,
            AdminPermission::ListKeys => 0x04,
            AdminPermission::ViewUsage => 0x08,
            AdminPermission::ManageUsers => 0x10,
            AdminPermission::ManageAdminTokens => 0x20,
        }
    }
}

/// Distinct capabilities occupy distinct bits.
proof fn lemma_permission_bits_disjoint()
    ensures
        forall|p: AdminPermission, q: AdminPermission|
            p != q ==> ((#[trigger] p.bit_spec()) & (#[trigger] q.bit_spec())) == 0,
        forall|p: AdminPermission| (#[trigger] p.bit_spec()) != 0,
{
    assert(forall|a: u8, b: u8|
        ((a == 1 || a == 2 || a == 4 || a == 8 || a == 16 || a == 32) && (b == 1 || b == 2 || b
            == 4 || b == 8 || b == 16 || b == 32) && a != b) ==> (a & b) == 0) by (bit_vector);
}

/// A set of capabilities, held as a bit mask.
#[derive(Clone, Copy, Debug, PartialEq, Eq, Structural)]
pub struct PermissionSet {
    pub mask: u8,
}

impl PermissionSet {
    /// Does the set hold this capability?
    pub open spec fn has_spec(self, p: AdminPermission) -> bool {
        self.mask & p.bit_spec() != 0
    }

    /// Does the set hold this capability?
    pub fn has(&self, p: AdminPermission) -> (r: bool)
        ensures
            r == self.has_spec(p),
    {
        (self.mask & p.bit()) != 0
    }

    /// The empty set.
    pub fn empty() -> (r: PermissionSet)
        ensures
            r.mask == 0,
            forall|q: AdminPermission| !r.has_spec(q),
    {
        assert(forall|c: u8| (0u8 & c) == 0) by (bit_vector);
        PermissionSet { mask: 0 }
    }

    /// The set with `p` added; every other capability is unchanged.
    pub fn with(self, p: AdminPermission) -> (r: PermissionSet)
        ensures
            forall|q: AdminPermission| r.has_spec(q) == (self.has_spec(q) || q == p),
    {
        proof {
            lemma_permission_bits_disjoint();
            assert(forall|m: u8, b: u8| ((m | b) & b) == b) by (bit_vector);
            assert(forall|m: u8, b: u8, c: u8| (b & c) == 0 ==> ((m | b) & c) == (m & c))
                by (bit_vector);
        }
        PermissionSet { mask: self.mask | p.bit() }
    }

    /// Every capability: what a super admin effectively holds.
    pub fn all() -> (r: PermissionSet)
        ensures
            forall|q: AdminPermission| r.has_spec(q),
    {
        proof {
            lemma_permission_bits_disjoint();
            assert(forall|c: u8|
                (c == 1 || c == 2 || c == 4 || c == 8 || c == 16 || c == 32) ==> (0x3fu8 & c) != 0)
                by (bit_vector);
        }
        PermissionSet { mask: 0x3f }
    }

    /// The default-admin preset: provision, list, and view usage.
    pub fn default_admin() -> (r: PermissionSet)
        ensures
            r.has_spec(AdminPermission::ProvisionKeys),
            r.has_spec(AdminPermission::ListKeys),
            r.has_spec(AdminPermission::ViewUsage),
            !r.has_spec(AdminPermission::RevokeKeys),
            !r.has_spec(AdminPermission::ManageUsers),
            !r.has_spec(AdminPermission::ManageAdminTokens),
    {
        assert((0x0du8 & 1) != 0 && (0x0du8 & 4) != 0 && (0x0du8 & 8) != 0 && (0x0du8 & 2) == 0
            && (0x0du8 & 16) == 0 && (0x0du8 & 32) == 0) by (bit_vector);
        PermissionSet { mask: 0x0d }
    }
}

/// The claims a signed token embeds.
pub struct AdminClaims {
    pub token_id: Vec<u8>,
    pub service_name: Vec<u8>,
    pub permissions: PermissionSet,
    pub is_super_admin: bool,
    /// Unix milliseconds; `None` means the token never expires.
    pub expires_at: Option<u64>,
}

/// The mathematical value of a claims record.
pub struct AdminClaimsView {
    pub token_id: Seq<u8>,
    pub service_name: Seq<u8>,
    pub mask: u8,
    pub is_super_admin: bool,
    pub expires_at: Option<u64>,
}

impl View for AdminClaims {
    type V = AdminClaimsView;

    open spec fn view(&self) -> AdminClaimsView {
        AdminClaimsView {
            token_id: self.token_id@,
            service_name: self.service_name@,
            mask: self.permissions.mask,
            is_super_admin: self.is_super_admin,
            expires_at: self.expires_at,
        }
    }
}

/// The literal `admtk_` that opens every signed token.
pub open spec fn admin_label() -> Seq<u8> {
    seq![97u8, 100u8, 109u8, 116u8, 107u8, 95u8]
}

/// The claims payload: token id, permission mask, super-admin byte,
/// expiry flag and value, then the service name filling the rest.
pub open spec fn claims_enc(c: AdminClaimsView) -> Seq<u8>
    recommends
        c.token_id.len() == ADMIN_TOKEN_ID_LEN,
{
    c.token_id + seq![
        c.mask,
        (if c.is_super_admin { 1u8 } else { 0u8 }),
        (if c.expires_at is Some { 1u8 } else { 0u8 }),
    ] + be64(
        match c.expires_at {
            Some(e) => e,
            None => 0,
        },
    ) + c.service_name
}

/// Parsing a claims payload. Rejects payloads that are too short or
/// not in the canonical form `claims_enc` produces.
pub open spec fn claims_dec(data: Seq<u8>) -> Option<AdminClaimsView> {
    if data.len() < CLAIMS_HEAD_LEN {
        None
    } else {
        let sup = data[39];
        let flag = data[40];
        let exp = be64_val(data.subrange(41, 49));
        if (sup == 0 || sup == 1) && (flag == 0 || flag == 1) && (flag == 1 || exp == 0) {
            Some(
                AdminClaimsView {
                    token_id: data.subrange(0, ADMIN_TOKEN_ID_LEN as int),
                    service_name: data.subrange(CLAIMS_HEAD_LEN as int, data.len() as int),
                    mask: data[38],
                    is_super_admin: sup == 1,
                    expires_at: if flag == 1 {
                        Some(exp)
                    } else {
                        None
                    },
                },
            )
        } else {
            None
        }
    }
}

/// Splitting a signed token into claims payload and signature.
pub open spec fn token_dec(token: Seq<u8>) -> Option<(Seq<u8>, Seq<u8>)> {
    if token.len() < ADMIN_TOKEN_MIN_LEN {
        None
    } else if token.take(ADMIN_LABEL_LEN as int) != admin_label() {
        None
    } else {
        Some(
            (
                token.subrange(ADMIN_LABEL_LEN as int, token.len() - DIGEST_LEN),
                token.subrange(token.len() - DIGEST_LEN, token.len() as int),
            ),
        )
    }
}

/// The claims a well-formed token carries, if any.
pub open spec fn admin_parse(token: Seq<u8>) -> Option<(AdminClaimsView, Seq<u8>, Seq<u8>)> {
    match token_dec(token) {
        Some((payload, sig)) => match claims_dec(payload) {
            Some(c) => Some((c, payload, sig)),
            None => None,
        },
        None => None,
    }
}

/// Does the token's signature verify under `secret`?
pub open spec fn admin_sig_ok(token: Seq<u8>, secret: Seq<u8>) -> bool {
    match token_dec(token) {
        Some((payload, sig)) => sig == hmac_sha256_of(secret, payload),
        None => false,
    }
}

/// Decoding a canonical claims payload yields back the claims.
pub proof fn lemma_claims_round(c: AdminClaimsView)
    requires
        c.token_id.len() == ADMIN_TOKEN_ID_LEN,
    ensures
        claims_dec(claims_enc(c)) == Some(c),
{
    let e = claims_enc(c);
    let exp_val: u64 = match c.expires_at {
        Some(x) => x,
        None => 0,
    };
    assert(e.len() == CLAIMS_HEAD_LEN + c.service_name.len());
    assert(e.subrange(0, ADMIN_TOKEN_ID_LEN as int) =~= c.token_id);
    assert(e[38] == c.mask);
    assert(e[39] == (if c.is_super_admin { 1u8 } else { 0u8 }));
    assert(e[40] == (if c.expires_at is Some { 1u8 } else { 0u8 }));
    assert(e.subrange(41, 49) =~= be64(exp_val));
    lemma_be64_round(exp_val);
    assert(e.subrange(CLAIMS_HEAD_LEN as int, e.len() as int) =~= c.service_name);
}

/// Splitting `label + payload + sig` yields back payload and signature.
pub proof fn lemma_token_split(payload: Seq<u8>, sig: Seq<u8>)
    requires
        payload.len() >= CLAIMS_HEAD_LEN,
        sig.len() == DIGEST_LEN,
    ensures
        token_dec(admin_label() + payload + sig) == Some((payload, sig)),
{
    let t = admin_label() + payload + sig;
    assert(t.len() >= ADMIN_TOKEN_MIN_LEN);
    assert(t.take(ADMIN_LABEL_LEN as int) =~= admin_label());
    assert(t.subrange(ADMIN_LABEL_LEN as int, t.len() - DIGEST_LEN) =~= payload);
    assert(t.subrange(t.len() - DIGEST_LEN, t.len() as int) =~= sig);
}

/// Encode claims into a payload.
pub fn encode_claims(c: &AdminClaims) -> (r: Vec<u8>)
    requires
        c.token_id@.len() == ADMIN_TOKEN_ID_LEN,
    ensures
        r@ == claims_enc(c@),
        r@.len() == CLAIMS_HEAD_LEN + c.service_name@.len(),
{
    let mut r: Vec<u8> = Vec::new();
    crate::bytes::extend_bytes(&mut r, c.token_id.as_slice());
    r.push(c.permissions.mask);
    r.push(if c.is_super_admin {
        1
    } else {
        0
    });
    match c.expires_at {
        Some(e) => {
            r.push(1);
            push_be64(&mut r, e);
        },
        None => {
            r.push(0);
            push_be64(&mut r, 0);
        },
    }
    crate::bytes::extend_bytes(&mut r, c.service_name.as_slice());
    assert(r@ =~= claims_enc(c@));
    r
}

/// Parse a claims payload; rejects anything `claims_enc` cannot have
/// produced.
pub fn parse_claims(data: &[u8]) -> (r: Option<AdminClaims>)
    ensures
        match r {
            Some(c) => claims_dec(data@) == Some(c@) && c.token_id@.len() == ADMIN_TOKEN_ID_LEN,
            None => claims_dec(data@) is None,
        },
{
    if data.len() < CLAIMS_HEAD_LEN {
        return None;
    }
    let sup = data[39];
    let flag = data[40];
    if !(sup == 0 || sup == 1) || !(flag == 0 || flag == 1) {
        return None;
    }
    let exp = read_be64(data, 41);
    if flag == 0 && exp != 0 {
        return None;
    }
    let token_id = copy_range(data, 0, ADMIN_TOKEN_ID_LEN);
    let service_name = copy_range(data, CLAIMS_HEAD_LEN, data.len());
    Some(
        AdminClaims {
            token_id,
            service_name,
            permissions: PermissionSet { mask: data[38] },
            is_super_admin: sup == 1,
            expires_at: if flag == 1 {
                Some(exp)
            } else {
                None
            },
        },
    )
}

/// Build the literal `admtk_` label.
fn label_bytes() -> (r: Vec<u8>)
    ensures
        r@ == admin_label(),
{
    let mut r: Vec<u8> = Vec::new();
    r.push(97);
    r.push(100);
    r.push(109);
    r.push(116);
    r.push(107);
    r.push(95);
    assert(r@ =~= admin_label());
    r
}

/// Split a signed token into claims payload and signature.
pub fn split_token(token: &[u8]) -> (r: Option<(Vec<u8>, Vec<u8>)>)
    ensures
        match r {
            Some(p) => token_dec(token@) == Some((p.0@, p.1@)),
            None => token_dec(token@) is None,
        },
{
    if token.len() < ADMIN_TOKEN_MIN_LEN {
        return None;
    }
    let label = label_bytes();
    let head = take_prefix(token, ADMIN_LABEL_LEN);
    if !ct_eq(head.as_slice(), label.as_slice()) {
        return None;
    }
    let payload = copy_range(token, ADMIN_LABEL_LEN, token.len() - DIGEST_LEN);
    let sig = copy_range(token, token.len() - DIGEST_LEN, token.len());
    Some((payload, sig))
}

/// Parse a signed token into its embedded claims. The claims are
/// advisory: verification trusts only the stored record.
pub fn parse_token(token: &[u8]) -> (r: Option<AdminClaims>)
    ensures
        match r {
            Some(c) => (admin_parse(token@) matches Some(t) && t.0 == c@),
            None => admin_parse(token@) is None,
        },
{
    match split_token(token) {
        Some((payload, _sig)) => match parse_claims(payload.as_slice()) {
            Some(c) => Some(c),
            None => None,
        },
        None => None,
    }
}

/// Check a token's signature under a signing secret. The embedded
/// claims are bound by the HMAC over the whole payload.
pub fn signature_valid(token: &[u8], secret: &[u8]) -> (r: bool)
    ensures
        r == admin_sig_ok(token@, secret@),
{
    match split_token(token) {
        Some((payload, sig)) => {
            let expect = hmac_sha256(secret, payload.as_slice());
            ct_eq(sig.as_slice(), expect.as_slice())
        },
        None => false,
    }
}

/// The expiry computed from a day count, saturating at the largest
/// representable instant.
pub open spec fn expiry_from_days(now: u64, days: u64) -> u64 {
    if now + days * crate::apikey::DAY_MS > u64::MAX {
        u64::MAX
    } else {
        (now + days * crate::apikey::DAY_MS) as u64
    }
}

/// Compute `now` plus a day count, saturating.
pub fn saturating_expiry(now: u64, days: u64) -> (r: u64)
    ensures
        r == expiry_from_days(now, days),
{
    if days > u64::MAX / crate::apikey::DAY_MS {
        return u64::MAX;
    }
    assert(days * crate::apikey::DAY_MS <= u64::MAX);
    let ms = days * crate::apikey::DAY_MS;
    if now > u64::MAX - ms {
        u64::MAX
    } else {
        now + ms
    }
}

/// A stored admin token: two independent hashes, never a secret.
pub struct AdminTokenRecord {
    /// The tag `admin_` plus 32 random hex digits.
    pub id: Vec<u8>,
    pub service_name: Vec<u8>,
    /// SHA-256 of the whole signed token.
    pub token_hash: Vec<u8>,
    /// First bytes of the signed token, stored for lookup narrowing.
    pub token_prefix: Vec<u8>,
    /// SHA-256 of the signing secret — generated independently of the
    /// token hash, so neither hash exposes the other secret.
    pub jwt_secret_hash: Vec<u8>,
    /// The authoritative permission set; embedded claims are advisory.
    pub permissions: PermissionSet,
    pub is_super_admin: bool,
    pub is_active: bool,
    pub created_at: u64,
    pub expires_at: Option<u64>,
    pub last_used_at: Option<u64>,
    pub usage_count: u64,
}

/// One audit row: a privileged action attributed to an admin token.
pub struct AdminAuditRecord {
    pub admin_token_id: Vec<u8>,
    pub timestamp: u64,
    pub action: Vec<u8>,
    pub target_resource: Vec<u8>,
    pub success: bool,
}

/// One provisioning event: an API key issued on someone's behalf by an
/// admin token, kept so the keys can later be revoked in bulk.
pub struct ProvisionedKey {
    pub admin_token_id: Vec<u8>,
    pub api_key_id: Vec<u8>,
    pub user_email: Vec<u8>,
    pub tier: ApiKeyTier,
    pub provisioned_at: u64,
    pub still_active: bool,
}

/// Does a presented token match a stored record? One instance of the
/// shared prefix-plus-hash pattern.
pub open spec fn token_matches(t: AdminTokenRecord, presented: Seq<u8>) -> bool {
    crate::secret::secret_matches(
        t.token_prefix@,
        t.token_hash@,
        presented,
        ADMIN_PREFIX_LEN as int,
    )
}

/// Is the record past its expiry at `now`?
pub open spec fn token_expired(t: AdminTokenRecord, now: u64) -> bool {
    match t.expires_at {
        Some(e) => e < now,
        None => false,
    }
}

/// Does the token hold `p`? A super admin holds everything.
pub open spec fn token_has_permission(t: AdminTokenRecord, p: AdminPermission) -> bool {
    t.is_super_admin || t.permissions.has_spec(p)
}

/// Does the token's stored record agree with the claims its signed
/// form embeds?
pub open spec fn token_reflects_record(tok: Seq<u8>, t: AdminTokenRecord) -> bool {
    match admin_parse(tok) {
        Some((c, payload, sig)) => {
            &&& c.token_id == t.id@
            &&& c.service_name == t.service_name@
            &&& c.mask == t.permissions.mask
            &&& c.is_super_admin == t.is_super_admin
            &&& c.expires_at == t.expires_at
        },
        None => false,
    }
}

/// The first index at or after `i` whose record matches `presented`.
pub open spec fn find_token(s: Seq<AdminTokenRecord>, presented: Seq<u8>, i: int) -> Option<int>
    decreases s.len() - i,
{
    if i < 0 || i >= s.len() {
        None
    } else if token_matches(s[i], presented) {
        Some(i)
    } else {
        find_token(s, presented, i + 1)
    }
}

proof fn lemma_find_token_none(s: Seq<AdminTokenRecord>, presented: Seq<u8>, i: int)
    requires
        forall|j: int| i <= j < s.len() ==> !token_matches(#[trigger] s[j], presented),
    ensures
        find_token(s, presented, i) is None,
    decreases s.len() - i,
{
    if 0 <= i < s.len() {
        lemma_find_token_none(s, presented, i + 1);
    }
}

proof fn lemma_find_token_at(s: Seq<AdminTokenRecord>, presented: Seq<u8>, i: int, k: int)
    requires
        0 <= i <= k < s.len(),
        token_matches(s[k], presented),
        forall|j: int| i <= j < k ==> !token_matches(#[trigger] s[j], presented),
    ensures
        find_token(s, presented, i) == Some(k),
    decreases k - i,
{
    if i < k {
        lemma_find_token_at(s, presented, i + 1, k);
    }
}

/// The first index at or after `i` whose record has id `id`.
pub open spec fn find_token_id(s: Seq<AdminTokenRecord>, id: Seq<u8>, i: int) -> Option<int>
    decreases s.len() - i,
{
    if i < 0 || i >= s.len() {
        None
    } else if s[i].id@ == id {
        Some(i)
    } else {
        find_token_id(s, id, i + 1)
    }
}

proof fn lemma_find_token_id_none(s: Seq<AdminTokenRecord>, id: Seq<u8>, i: int)
    requires
        forall|j: int| i <= j < s.len() ==> (#[trigger] s[j].id@) != id,
    ensures
        find_token_id(s, id, i) is None,
    decreases s.len() - i,
{
    if 0 <= i < s.len() {
        lemma_find_token_id_none(s, id, i + 1);
    }
}

proof fn lemma_find_token_id_at(s: Seq<AdminTokenRecord>, id: Seq<u8>, i: int, k: int)
    requires
        0 <= i <= k < s.len(),
        s[k].id@ == id,
        forall|j: int| i <= j < k ==> (#[trigger] s[j].id@) != id,
    ensures
        find_token_id(s, id, i) == Some(k),
    decreases k - i,
{
    if i < k {
        lemma_find_token_id_at(s, id, i + 1, k);
    }
}

/// Does a provisioning event pass the history filter: made by
/// `admin_token_id` (when one is asked for) inside `[start, end]`?
pub open spec fn provisioned_passes(
    row: ProvisionedKey,
    admin_token_id: Option<Seq<u8>>,
    start: u64,
    end: u64,
) -> bool {
    &&& (match admin_token_id {
        Some(id) => row.admin_token_id@ == id,
        None => true,
    })
    &&& start <= row.provisioned_at <= end
}

/// The indices of the provisioning events that pass the history
/// filter, in storage order.
pub open spec fn filtered_provisioned_indices(
    s: Seq<ProvisionedKey>,
    admin_token_id: Option<Seq<u8>>,
    start: u64,
    end: u64,
) -> Seq<int>
    decreases s.len(),
{
    if s.len() == 0 {
        Seq::empty()
    } else {
        filtered_provisioned_indices(s.drop_last(), admin_token_id, start, end) + (
        if provisioned_passes(s.last(), admin_token_id, start, end) {
            seq![s.len() - 1]
        } else {
            Seq::empty()
        })
    }
}

/// The indices of the audit rows of `admin_token_id` inside
/// `[start, end]`, in storage order.
pub open spec fn filtered_audit_indices(
    s: Seq<AdminAuditRecord>,
    admin_token_id: Seq<u8>,
    start: u64,
    end: u64,
) -> Seq<int>
    decreases s.len(),
{
    if s.len() == 0 {
        Seq::empty()
    } else {
        filtered_audit_indices(s.drop_last(), admin_token_id, start, end) + (
        if s.last().admin_token_id@ == admin_token_id && start <= s.last().timestamp <= end {
            seq![s.len() - 1]
        } else {
            Seq::empty()
        })
    }
}

/// The admin token authority: stored records, the audit trail, and
/// the ledger of keys provisioned on behalf of users.
pub struct AdminAuthority {
    pub tokens: Vec<AdminTokenRecord>,
    pub audit: Vec<AdminAuditRecord>,
    pub provisioned: Vec<ProvisionedKey>,
}

impl AdminAuthority {
    /// An authority with no tokens, audit rows or provisioning events.
    pub fn new() -> (r: AdminAuthority)
        ensures
            r.tokens@.len() == 0,
            r.audit@.len() == 0,
            r.provisioned@.len() == 0,
    {
        AdminAuthority { tokens: Vec::new(), audit: Vec::new(), provisioned: Vec::new() }
    }

    /// Borrow the record at `i`.
    pub fn token_at(&self, i: usize) -> (r: &AdminTokenRecord)
        requires
            i < self.tokens@.len(),
        ensures
            *r == self.tokens@[i as int],
    {
        &self.tokens[i]
    }

    /// Number of stored records.
    pub fn len(&self) -> (r: usize)
        ensures
            r == self.tokens@.len(),
    {
        self.tokens.len()
    }

    /// Issue a signed admin token.
    ///
    /// Generates a fresh token id and an independent random signing
    /// secret, embeds the claims, signs them, and stores only the hash
    /// of the whole token and — separately — the hash of the signing
    /// secret. The signed token is returned exactly once; the signing
    /// secret never leaves this function, and the two stored hashes
    /// are hashes of two different strings, so neither can stand in
    /// for the other (the dual-secret property).
    ///
    /// Permissions fall back to the super-admin or default-admin
    /// preset when no explicit set is given.
    pub fn issue(
        &mut self,
        service_name: &Vec<u8>,
        permissions: Option<PermissionSet>,
        is_super_admin: bool,
        expires_in_days: Option<u64>,
        now: u64,
    ) -> (r: (usize, Vec<u8>))
        ensures
            final(self).tokens@ == old(self).tokens@.push(final(self).tokens@.last()),
            final(self).audit@ == old(self).audit@,
            final(self).provisioned@ == old(self).provisioned@,
            r.0 == old(self).tokens@.len(),
            ({
                let t = final(self).tokens@.last();
                let tok = r.1@;
                &&& t.token_hash@ == sha256_of(tok)
                &&& t.token_prefix@ == tok.take(ADMIN_PREFIX_LEN as int)
                &&& tok.len() >= ADMIN_TOKEN_MIN_LEN
                &&& token_matches(t, tok)
                &&& token_reflects_record(tok, t)
                &&& t.id@.len() == ADMIN_TOKEN_ID_LEN
                &&& t.service_name@ == service_name@
                &&& (permissions matches Some(p) ==> t.permissions == p)
                &&& (permissions is None && is_super_admin ==> (forall|q: AdminPermission|
                    t.permissions.has_spec(q)))
                &&& (permissions is None && !is_super_admin ==> t.permissions.has_spec(
                    AdminPermission::ProvisionKeys,
                ) && !t.permissions.has_spec(AdminPermission::RevokeKeys))
                &&& t.is_super_admin == is_super_admin
                &&& t.is_active
                &&& t.created_at == now
                &&& t.expires_at == (match expires_in_days {
                    Some(d) => Some(expiry_from_days(now, d)),
                    None => None::<u64>,
                })
                &&& t.last_used_at is None
                &&& t.usage_count == 0
                &&& (exists|sec: Seq<u8>|
                    {
                        &&& sec.len() == 32
                        &&& t.jwt_secret_hash@ == #[trigger] sha256_of(sec)
                        &&& admin_sig_ok(tok, sec)
                        &&& sec != tok
                    })
            }),
    {
        let mut token_id: Vec<u8> = Vec::new();
        token_id.push(97);  // 'a'
        token_id.push(100);  // 'd'
        token_id.push(109);  // 'm'
        token_id.push(105);  // 'i'
        token_id.push(110);  // 'n'
        token_id.push(95);  // '_'
        let uuid_hex = fresh_uuid_hex();
        crate::bytes::extend_bytes(&mut token_id, uuid_hex.as_slice());
        assert(token_id@.len() == ADMIN_TOKEN_ID_LEN);

        let jwt_secret = random_bytes(32);

        let perms = match permissions {
            Some(p) => p,
            None => if is_super_admin {
                PermissionSet::all()
            } else {
                PermissionSet::default_admin()
            },
        };
        let expires_at = match expires_in_days {
            Some(d) => Some(saturating_expiry(now, d)),
            None => None,
        };

        let claims = AdminClaims {
            token_id,
            service_name: crate::vault::clone_bytes(service_name),
            permissions: perms,
            is_super_admin,
            expires_at,
        };
        let payload = encode_claims(&claims);
        let sig = hmac_sha256(jwt_secret.as_slice(), payload.as_slice());

        let mut token = label_bytes();
        crate::bytes::extend_bytes(&mut token, payload.as_slice());
        crate::bytes::extend_bytes(&mut token, sig.as_slice());
        proof {
            lemma_token_split(payload@, sig@);
            lemma_claims_round(claims@);
        }

        let token_prefix = take_prefix(token.as_slice(), ADMIN_PREFIX_LEN);
        let token_hash = sha256(token.as_slice());
        let jwt_secret_hash = sha256(jwt_secret.as_slice());

        let record = AdminTokenRecord {
            id: crate::vault::clone_bytes(&claims.token_id),
            service_name: crate::vault::clone_bytes(service_name),
            token_hash,
            token_prefix,
            jwt_secret_hash,
            permissions: perms,
            is_super_admin,
            is_active: true,
            created_at: now,
            expires_at,
            last_used_at: None,
            usage_count: 0,
        };
        let index = self.tokens.len();
        self.tokens.push(record);
        proof {
            assert(jwt_secret@.len() != token@.len());
            assert(jwt_secret@ != token@);
        }
        (index, token)
    }

    /// Verify a presented token at `now` against the stored records.
    ///
    /// Narrows by prefix, confirms by constant-time comparison of the
    /// token hash, then checks the active flag and expiry. Succeeds
    /// with the index of the stored record; the stored permissions are
    /// the ones to trust, whatever the token embeds. Fails with
    /// `InvalidCredential` when nothing matches (the same answer for
    /// "not found" and "wrong secret"), `Revoked` when the match was
    /// deactivated, `Expired` when it is past its expiry.
    pub fn verify(&self, presented: &Vec<u8>, now: u64) -> (r: Result<usize, AuthError>)
        ensures
            ({
                let f = find_token(self.tokens@, presented@, 0);
                match r {
                    Ok(i) => {
                        &&& f == Some(i as int)
                        &&& self.tokens@[i as int].is_active
                        &&& !token_expired(self.tokens@[i as int], now)
                        &&& token_matches(self.tokens@[i as int], presented@)
                    },
                    Err(e) => {
                        ||| (f is None && e == AuthError::InvalidCredential)
                        ||| (f matches Some(j) && !self.tokens@[j].is_active && e
                            == AuthError::Revoked)
                        ||| (f matches Some(j) && self.tokens@[j].is_active && token_expired(
                            self.tokens@[j],
                            now,
                        ) && e == AuthError::Expired)
                    },
                }
            }),
    {
        if presented.len() < ADMIN_PREFIX_LEN {
            proof {
                lemma_find_token_none(self.tokens@, presented@, 0);
            }
            return Err(AuthError::InvalidCredential);
        }
        let prefix = take_prefix(presented.as_slice(), ADMIN_PREFIX_LEN);
        let hash = sha256(presented.as_slice());
        let n = self.tokens.len();
        let mut i: usize = 0;
        while i < n
            invariant
                n == self.tokens@.len(),
                0 <= i <= n,
                prefix@ == presented@.take(ADMIN_PREFIX_LEN as int),
                presented@.len() >= ADMIN_PREFIX_LEN,
                hash@ == sha256_of(presented@),
                forall|j: int| 0 <= j < i ==> !token_matches(#[trigger] self.tokens@[j], presented@),
            decreases n - i,
        {
            let t = &self.tokens[i];
            if ct_eq(t.token_prefix.as_slice(), prefix.as_slice())
                && ct_eq(t.token_hash.as_slice(), hash.as_slice()) {
                proof {
                    lemma_find_token_at(self.tokens@, presented@, 0, i as int);
                }
                if !t.is_active {
                    return Err(AuthError::Revoked);
                }
                let expired = match t.expires_at {
                    Some(e) => e < now,
                    None => false,
                };
                if expired {
                    return Err(AuthError::Expired);
                }
                return Ok(i);
            }
            i = i + 1;
        }
        proof {
            lemma_find_token_none(self.tokens@, presented@, 0);
        }
        Err(AuthError::InvalidCredential)
    }

    /// Does the stored token at `i` hold the capability? A super admin
    /// holds every capability without consulting the set.
    pub fn has_permission(&self, i: usize, p: AdminPermission) -> (r: bool)
        requires
            i < self.tokens@.len(),
        ensures
            r == token_has_permission(self.tokens@[i as int], p),
    {
        let t = &self.tokens[i];
        t.is_super_admin || t.permissions.has(p)
    }

    /// Note a use of the token at `i`: bump the monotone use counter
    /// (it never decreases; it saturates rather than wraps) and stamp
    /// the time.
    pub fn note_use(&mut self, i: usize, now: u64)
        requires
            i < old(self).tokens@.len(),
        ensures
            final(self).tokens@.len() == old(self).tokens@.len(),
            ({
                let t0 = old(self).tokens@[i as int];
                let t1 = final(self).tokens@[i as int];
                &&& t1 == (AdminTokenRecord {
                    usage_count: t1.usage_count,
                    last_used_at: Some(now),
                    ..t0
                })
                &&& t1.usage_count >= t0.usage_count
                &&& t0.usage_count < u64::MAX ==> t1.usage_count == t0.usage_count + 1
            }),
            forall|j: int|
                0 <= j < old(self).tokens@.len() && j != i ==> final(self).tokens@[j]
                    == #[trigger] old(self).tokens@[j],
            final(self).audit@ == old(self).audit@,
            final(self).provisioned@ == old(self).provisioned@,
    {
        let current = self.tokens[i].usage_count;
        if current < u64::MAX {
            self.tokens[i].usage_count = current + 1;
        }
        self.tokens[i].last_used_at = Some(now);
    }

    /// Append an audit row. Auditing is best-effort observability: it
    /// appends and cannot refuse, so it never fails the action that is
    /// being audited.
    pub fn record_usage(&mut self, row: AdminAuditRecord)
        ensures
            final(self).audit@ == old(self).audit@.push(row),
            final(self).tokens@ == old(self).tokens@,
            final(self).provisioned@ == old(self).provisioned@,
    {
        self.audit.push(row);
    }

    /// Deactivate the token with id `token_id`. Unknown ids fail with
    /// `InvalidCredential`. Already-issued API keys are untouched:
    /// they are tracked and revoked independently through the
    /// provisioned-key ledger.
    pub fn revoke(&mut self, token_id: &Vec<u8>) -> (r: Result<(), AuthError>)
        ensures
            final(self).audit@ == old(self).audit@,
            final(self).provisioned@ == old(self).provisioned@,
            ({
                let f = find_token_id(old(self).tokens@, token_id@, 0);
                match r {
                    Ok(()) => {
                        &&& f matches Some(j)
                        &&& final(self).tokens@ == old(self).tokens@.update(
                            f->Some_0,
                            (AdminTokenRecord {
                                is_active: false,
                                ..old(self).tokens@[f->Some_0]
                            }),
                        )
                    },
                    Err(e) => {
                        &&& final(self).tokens@ == old(self).tokens@
                        &&& f is None
                        &&& e == AuthError::InvalidCredential
                    },
                }
            }),
    {
        let n = self.tokens.len();
        let mut i: usize = 0;
        while i < n
            invariant
                n == self.tokens@.len(),
                0 <= i <= n,
                self.tokens@ == old(self).tokens@,
                self.audit@ == old(self).audit@,
                self.provisioned@ == old(self).provisioned@,
                forall|j: int| 0 <= j < i ==> (#[trigger] self.tokens@[j].id@) != token_id@,
            decreases n - i,
        {
            if ct_eq(self.tokens[i].id.as_slice(), token_id.as_slice()) {
                proof {
                    lemma_find_token_id_at(self.tokens@, token_id@, 0, i as int);
                }
                self.tokens[i].is_active = false;
                return Ok(());
            }
            i = i + 1;
        }
        proof {
            lemma_find_token_id_none(self.tokens@, token_id@, 0);
        }
        Err(AuthError::InvalidCredential)
    }

    /// List the provisioning events made by `admin_token_id` (or by
    /// anyone, when none is named) inside `[start, end]`: the indices
    /// of the matching rows, in storage order.
    pub fn provisioned_between(
        &self,
        admin_token_id: Option<&Vec<u8>>,
        start: u64,
        end: u64,
    ) -> (r: Vec<usize>)
        ensures
            r@.map_values(|x: usize| x as int) == filtered_provisioned_indices(
                self.provisioned@,
                (match admin_token_id {
                    Some(id) => Some(id@),
                    None => None::<Seq<u8>>,
                }),
                start,
                end,
            ),
    {
        let ghost id_view: Option<Seq<u8>> = match admin_token_id {
            Some(id) => Some(id@),
            None => None,
        };
        let n = self.provisioned.len();
        let mut out: Vec<usize> = Vec::new();
        let mut i: usize = 0;
        assert(self.provisioned@.take(0) =~= Seq::<ProvisionedKey>::empty());
        assert(out@.map_values(|x: usize| x as int) =~= filtered_provisioned_indices(
            self.provisioned@.take(0),
            id_view,
            start,
            end,
        ));
        while i < n
            invariant
                n == self.provisioned@.len(),
                0 <= i <= n,
                id_view == (match admin_token_id {
                    Some(id) => Some(id@),
                    None => None::<Seq<u8>>,
                }),
                out@.map_values(|x: usize| x as int) == filtered_provisioned_indices(
                    self.provisioned@.take(i as int),
                    id_view,
                    start,
                    end,
                ),
            decreases n - i,
        {
            let row = &self.provisioned[i];
            let id_ok = match admin_token_id {
                Some(id) => ct_eq(row.admin_token_id.as_slice(), id.as_slice()),
                None => true,
            };
            if id_ok && start <= row.provisioned_at && row.provisioned_at <= end {
                out.push(i);
            }
            proof {
                let t = self.provisioned@.take(i + 1);
                assert(t.drop_last() =~= self.provisioned@.take(i as int));
                assert(t.last() == self.provisioned@[i as int]);
                assert(out@.map_values(|x: usize| x as int) =~= filtered_provisioned_indices(
                    t,
                    id_view,
                    start,
                    end,
                ));
            }
            i = i + 1;
        }
        assert(self.provisioned@.take(n as int) =~= self.provisioned@);
        out
    }

    /// List the audit rows of `admin_token_id` inside `[start, end]`:
    /// the indices of the matching rows, in storage order.
    pub fn audit_between(&self, admin_token_id: &Vec<u8>, start: u64, end: u64) -> (r: Vec<usize>)
        ensures
            r@.map_values(|x: usize| x as int) == filtered_audit_indices(
                self.audit@,
                admin_token_id@,
                start,
                end,
            ),
    {
        let n = self.audit.len();
        let mut out: Vec<usize> = Vec::new();
        let mut i: usize = 0;
        assert(self.audit@.take(0) =~= Seq::<AdminAuditRecord>::empty());
        assert(out@.map_values(|x: usize| x as int) =~= filtered_audit_indices(
            self.audit@.take(0),
            admin_token_id@,
            start,
            end,
        ));
        while i < n
            invariant
                n == self.audit@.len(),
                0 <= i <= n,
                out@.map_values(|x: usize| x as int) == filtered_audit_indices(
                    self.audit@.take(i as int),
                    admin_token_id@,
                    start,
                    end,
                ),
            decreases n - i,
        {
            let row = &self.audit[i];
            if ct_eq(row.admin_token_id.as_slice(), admin_token_id.as_slice())
                && start <= row.timestamp && row.timestamp <= end {
                out.push(i);
            }
            proof {
                let t = self.audit@.take(i + 1);
                assert(t.drop_last() =~= self.audit@.take(i as int));
                assert(t.last() == self.audit@[i as int]);
                assert(out@.map_values(|x: usize| x as int) =~= filtered_audit_indices(
                    t,
                    admin_token_id@,
                    start,
                    end,
                ));
            }
            i = i + 1;
        }
        assert(self.audit@.take(n as int) =~= self.audit@);
        out
    }

    /// Issue an API key on behalf of a user, authorized by the admin
    /// token at `admin_index`.
    ///
    /// Requires the `ProvisionKeys` capability (or super admin):
    /// without it nothing changes and the call fails with
    /// `Unauthorized`. On success the key is issued through the API
    /// key authority and a provisioning event linking the admin token
    /// to the new key is recorded, enabling later bulk revocation.
    pub fn provision_key_on_behalf_of(
        &mut self,
        api_keys: &mut ApiKeyAuthority,
        admin_index: usize,
        user_id: &Vec<u8>,
        user_email: &Vec<u8>,
        tier: ApiKeyTier,
        custom_quota: Option<u32>,
        now: u64,
    ) -> (r: Result<(usize, Vec<u8>), AuthError>)
        requires
            admin_index < old(self).tokens@.len(),
        ensures
            final(self).tokens@ == old(self).tokens@,
            final(self).audit@ == old(self).audit@,
            ({
                let t = old(self).tokens@[admin_index as int];
                match r {
                    Ok(issued) => {
                        &&& token_has_permission(t, AdminPermission::ProvisionKeys)
                        &&& final(api_keys).keys@ == old(api_keys).keys@.push(
                            final(api_keys).keys@.last(),
                        )
                        &&& issued.0 == old(api_keys).keys@.len()
                        &&& ({
                            let k = final(api_keys).keys@.last();
                            &&& key_matches(k, issued.1@)
                            &&& k.is_active
                            &&& k.user_id@ == user_id@
                            &&& k.name@ == user_email@
                            &&& k.tier == tier
                            &&& k.rate_limit_requests == (match custom_quota {
                                Some(q) => q,
                                None => tier.default_quota_spec(),
                            })
                            &&& k.rate_limit_window_ms == crate::apikey::DAY_MS
                            &&& k.expires_at is None
                            &&& k.created_at == now
                        })
                        &&& final(self).provisioned@ == old(self).provisioned@.push(
                            final(self).provisioned@.last(),
                        )
                        &&& ({
                            let row = final(self).provisioned@.last();
                            &&& row.admin_token_id@ == t.id@
                            &&& row.api_key_id@ == final(api_keys).keys@.last().id@
                            &&& row.user_email@ == user_email@
                            &&& row.tier == tier
                            &&& row.provisioned_at == now
                            &&& row.still_active
                        })
                    },
                    Err(e) => {
                        &&& e == AuthError::Unauthorized
                        &&& !token_has_permission(t, AdminPermission::ProvisionKeys)
                        &&& final(self).provisioned@ == old(self).provisioned@
                        &&& final(api_keys).keys@ == old(api_keys).keys@
                    },
                }
            }),
    {
        if !self.has_permission(admin_index, AdminPermission::ProvisionKeys) {
            return Err(AuthError::Unauthorized);
        }
        let (key_index, secret) = api_keys.issue(
            user_id,
            user_email,
            tier,
            custom_quota,
            None,
            None,
            now,
        );
        let admin_token_id = crate::vault::clone_bytes(&self.tokens[admin_index].id);
        let api_key_id = crate::vault::clone_bytes(&api_keys.key_at(key_index).id);
        let row = ProvisionedKey {
            admin_token_id,
            api_key_id,
            user_email: crate::vault::clone_bytes(user_email),
            tier,
            provisioned_at: now,
            still_active: true,
        };
        self.provisioned.push(row);
        Ok((key_index, secret))
    }
}

} // verus!
