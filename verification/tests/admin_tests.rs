use credential_core::admin::{
    encode_claims, parse_token, signature_valid, AdminAuthority, AdminClaims, AdminPermission,
    PermissionSet,
};
use credential_core::apikey::{ApiKeyAuthority, ApiKeyTier};
use credential_core::errors::AuthError;
use hmac::Mac;

const NOW: u64 = 1_700_000_000_000;
const DAY_MS: u64 = 86_400_000;

#[test]
fn issued_token_verifies_and_stored_record_matches() {
    let mut auth = AdminAuthority::new();
    let (index, token) = auth.issue(&b"ci-service".to_vec(), None, false, Some(30), NOW);
    let got = auth.verify(&token, NOW + 1).expect("fresh token verifies");
    assert_eq!(got, index);
    let record = auth.token_at(index);
    assert!(record.is_active);
    assert_eq!(record.service_name, b"ci-service".to_vec());
    assert!(!record.is_super_admin);
    assert_eq!(record.expires_at, Some(NOW + 30 * DAY_MS));
    assert_eq!(record.usage_count, 0);
    assert_eq!(&record.id[..6], b"admin_");
    assert_eq!(&token[..6], b"admtk_");
}

#[test]
fn wrong_or_truncated_token_fails_with_invalid_credential() {
    let mut auth = AdminAuthority::new();
    let (_, token) = auth.issue(&b"svc".to_vec(), None, false, None, NOW);
    let truncated = token[..token.len() - 1].to_vec();
    assert_eq!(auth.verify(&truncated, NOW).unwrap_err(), AuthError::InvalidCredential);
    let mut altered = token.clone();
    let last = altered.len() - 1;
    altered[last] ^= 0x01;
    assert_eq!(auth.verify(&altered, NOW).unwrap_err(), AuthError::InvalidCredential);
    assert_eq!(
        auth.verify(&b"short".to_vec(), NOW).unwrap_err(),
        AuthError::InvalidCredential
    );
}

#[test]
fn dual_secret_hashes_are_independent() {
    // Structural independence: the two stored hashes are hashes of two
    // different strings — the signed token and a separately drawn
    // signing secret — and neither string is stored.
    let mut auth = AdminAuthority::new();
    let (index, token) = auth.issue(&b"svc".to_vec(), None, false, None, NOW);
    let record = auth.token_at(index);
    let token_hash_again: Vec<u8> =
        <sha2::Sha256 as sha2::Digest>::digest(token.as_slice()).to_vec();
    assert_eq!(record.token_hash, token_hash_again);
    // The signing-secret hash is not the token hash, nor the hash of
    // the token or of any part of it that is stored.
    assert_ne!(record.jwt_secret_hash, record.token_hash);
    assert_ne!(
        record.jwt_secret_hash,
        <sha2::Sha256 as sha2::Digest>::digest(record.token_hash.as_slice()).to_vec()
    );
}

#[test]
fn embedded_claims_parse_but_stored_permissions_are_authoritative() {
    let mut auth = AdminAuthority::new();
    let perms = PermissionSet::empty().with(AdminPermission::ViewUsage);
    let (index, token) = auth.issue(&b"metrics".to_vec(), Some(perms), false, Some(7), NOW);
    let claims = parse_token(&token).expect("issued token carries claims");
    let record = auth.token_at(index);
    assert_eq!(claims.token_id, record.id);
    assert_eq!(claims.service_name, record.service_name);
    assert_eq!(claims.permissions.mask, record.permissions.mask);
    assert_eq!(claims.is_super_admin, record.is_super_admin);
    assert_eq!(claims.expires_at, record.expires_at);
    // Claims do not parse out of tampered bytes that break the layout.
    assert!(parse_token(b"admtk_way-too-short").is_none());
}

#[test]
fn signature_binds_the_payload_to_the_signing_secret() {
    let claims = AdminClaims {
        token_id: b"admin_0123456789abcdef0123456789abcdef".to_vec(),
        service_name: b"backup".to_vec(),
        permissions: PermissionSet::empty().with(AdminPermission::ProvisionKeys),
        is_super_admin: false,
        expires_at: Some(NOW),
    };
    assert_eq!(claims.token_id.len(), 38);
    let payload = encode_claims(&claims);
    let secret = b"0123456789abcdef0123456789abcdef".to_vec();
    let mut mac = <hmac::Hmac<sha2::Sha256> as hmac::Mac>::new_from_slice(&secret).unwrap();
    mac.update(&payload);
    let sig = mac.finalize().into_bytes().to_vec();
    let mut token = b"admtk_".to_vec();
    token.extend_from_slice(&payload);
    token.extend_from_slice(&sig);
    assert!(signature_valid(&token, &secret));
    // Any change to the embedded claims invalidates the signature.
    let mut tampered = token.clone();
    tampered[6 + 38] ^= 0x20;  // flip a bit of the permission mask
    assert!(!signature_valid(&tampered, &secret));
    // A different secret does not verify.
    assert!(!signature_valid(&token, &b"another-secret".to_vec()));
}

#[test]
fn permission_presets_and_super_admin_bypass() {
    let default = PermissionSet::default_admin();
    assert!(default.has(AdminPermission::ProvisionKeys));
    assert!(default.has(AdminPermission::ListKeys));
    assert!(default.has(AdminPermission::ViewUsage));
    assert!(!default.has(AdminPermission::RevokeKeys));
    assert!(!default.has(AdminPermission::ManageUsers));
    assert!(!default.has(AdminPermission::ManageAdminTokens));

    let mut auth = AdminAuthority::new();
    let (plain, _) = auth.issue(&b"svc".to_vec(), None, false, None, NOW);
    let (root, _) = auth.issue(&b"root-svc".to_vec(), None, true, None, NOW);
    assert!(auth.has_permission(plain, AdminPermission::ProvisionKeys));
    assert!(!auth.has_permission(plain, AdminPermission::ManageAdminTokens));
    assert!(auth.has_permission(root, AdminPermission::ManageAdminTokens));
    assert!(auth.has_permission(root, AdminPermission::RevokeKeys));
}

#[test]
fn provisioning_needs_the_provision_capability() {
    // Scenario: a token with is_super_admin=false and only the
    // view-usage permission must not provision keys.
    let mut admins = AdminAuthority::new();
    let mut keys = ApiKeyAuthority::new();
    let watcher_perms = PermissionSet::empty().with(AdminPermission::ViewUsage);
    let (watcher, _) = admins.issue(&b"dashboard".to_vec(), Some(watcher_perms), false, None, NOW);
    let refused = admins.provision_key_on_behalf_of(
        &mut keys,
        watcher,
        &b"user-1".to_vec(),
        &b"user@example.com".to_vec(),
        ApiKeyTier::Starter,
        None,
        NOW,
    );
    assert_eq!(refused.unwrap_err(), AuthError::Unauthorized);
    assert_eq!(keys.len(), 0);

    let (provisioner, _) = admins.issue(&b"onboarding".to_vec(), None, false, None, NOW);
    let (key_index, secret) = admins
        .provision_key_on_behalf_of(
            &mut keys,
            provisioner,
            &b"user-1".to_vec(),
            &b"user@example.com".to_vec(),
            ApiKeyTier::Starter,
            Some(500),
            NOW,
        )
        .expect("provision capability suffices");
    assert_eq!(keys.verify(&secret, NOW).unwrap(), key_index);
    assert_eq!(keys.key_at(key_index).rate_limit_requests, 500);
}

#[test]
fn provisioned_key_ledger_links_token_and_key() {
    let mut admins = AdminAuthority::new();
    let mut keys = ApiKeyAuthority::new();
    let (admin, _) = admins.issue(&b"svc".to_vec(), None, false, None, NOW);
    let (key_index, _) = admins
        .provision_key_on_behalf_of(
            &mut keys,
            admin,
            &b"u".to_vec(),
            &b"u@example.com".to_vec(),
            ApiKeyTier::Professional,
            None,
            NOW,
        )
        .unwrap();
    assert_eq!(admins.provisioned.len(), 1);
    let row = &admins.provisioned[0];
    assert_eq!(row.admin_token_id, admins.token_at(admin).id);
    assert_eq!(row.api_key_id, keys.key_at(key_index).id);
    assert_eq!(row.user_email, b"u@example.com".to_vec());
    assert_eq!(row.tier, ApiKeyTier::Professional);
    assert!(row.still_active);
}

#[test]
fn revoked_and_expired_tokens_are_refused() {
    let mut auth = AdminAuthority::new();
    let (index, token) = auth.issue(&b"svc".to_vec(), None, false, Some(1), NOW);
    // Past its one-day expiry.
    assert_eq!(
        auth.verify(&token, NOW + DAY_MS + 1).unwrap_err(),
        AuthError::Expired
    );
    let id = auth.token_at(index).id.clone();
    auth.revoke(&id).expect("known id revokes");
    assert_eq!(auth.verify(&token, NOW).unwrap_err(), AuthError::Revoked);
    assert_eq!(
        auth.revoke(&b"admin_none".to_vec()).unwrap_err(),
        AuthError::InvalidCredential
    );
}

#[test]
fn note_use_counts_monotonically() {
    let mut auth = AdminAuthority::new();
    let (index, _) = auth.issue(&b"svc".to_vec(), None, false, None, NOW);
    auth.note_use(index, NOW + 5);
    auth.note_use(index, NOW + 9);
    let record = auth.token_at(index);
    assert_eq!(record.usage_count, 2);
    assert_eq!(record.last_used_at, Some(NOW + 9));
}

#[test]
fn audit_rows_append_and_never_block() {
    let mut auth = AdminAuthority::new();
    let (index, _) = auth.issue(&b"svc".to_vec(), None, false, None, NOW);
    let id = auth.token_at(index).id.clone();
    auth.record_usage(credential_core::admin::AdminAuditRecord {
        admin_token_id: id.clone(),
        timestamp: NOW,
        action: b"provision_key".to_vec(),
        target_resource: b"user@example.com".to_vec(),
        success: true,
    });
    assert_eq!(auth.audit.len(), 1);
    assert_eq!(auth.audit[0].admin_token_id, id);
    assert!(auth.audit[0].success);
}

#[test]
fn provisioning_and_audit_histories_filter_by_token_and_period() {
    let mut admins = AdminAuthority::new();
    let mut keys = ApiKeyAuthority::new();
    let (first, _) = admins.issue(&b"svc-one".to_vec(), None, false, None, NOW);
    let (second, _) = admins.issue(&b"svc-two".to_vec(), None, false, None, NOW);
    admins
        .provision_key_on_behalf_of(&mut keys, first, &b"u1".to_vec(), &b"u1@example.com".to_vec(), ApiKeyTier::Trial, None, NOW + 10)
        .unwrap();
    admins
        .provision_key_on_behalf_of(&mut keys, second, &b"u2".to_vec(), &b"u2@example.com".to_vec(), ApiKeyTier::Trial, None, NOW + 20)
        .unwrap();
    admins
        .provision_key_on_behalf_of(&mut keys, first, &b"u3".to_vec(), &b"u3@example.com".to_vec(), ApiKeyTier::Trial, None, NOW + 30)
        .unwrap();

    let first_id = admins.token_at(first).id.clone();
    let of_first = admins.provisioned_between(Some(&first_id), NOW, NOW + 100);
    assert_eq!(of_first, vec![0, 2]);
    let everyone = admins.provisioned_between(None, NOW, NOW + 100);
    assert_eq!(everyone, vec![0, 1, 2]);
    let late_only = admins.provisioned_between(None, NOW + 15, NOW + 100);
    assert_eq!(late_only, vec![1, 2]);

    for (ts, ok) in [(NOW + 1, true), (NOW + 2, false), (NOW + 500, true)] {
        admins.record_usage(credential_core::admin::AdminAuditRecord {
            admin_token_id: first_id.clone(),
            timestamp: ts,
            action: b"provision_key".to_vec(),
            target_resource: b"user".to_vec(),
            success: ok,
        });
    }
    let window = admins.audit_between(&first_id, NOW, NOW + 10);
    assert_eq!(window, vec![0, 1]);
    let none = admins.audit_between(&b"admin_other".to_vec(), NOW, NOW + 1000);
    assert!(none.is_empty());
}
