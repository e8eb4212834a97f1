use credential_core::apikey::{ApiKeyAuthority, ApiKeyTier, API_KEY_PREFIX_LEN, DAY_MS};
use credential_core::errors::AuthError;
use credential_core::ledger::{UsageLedger, UsageRecord};

const NOW: u64 = 1_700_000_000_000;

fn usage_row(id: &[u8], ts: u64, status: u16) -> UsageRecord {
    UsageRecord {
        credential_id: id.to_vec(),
        timestamp: ts,
        tool_name: b"get_activities".to_vec(),
        status_code: status,
        response_time_ms: Some(12),
        request_size_bytes: Some(100),
        response_size_bytes: Some(2000),
    }
}

#[test]
fn issue_then_verify_with_correct_secret_succeeds() {
    // Scenario: a Starter key with the default quota of 1000 per day.
    let mut auth = ApiKeyAuthority::new();
    let (index, secret) = auth.issue(
        &b"user-u".to_vec(),
        &b"ci key".to_vec(),
        ApiKeyTier::Starter,
        None,
        None,
        None,
        NOW,
    );
    let key = auth.key_at(index);
    assert!(key.is_active);
    assert_eq!(key.tier, ApiKeyTier::Starter);
    assert_eq!(key.rate_limit_requests, 1000);
    assert_eq!(key.rate_limit_window_ms, DAY_MS);

    let got = auth.verify(&secret, NOW + 1).expect("correct secret verifies");
    assert_eq!(got, index);
    assert!(auth.key_at(got).is_active);
}

#[test]
fn truncated_secret_with_same_prefix_fails() {
    let mut auth = ApiKeyAuthority::new();
    let (_, secret) = auth.issue(
        &b"user-u".to_vec(),
        &b"k".to_vec(),
        ApiKeyTier::Starter,
        None,
        None,
        None,
        NOW,
    );
    // Shares the full lookup prefix but is one byte short.
    let truncated = secret[..secret.len() - 1].to_vec();
    assert!(truncated.len() > API_KEY_PREFIX_LEN);
    assert_eq!(auth.verify(&truncated, NOW).unwrap_err(), AuthError::InvalidCredential);
    // A same-length secret differing past the prefix fails too.
    let mut altered = secret.clone();
    let last = altered.len() - 1;
    altered[last] = if altered[last] == b'0' { b'1' } else { b'0' };
    assert_eq!(auth.verify(&altered, NOW).unwrap_err(), AuthError::InvalidCredential);
    // So does garbage shorter than the prefix.
    assert_eq!(
        auth.verify(&b"ak_".to_vec(), NOW).unwrap_err(),
        AuthError::InvalidCredential
    );
}

#[test]
fn each_secret_verifies_only_its_own_key() {
    let mut auth = ApiKeyAuthority::new();
    let (i1, s1) = auth.issue(
        &b"u1".to_vec(),
        &b"first".to_vec(),
        ApiKeyTier::Trial,
        None,
        None,
        None,
        NOW,
    );
    let (i2, s2) = auth.issue(
        &b"u2".to_vec(),
        &b"second".to_vec(),
        ApiKeyTier::Enterprise,
        None,
        None,
        None,
        NOW,
    );
    assert_eq!(auth.verify(&s1, NOW).unwrap(), i1);
    assert_eq!(auth.verify(&s2, NOW).unwrap(), i2);
}

#[test]
fn sixth_request_is_rate_limited_and_window_elapse_readmits() {
    // A key with a custom quota of 5 per 1000 ms window.
    let mut auth = ApiKeyAuthority::new();
    let (index, _) = auth.issue(
        &b"user-u".to_vec(),
        &b"tiny quota".to_vec(),
        ApiKeyTier::Professional,
        Some(5),
        Some(1000),
        None,
        NOW,
    );
    let key_id = auth.key_at(index).id.clone();
    let mut ledger = UsageLedger::new();
    for n in 0..5u64 {
        assert!(auth.check_admission(index, &ledger, NOW + n).is_ok());
        ledger.append(usage_row(&key_id, NOW + n, 200));
    }
    // Five admitted requests inside the window: the sixth is refused.
    assert_eq!(
        auth.check_admission(index, &ledger, NOW + 5).unwrap_err(),
        AuthError::RateLimited
    );
    // After the window has passed the old records no longer count.
    assert!(auth.check_admission(index, &ledger, NOW + 2000).is_ok());
}

#[test]
fn window_boundary_is_inclusive_at_start() {
    let mut ledger = UsageLedger::new();
    ledger.append(usage_row(b"k", 10_000, 200));
    // Window [now - w, now]: a record exactly at the start counts.
    assert_eq!(ledger.count_in_window(&b"k".to_vec(), 11_000, 1000), 1);
    // One tick later it has slid out.
    assert_eq!(ledger.count_in_window(&b"k".to_vec(), 11_001, 1000), 0);
    // Records of other credentials never count.
    assert_eq!(ledger.count_in_window(&b"other".to_vec(), 11_000, 1000), 0);
}

#[test]
fn revoke_requires_ownership() {
    let mut auth = ApiKeyAuthority::new();
    let (index, secret) = auth.issue(
        &b"owner".to_vec(),
        &b"k".to_vec(),
        ApiKeyTier::Starter,
        None,
        None,
        None,
        NOW,
    );
    let key_id = auth.key_at(index).id.clone();
    assert_eq!(
        auth.revoke(&key_id, &b"intruder".to_vec()).unwrap_err(),
        AuthError::Unauthorized
    );
    assert!(auth.key_at(index).is_active);
    assert_eq!(
        auth.revoke(&b"no-such-id".to_vec(), &b"owner".to_vec()).unwrap_err(),
        AuthError::InvalidCredential
    );
    auth.revoke(&key_id, &b"owner".to_vec()).expect("owner may revoke");
    assert!(!auth.key_at(index).is_active);
    assert_eq!(auth.verify(&secret, NOW).unwrap_err(), AuthError::Revoked);
}

#[test]
fn expired_key_fails_verification_with_expired() {
    let mut auth = ApiKeyAuthority::new();
    let (_, secret) = auth.issue(
        &b"u".to_vec(),
        &b"k".to_vec(),
        ApiKeyTier::Starter,
        None,
        None,
        Some(NOW + 100),
        NOW,
    );
    assert!(auth.verify(&secret, NOW + 100).is_ok());
    assert_eq!(auth.verify(&secret, NOW + 101).unwrap_err(), AuthError::Expired);
}

#[test]
fn expire_sweep_deactivates_exactly_the_overdue_and_is_idempotent() {
    let mut auth = ApiKeyAuthority::new();
    let (overdue, _) = auth.issue(
        &b"u".to_vec(),
        &b"old".to_vec(),
        ApiKeyTier::Trial,
        None,
        None,
        Some(NOW - 1),
        NOW - DAY_MS,
    );
    let (fresh, _) = auth.issue(
        &b"u".to_vec(),
        &b"new".to_vec(),
        ApiKeyTier::Trial,
        None,
        None,
        Some(NOW + DAY_MS),
        NOW,
    );
    let (everlasting, _) = auth.issue(
        &b"u".to_vec(),
        &b"keep".to_vec(),
        ApiKeyTier::Trial,
        None,
        None,
        None,
        NOW,
    );
    assert_eq!(auth.expire_sweep(NOW), 1);
    assert!(!auth.key_at(overdue).is_active);
    assert!(auth.key_at(fresh).is_active);
    assert!(auth.key_at(everlasting).is_active);
    // Safe to run repeatedly: nothing more to deactivate.
    assert_eq!(auth.expire_sweep(NOW), 0);
}

#[test]
fn tier_quotas_are_ordered_and_names_round_trip() {
    assert_eq!(ApiKeyTier::Trial.default_quota(), 100);
    assert_eq!(ApiKeyTier::Starter.default_quota(), 1000);
    assert_eq!(ApiKeyTier::Professional.default_quota(), 10_000);
    assert_eq!(ApiKeyTier::Enterprise.default_quota(), 100_000);
    for tier in [
        ApiKeyTier::Trial,
        ApiKeyTier::Starter,
        ApiKeyTier::Professional,
        ApiKeyTier::Enterprise,
    ] {
        assert_eq!(ApiKeyTier::from_name(&tier.name()), Some(tier));
    }
    assert_eq!(ApiKeyTier::from_name(b"platinum"), None);
    assert_eq!(ApiKeyTier::Starter.name(), b"starter".to_vec());
}

#[test]
fn custom_overrides_take_precedence_over_tier_defaults() {
    let mut auth = ApiKeyAuthority::new();
    let (index, _) = auth.issue(
        &b"u".to_vec(),
        &b"k".to_vec(),
        ApiKeyTier::Enterprise,
        Some(42),
        Some(60_000),
        None,
        NOW,
    );
    assert_eq!(auth.key_at(index).rate_limit_requests, 42);
    assert_eq!(auth.key_at(index).rate_limit_window_ms, 60_000);
}

#[test]
fn secrets_are_distinct_and_prefixed() {
    let mut auth = ApiKeyAuthority::new();
    let (_, s1) = auth.issue(
        &b"u".to_vec(),
        &b"a".to_vec(),
        ApiKeyTier::Trial,
        None,
        None,
        None,
        NOW,
    );
    let (_, s2) = auth.issue(
        &b"u".to_vec(),
        &b"b".to_vec(),
        ApiKeyTier::Trial,
        None,
        None,
        None,
        NOW,
    );
    assert_ne!(s1, s2);
    assert_eq!(&s1[..3], b"ak_");
    assert_eq!(s1.len(), 67);
}

#[test]
fn filtered_listing_respects_owner_activity_and_paging() {
    let mut auth = ApiKeyAuthority::new();
    for n in 0..4u8 {
        let owner = if n % 2 == 0 { b"alice".to_vec() } else { b"bob".to_vec() };
        auth.issue(&owner, &vec![n], ApiKeyTier::Trial, None, None, None, NOW);
    }
    // Deactivate alice's second key (index 2).
    let id = auth.key_at(2).id.clone();
    auth.revoke(&id, &b"alice".to_vec()).unwrap();

    let all = auth.keys_filtered(None, false, None, 0);
    assert_eq!(all, vec![0, 1, 2, 3]);
    let alice = auth.keys_filtered(Some(&b"alice".to_vec()), false, None, 0);
    assert_eq!(alice, vec![0, 2]);
    let alice_active = auth.keys_filtered(Some(&b"alice".to_vec()), true, None, 0);
    assert_eq!(alice_active, vec![0]);
    let paged = auth.keys_filtered(None, false, Some(2), 1);
    assert_eq!(paged, vec![1, 2]);
    let beyond = auth.keys_filtered(None, false, Some(10), 3);
    assert_eq!(beyond, vec![3]);
    let past_end = auth.keys_filtered(None, false, None, 99);
    assert!(past_end.is_empty());
}

#[test]
fn active_key_count_tracks_revocations() {
    let mut auth = ApiKeyAuthority::new();
    assert_eq!(auth.active_key_count(), 0);
    let (first, _) = auth.issue(&b"u".to_vec(), &b"a".to_vec(), ApiKeyTier::Trial, None, None, None, NOW);
    auth.issue(&b"u".to_vec(), &b"b".to_vec(), ApiKeyTier::Trial, None, None, None, NOW);
    assert_eq!(auth.active_key_count(), 2);
    let id = auth.key_at(first).id.clone();
    auth.revoke(&id, &b"u".to_vec()).unwrap();
    assert_eq!(auth.active_key_count(), 1);
}
