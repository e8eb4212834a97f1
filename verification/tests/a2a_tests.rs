use credential_core::a2a::{A2AEngine, TaskStatus};
use credential_core::errors::AuthError;

const NOW: u64 = 1_700_000_000_000;
const HOUR_MS: u64 = 3_600_000;

fn engine_with_client(caps: &[&[u8]]) -> (A2AEngine, Vec<u8>) {
    let mut engine = A2AEngine::new();
    let capabilities: Vec<Vec<u8>> = caps.iter().map(|c| c.to_vec()).collect();
    let index = engine.register(
        &b"fitness-agent".to_vec(),
        &b"reads activity data".to_vec(),
        &b"public-key-material".to_vec(),
        &capabilities,
        &vec![b"https://agent.example/cb".to_vec()],
        NOW,
    );
    let id = engine.client_at(index).id.clone();
    (engine, id)
}

#[test]
fn grant_within_capabilities_succeeds() {
    let (mut engine, client_id) = engine_with_client(&[b"read", b"write"]);
    let si = engine
        .grant(&client_id, &None, &vec![b"read".to_vec()], 4, NOW)
        .expect("subset grant succeeds");
    let session = engine.session_at(si);
    assert!(session.is_active);
    assert_eq!(session.client_id, client_id);
    assert_eq!(session.granted_scopes, vec![b"read".to_vec()]);
    assert_eq!(session.expires_at, NOW + 4 * HOUR_MS);
    assert!(engine.is_valid(si, NOW + 1));
    assert!(!engine.is_valid(si, NOW + 4 * HOUR_MS));
}

#[test]
fn grant_beyond_capabilities_fails_closed() {
    let (mut engine, client_id) = engine_with_client(&[b"read", b"write"]);
    let refused = engine.grant(
        &client_id,
        &None,
        &vec![b"read".to_vec(), b"admin".to_vec()],
        4,
        NOW,
    );
    assert_eq!(refused.unwrap_err(), AuthError::ScopeViolation);
    // Nothing was stored: the grant failed closed, not clamped.
    let again = engine.grant(&client_id, &None, &vec![b"read".to_vec()], 4, NOW).unwrap();
    assert_eq!(again, 0);
}

#[test]
fn unknown_client_fails_grant() {
    let (mut engine, _) = engine_with_client(&[b"read"]);
    assert_eq!(
        engine
            .grant(&b"a2a_missing".to_vec(), &None, &vec![b"read".to_vec()], 1, NOW)
            .unwrap_err(),
        AuthError::InvalidCredential
    );
}

#[test]
fn revoked_client_cannot_be_granted_sessions() {
    let (mut engine, client_id) = engine_with_client(&[b"read"]);
    engine.revoke_client(&client_id).unwrap();
    assert_eq!(
        engine.grant(&client_id, &None, &vec![b"read".to_vec()], 1, NOW).unwrap_err(),
        AuthError::Revoked
    );
}

#[test]
fn submitting_outside_granted_scopes_fails_with_scope_violation() {
    // Scenario: scopes {read} granted to a client capable of
    // {read, write}; a write task must be refused.
    let (mut engine, client_id) = engine_with_client(&[b"read", b"write"]);
    let si = engine
        .grant(&client_id, &None, &vec![b"read".to_vec()], 4, NOW)
        .unwrap();
    let token = engine.session_at(si).token.clone();
    let refused = engine.submit(&token, &b"write".to_vec(), &b"{}".to_vec(), NOW + 1);
    assert_eq!(refused.unwrap_err(), AuthError::ScopeViolation);
    let allowed = engine.submit(&token, &b"read".to_vec(), &b"{}".to_vec(), NOW + 1);
    assert!(allowed.is_ok());
}

#[test]
fn submit_always_yields_pending() {
    let (mut engine, client_id) = engine_with_client(&[b"read"]);
    let si = engine.grant(&client_id, &None, &vec![b"read".to_vec()], 4, NOW).unwrap();
    let token = engine.session_at(si).token.clone();
    let ti = engine.submit(&token, &b"read".to_vec(), &b"{\"n\":1}".to_vec(), NOW).unwrap();
    let task = engine.task_at(ti);
    assert_eq!(task.status, TaskStatus::Pending);
    assert!(task.result.is_none());
    assert!(task.error.is_none());
}

#[test]
fn task_walks_pending_running_completed_and_stops() {
    let (mut engine, client_id) = engine_with_client(&[b"read"]);
    let si = engine.grant(&client_id, &None, &vec![b"read".to_vec()], 4, NOW).unwrap();
    let token = engine.session_at(si).token.clone();
    let ti = engine.submit(&token, &b"read".to_vec(), &b"{}".to_vec(), NOW).unwrap();
    let task_id = engine.task_at(ti).id.clone();

    // Completing or failing before the task runs is illegal — except
    // the direct Pending -> Failed rejection, tested separately.
    assert_eq!(
        engine.complete(&task_id, &b"r".to_vec(), NOW).unwrap_err(),
        AuthError::InvalidTransition
    );
    engine.start(&task_id, NOW + 1).expect("pending task starts");
    assert_eq!(engine.task_at(ti).status, TaskStatus::Running);
    // A running task cannot start again.
    assert_eq!(engine.start(&task_id, NOW + 2).unwrap_err(), AuthError::InvalidTransition);
    engine.complete(&task_id, &b"42km".to_vec(), NOW + 3).expect("running completes");
    let done = engine.task_at(ti);
    assert_eq!(done.status, TaskStatus::Completed);
    assert_eq!(done.result, Some(b"42km".to_vec()));

    // Terminal: no event moves it, and the result stays what it was.
    assert_eq!(engine.start(&task_id, NOW + 4).unwrap_err(), AuthError::InvalidTransition);
    assert_eq!(
        engine.complete(&task_id, &b"other".to_vec(), NOW + 4).unwrap_err(),
        AuthError::InvalidTransition
    );
    assert_eq!(
        engine.fail(&task_id, &b"e".to_vec(), NOW + 4).unwrap_err(),
        AuthError::InvalidTransition
    );
    assert_eq!(engine.task_at(ti).result, Some(b"42km".to_vec()));
}

#[test]
fn task_can_fail_directly_from_pending_and_is_then_stuck() {
    let (mut engine, client_id) = engine_with_client(&[b"read"]);
    let si = engine.grant(&client_id, &None, &vec![b"read".to_vec()], 4, NOW).unwrap();
    let token = engine.session_at(si).token.clone();
    let ti = engine.submit(&token, &b"read".to_vec(), &b"{}".to_vec(), NOW).unwrap();
    let task_id = engine.task_at(ti).id.clone();
    engine.fail(&task_id, &b"rejected before start".to_vec(), NOW).unwrap();
    let failed = engine.task_at(ti);
    assert_eq!(failed.status, TaskStatus::Failed);
    assert_eq!(failed.error, Some(b"rejected before start".to_vec()));
    assert_eq!(engine.start(&task_id, NOW).unwrap_err(), AuthError::InvalidTransition);
    assert_eq!(
        engine.fail(&task_id, &b"again".to_vec(), NOW).unwrap_err(),
        AuthError::InvalidTransition
    );
}

#[test]
fn unknown_ids_fail_with_invalid_credential() {
    let (mut engine, _) = engine_with_client(&[b"read"]);
    assert_eq!(
        engine.submit(&b"a2as_missing".to_vec(), &b"read".to_vec(), &b"{}".to_vec(), NOW)
            .unwrap_err(),
        AuthError::InvalidCredential
    );
    assert_eq!(
        engine.start(&b"a2at_missing".to_vec(), NOW).unwrap_err(),
        AuthError::InvalidCredential
    );
    assert_eq!(
        engine.touch(&b"a2as_missing".to_vec(), NOW).unwrap_err(),
        AuthError::InvalidCredential
    );
}

#[test]
fn expired_or_revoked_session_cannot_submit() {
    let (mut engine, client_id) = engine_with_client(&[b"read"]);
    let si = engine.grant(&client_id, &None, &vec![b"read".to_vec()], 1, NOW).unwrap();
    let token = engine.session_at(si).token.clone();
    assert_eq!(
        engine
            .submit(&token, &b"read".to_vec(), &b"{}".to_vec(), NOW + HOUR_MS)
            .unwrap_err(),
        AuthError::Expired
    );
    engine.revoke_session(&token).unwrap();
    assert_eq!(
        engine.submit(&token, &b"read".to_vec(), &b"{}".to_vec(), NOW).unwrap_err(),
        AuthError::Revoked
    );
}

#[test]
fn touch_updates_activity_without_extending_expiry() {
    let (mut engine, client_id) = engine_with_client(&[b"read"]);
    let si = engine.grant(&client_id, &None, &vec![b"read".to_vec()], 2, NOW).unwrap();
    let token = engine.session_at(si).token.clone();
    let expiry_before = engine.session_at(si).expires_at;
    engine.touch(&token, NOW + 50).unwrap();
    assert_eq!(engine.session_at(si).last_active_at, NOW + 50);
    assert_eq!(engine.session_at(si).expires_at, expiry_before);
}

#[test]
fn session_may_be_linked_to_a_user() {
    let (mut engine, client_id) = engine_with_client(&[b"read"]);
    let si = engine
        .grant(
            &client_id,
            &Some(b"user-7".to_vec()),
            &vec![b"read".to_vec()],
            1,
            NOW,
        )
        .unwrap();
    assert_eq!(engine.session_at(si).user_id, Some(b"user-7".to_vec()));
}
