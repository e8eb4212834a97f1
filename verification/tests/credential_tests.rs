use credential_core::a2a::A2AEngine;
use credential_core::admin::AdminAuthority;
use credential_core::apikey::{ApiKeyAuthority, ApiKeyTier};
use credential_core::credential::{verify_credential, Credential, VerifiedCredential};
use credential_core::errors::AuthError;

const NOW: u64 = 1_700_000_000_000;

#[test]
fn each_credential_class_dispatches_to_its_authority() {
    let mut api_keys = ApiKeyAuthority::new();
    let mut admins = AdminAuthority::new();
    let mut engine = A2AEngine::new();

    let (key_index, key_secret) = api_keys.issue(
        &b"user".to_vec(),
        &b"k".to_vec(),
        ApiKeyTier::Starter,
        None,
        None,
        None,
        NOW,
    );
    let (admin_index, admin_token) = admins.issue(&b"svc".to_vec(), None, false, None, NOW);
    let client_index = engine.register(
        &b"agent".to_vec(),
        &b"d".to_vec(),
        &b"pk".to_vec(),
        &vec![b"read".to_vec()],
        &vec![],
        NOW,
    );
    let client_id = engine.client_at(client_index).id.clone();
    let session_index = engine
        .grant(&client_id, &None, &vec![b"read".to_vec()], 2, NOW)
        .unwrap();
    let session_token = engine.session_at(session_index).token.clone();

    assert_eq!(
        verify_credential(&Credential::ApiKey(key_secret.clone()), &api_keys, &admins, &engine, NOW),
        Ok(VerifiedCredential::ApiKey(key_index))
    );
    assert_eq!(
        verify_credential(&Credential::AdminToken(admin_token.clone()), &api_keys, &admins, &engine, NOW),
        Ok(VerifiedCredential::AdminToken(admin_index))
    );
    assert_eq!(
        verify_credential(
            &Credential::AgentSession(session_token.clone()),
            &api_keys,
            &admins,
            &engine,
            NOW
        ),
        Ok(VerifiedCredential::AgentSession(session_index))
    );

    // A secret of one class never verifies as another class.
    assert_eq!(
        verify_credential(&Credential::AdminToken(key_secret), &api_keys, &admins, &engine, NOW),
        Err(AuthError::InvalidCredential)
    );
    assert_eq!(
        verify_credential(&Credential::ApiKey(admin_token), &api_keys, &admins, &engine, NOW),
        Err(AuthError::InvalidCredential)
    );

    // An expired session surfaces its class's own error.
    assert_eq!(
        verify_credential(
            &Credential::AgentSession(session_token),
            &api_keys,
            &admins,
            &engine,
            NOW + 3 * 3_600_000
        ),
        Err(AuthError::Expired)
    );
}
