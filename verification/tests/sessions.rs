use sharinflame::session::{
    authenticate, authenticate_at, check_session_secret, create_tokens, issue_token_pair,
    remove_session, rotate_token_pair, update_tokens, AuthError, SecretStore,
};
use sharinflame::snowflake::SnowflakeGenerator;

const KEY: &str = "session-test-key";
const NOW: u64 = 1800000000;

#[test]
fn login_refresh_revoke_scenario() {
    let mut store = SecretStore::new();

    // login: both tokens carry the fresh session id and secret
    let pair = issue_token_pair("u1", "abcsecret", "s1", KEY, NOW, &mut store);
    assert!(check_session_secret("u1", "s1", "abcsecret", &store));

    // the access token authenticates
    let session = authenticate_at(&pair.access, Some("access"), KEY, NOW + 5, &store).unwrap();
    assert_eq!(session.user_id, "u1");
    assert_eq!(session.session_id, "s1");

    // the refresh token authenticates as a refresh token
    let session = authenticate_at(&pair.refresh, Some("refresh"), KEY, NOW + 5, &store).unwrap();
    assert_eq!(session.session_id, "s1");

    // refresh rotates the secret in place: same session id, new secret
    let new_pair = rotate_token_pair("u1", "s1", "newsecret", KEY, NOW + 10, &mut store);
    assert!(check_session_secret("u1", "s1", "newsecret", &store));
    assert!(!check_session_secret("u1", "s1", "abcsecret", &store));

    // the access token from before the refresh is revoked, though it is
    // unexpired and validly signed
    let err = authenticate_at(&pair.access, Some("access"), KEY, NOW + 20, &store).unwrap_err();
    assert_eq!(err, AuthError::StaleSecret);

    // the newly issued access token works
    let session = authenticate_at(&new_pair.access, Some("access"), KEY, NOW + 20, &store).unwrap();
    assert_eq!(session.user_id, "u1");
    assert_eq!(session.session_id, "s1");
}

#[test]
fn logout_revokes_tokens() {
    let mut store = SecretStore::new();
    let pair = issue_token_pair("u2", "sec", "s9", KEY, NOW, &mut store);
    remove_session("s9", "u2", &mut store);
    let err = authenticate_at(&pair.access, Some("access"), KEY, NOW + 1, &store).unwrap_err();
    assert_eq!(err, AuthError::StaleSecret);
    assert!(!check_session_secret("u2", "s9", "sec", &store));
}

#[test]
fn refresh_token_rejected_as_access() {
    let mut store = SecretStore::new();
    let pair = issue_token_pair("u3", "sec", "s3", KEY, NOW, &mut store);
    let err = authenticate_at(&pair.refresh, Some("access"), KEY, NOW + 1, &store).unwrap_err();
    assert_eq!(err, AuthError::WrongTokenKind);
}

#[test]
fn expired_access_token_rejected() {
    let mut store = SecretStore::new();
    let pair = issue_token_pair("u4", "sec", "s4", KEY, NOW, &mut store);
    let err = authenticate_at(&pair.access, Some("access"), KEY, NOW + 3601, &store).unwrap_err();
    assert_eq!(err, AuthError::ExpiredToken);
    // the refresh token lives much longer
    assert!(authenticate_at(&pair.refresh, Some("refresh"), KEY, NOW + 3601, &store).is_ok());
}

#[test]
fn garbage_tokens_rejected() {
    let store = SecretStore::new();
    assert_eq!(
        authenticate_at("nonsense", Some("access"), KEY, NOW, &store).unwrap_err(),
        AuthError::MalformedToken
    );
    assert_eq!(
        authenticate_at("LV abc.def", Some("access"), KEY, NOW, &store).unwrap_err(),
        AuthError::InvalidSignature
    );
}

#[test]
fn rotate_on_unknown_session_stores_nothing() {
    let mut store = SecretStore::new();
    let _pair = rotate_token_pair("nobody", "s0", "sec", KEY, NOW, &mut store);
    assert!(store.get("nobody", "s0").is_none());
}

#[test]
fn store_updates_in_place() {
    let mut store = SecretStore::new();
    store.put("u", "s", "one".to_string());
    store.put("u", "s", "two".to_string());
    assert_eq!(store.get("u", "s").unwrap(), "two");
    store.put("u", "t", "other".to_string());
    assert_eq!(store.get("u", "t").unwrap(), "other");
    store.delete("u", "s");
    assert!(store.get("u", "s").is_none());
    assert_eq!(store.get("u", "t").unwrap(), "other");
    store.delete("u", "missing");
    assert_eq!(store.get("u", "t").unwrap(), "other");
}

#[test]
fn create_and_update_tokens_against_real_collaborators() {
    let mut store = SecretStore::new();
    let mut generator = SnowflakeGenerator::new(0, 1);

    let pair = create_tokens("u7", &mut generator, &mut store, KEY).expect("random and clock work");
    let session = authenticate(&pair.access, Some("access"), KEY, &store).unwrap();
    assert_eq!(session.user_id, "u7");
    assert!(store.get("u7", session.session_id.as_str()).is_some());

    let new_pair = update_tokens("u7", session.session_id.as_str(), &mut store, KEY).unwrap();
    let err = authenticate(&pair.access, Some("access"), KEY, &store).unwrap_err();
    assert_eq!(err, AuthError::StaleSecret);
    let again = authenticate(&new_pair.access, Some("access"), KEY, &store).unwrap();
    assert_eq!(again.session_id, session.session_id);
}
