use ruma::api::Logout;
use ruma::error::ApiError;
use ruma::server::Homeserver;
use ruma::macaroon::check_framing;
use ruma::token::{bound_caveat, TokenStore};

fn secret_key() -> Vec<u8> {
    vec![7u8; 32]
}

fn server_with_user() -> Homeserver {
    let mut server = Homeserver::new("ruma.test".to_string(), secret_key());
    server.register("@alice:ruma.test".to_string(), &"hunter2".to_string(), &b"0123456789".to_vec()).unwrap();
    server
}

#[test]
fn logout_revokes_access_token() {
    let mut server = server_with_user();
    let access_token = server
        .login(&"@alice:ruma.test".to_string(), &"hunter2".to_string(), "nonce-a".to_string())
        .unwrap();

    assert!(Logout.handle(&mut server, &access_token).is_ok());
    let second = Logout.handle(&mut server, &access_token);
    assert_eq!(second, Err(ApiError::Unauthenticated));
    assert_eq!(second.unwrap_err().status(), 403);
}

#[test]
fn issued_token_verifies_until_revoked() {
    let mut server = server_with_user();
    let token = server
        .login(&"@alice:ruma.test".to_string(), &"hunter2".to_string(), "nonce-b".to_string())
        .unwrap();

    let identity = server.authenticate(&token).unwrap();
    assert_eq!(identity.user_id, "@alice:ruma.test");
    assert_eq!(identity.token_id, 0);

    server.logout(&token).unwrap();
    assert_eq!(server.authenticate(&token).unwrap_err(), ApiError::Unauthenticated);
}

#[test]
fn revoking_twice_leaves_one_revoked_token() {
    let mut store = TokenStore::new();
    let key = secret_key();
    store.issue(&key, &"@bob:ruma.test".to_string(), "n1".to_string()).unwrap();
    store.issue(&key, &"@bob:ruma.test".to_string(), "n2".to_string()).unwrap();

    store.revoke(0);
    store.revoke(0);

    assert!(store.rows[0].revoked);
    assert!(!store.rows[1].revoked);
    assert_eq!(store.rows.len(), 2);
}

#[test]
fn token_signed_with_another_key_is_refused() {
    let mut store = TokenStore::new();
    let token = store.issue(&secret_key(), &"@bob:ruma.test".to_string(), "n1".to_string()).unwrap();

    assert!(store.verify(&secret_key(), &token).is_ok());
    assert_eq!(store.verify(&vec![9u8; 32], &token).unwrap_err(), ApiError::Unauthenticated);
}

#[test]
fn token_value_is_a_signed_structure() {
    let mut store = TokenStore::new();
    let token = store.issue(&secret_key(), &"@bob:ruma.test".to_string(), "n1".to_string()).unwrap();

    assert_ne!(token, "n1");
    assert!(!token.contains("n1"));
    assert_eq!(store.rows[0].value, token);
}

#[test]
fn reused_identifier_is_a_storage_error() {
    let mut store = TokenStore::new();
    let key = secret_key();
    store.issue(&key, &"@bob:ruma.test".to_string(), "n1".to_string()).unwrap();

    let again = store.issue(&key, &"@eve:ruma.test".to_string(), "n1".to_string());

    assert_eq!(again, Err(ApiError::Storage));
    assert_eq!(store.rows.len(), 1);
}

#[test]
fn check_requires_matching_caveat() {
    let mut store = TokenStore::new();
    store.issue(&secret_key(), &"@bob:ruma.test".to_string(), "n1".to_string()).unwrap();

    let good = vec![bound_caveat(&"@bob:ruma.test".to_string())];
    let bad = vec!["user_id = @eve:ruma.test".to_string()];
    assert_eq!(store.check(&"n1".to_string(), &good).unwrap().user_id, "@bob:ruma.test");
    assert_eq!(store.check(&"n1".to_string(), &bad).unwrap_err(), ApiError::Unauthenticated);
    assert_eq!(store.check(&"n2".to_string(), &good).unwrap_err(), ApiError::Unauthenticated);
}

#[test]
fn bound_caveat_names_the_user() {
    assert_eq!(bound_caveat(&"@bob:ruma.test".to_string()), "user_id = @bob:ruma.test");
}

#[test]
fn wrong_password_is_refused() {
    let mut server = server_with_user();

    let result = server.login(&"@alice:ruma.test".to_string(), &"wrong".to_string(), "n".to_string());

    assert_eq!(result, Err(ApiError::Unauthenticated));
    assert_eq!(server.tokens.rows.len(), 0);
}

#[test]
fn unknown_user_is_refused() {
    let mut server = server_with_user();

    let result = server.login(&"@nobody:ruma.test".to_string(), &"hunter2".to_string(), "n".to_string());

    assert_eq!(result, Err(ApiError::Unauthenticated));
}

#[test]
fn deactivated_user_cannot_log_in() {
    let mut server = server_with_user();
    server.deactivate(&"@alice:ruma.test".to_string()).unwrap();

    let result = server.login(&"@alice:ruma.test".to_string(), &"hunter2".to_string(), "n".to_string());

    assert_eq!(result, Err(ApiError::Unauthenticated));
    assert_eq!(server.users.len(), 1);
}

#[test]
fn stored_password_is_hashed() {
    let server = server_with_user();

    assert!(!server.users[0].password_hash.is_empty());
    assert_ne!(server.users[0].password_hash, b"hunter2".to_vec());
}

#[test]
fn short_salt_is_refused() {
    let mut server = Homeserver::new("ruma.test".to_string(), secret_key());

    let result = server.register("@a:ruma.test".to_string(), &"pw".to_string(), &b"short".to_vec());

    assert_eq!(result, Err(ApiError::BadJson));
    assert_eq!(server.users.len(), 0);
}

#[test]
fn duplicate_user_is_refused() {
    let mut server = server_with_user();

    let result = server.register("@alice:ruma.test".to_string(), &"pw".to_string(), &b"0123456789".to_vec());

    assert_eq!(result, Err(ApiError::Storage));
}

#[test]
fn error_codes_and_statuses() {
    assert_eq!(ApiError::Unauthenticated.errcode(), "M_FORBIDDEN");
    assert_eq!(ApiError::BadJson.errcode(), "M_BAD_JSON");
    assert_eq!(ApiError::AliasTaken.errcode(), "M_ROOM_IN_USE");
    assert_eq!(ApiError::Storage.errcode(), "M_UNKNOWN");
    assert_eq!(ApiError::BadJson.status(), 400);
    assert_eq!(ApiError::AliasTaken.status(), 409);
    assert_eq!(ApiError::Storage.status(), 500);
}

#[test]
fn malformed_tokens_are_refused_without_panicking() {
    let mut server = server_with_user();
    server.login(&"@alice:ruma.test".to_string(), &"hunter2".to_string(), "nonce-c".to_string()).unwrap();

    for token in ["", "AA", "AAAA", "MDAwMA", "ZmZmZg", "not base64!", "MDAyMGlkZW50aWZpZXIgeAo", "MDAwZmxvY2F0aW9uIHgK"] {
        assert_eq!(server.authenticate(token).unwrap_err(), ApiError::Unauthenticated);
        assert_eq!(server.logout(token), Err(ApiError::Unauthenticated));
    }
    assert!(!server.tokens.rows[0].revoked);
}

#[test]
fn framing_check_follows_packet_lengths() {
    assert!(check_framing(&b"0011identifier x\n".to_vec()));
    assert!(check_framing(&b"0011identifier x\n0004".to_vec()));
    assert!(!check_framing(&b"000flocation x\n".to_vec()));
    assert!(!check_framing(&b"0005x0004".to_vec()));
    assert!(!check_framing(&b"".to_vec()));
    assert!(!check_framing(&b"0003x".to_vec()));
    assert!(!check_framing(&b"0009x".to_vec()));
    assert!(!check_framing(&b"00g4".to_vec()));
    assert!(!check_framing(&b"0011identifier x\n0003".to_vec()));
}

#[test]
fn issued_tokens_are_readable() {
    let mut store = TokenStore::new();
    let token = store.issue(&secret_key(), &"@bob:ruma.test".to_string(), "n1".to_string()).unwrap();

    assert!(ruma::macaroon::token_readable(&token));
    assert!(!ruma::macaroon::token_readable(""));
}
