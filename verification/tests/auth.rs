use wolfram::auth::accounts::{
    check_credentials, hash_password, new_account, new_user, LoginOutcome, User,
    UNKNOWN_USER_DELAY_MS,
};
use wolfram::auth::error::Error;
use wolfram::auth::jwt::JWT_VALIDITY_SECS;

fn user_with_hash(hash: &str) -> User {
    User {
        id: 7,
        username: "alice".to_string(),
        email: None,
        password_hash: hash.to_string(),
        is_admin: false,
        created_at: 0,
        updated_at: 0,
    }
}

#[test]
fn registered_password_logs_in() {
    let hash = hash_password("hunter42").unwrap();
    assert!(hash.starts_with("$argon2id$"));
    match check_credentials(Some(user_with_hash(&hash)), "hunter42") {
        LoginOutcome::Authenticated(u) => assert_eq!(u.username, "alice"),
        LoginOutcome::Denied { error, .. } => panic!("denied: {:?}", error),
    }
}

#[test]
fn wrong_password_is_refused_without_delay() {
    let hash = hash_password("hunter42").unwrap();
    match check_credentials(Some(user_with_hash(&hash)), "hunter43") {
        LoginOutcome::Denied { error: Error::InvalidCredentials, delay_ms } => assert_eq!(delay_ms, 0),
        other => panic!("unexpected {:?}", other),
    }
}

#[test]
fn unknown_user_is_refused_after_delay() {
    match check_credentials(None, "anything") {
        LoginOutcome::Denied { error: Error::InvalidCredentials, delay_ms } => {
            assert_eq!(delay_ms, UNKNOWN_USER_DELAY_MS);
            assert_eq!(delay_ms, 80);
        }
        other => panic!("unexpected {:?}", other),
    }
}

#[test]
fn malformed_stored_hash_is_reported() {
    match check_credentials(Some(user_with_hash("not a phc string")), "pw") {
        LoginOutcome::Denied { error: Error::CustomContext(m), delay_ms } => {
            assert!(!m.is_empty());
            assert_eq!(delay_ms, 0);
        }
        other => panic!("unexpected {:?}", other),
    }
}

#[test]
fn hashes_are_salted() {
    let a = hash_password("same").unwrap();
    let b = hash_password("same").unwrap();
    assert_ne!(a, b);
}

#[test]
fn new_user_and_account_rows() {
    let email = "a@b.c".to_string();
    let u = new_user("bob", Some(&email), "pw1", true).unwrap();
    assert_eq!(u.username, "bob");
    assert_eq!(u.email.as_deref(), Some("a@b.c"));
    assert!(u.is_admin);
    assert_eq!((u.id >> 76) & 0xF, 4);
    match check_credentials(
        Some(User {
            id: u.id,
            username: u.username.clone(),
            email: u.email.clone(),
            password_hash: u.password_hash.clone(),
            is_admin: u.is_admin,
            created_at: 0,
            updated_at: 0,
        }),
        "pw1",
    ) {
        LoginOutcome::Authenticated(_) => {}
        other => panic!("unexpected {:?}", other),
    }
    let a = new_account(&email, &"pw2".to_string(), false).unwrap();
    assert_eq!(a.email, "a@b.c");
    assert!(!a.is_admin);
    assert_ne!(a.id, u.id);
    let v = new_user("carol", None, "pw3", false).unwrap();
    assert!(v.email.is_none());
}

#[test]
fn access_tokens_last_two_hours() {
    assert_eq!(JWT_VALIDITY_SECS, 2 * 60 * 60);
}
