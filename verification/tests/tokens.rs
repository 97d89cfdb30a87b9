use wolfram::auth::error::Error;
use wolfram::auth::rotation::{Rotation, RotationAction, RotationEvent, RotationStage};
use wolfram::auth::tokens::{
    generate_random_secure_token, issue_refresh_token, issue_refresh_token_at, new_refresh_token,
    RefreshToken, Timestamp,
    REFRESH_TOKEN_LIFETIME_MICROS,
};
use wolfram::config::IpAddress;

fn at(micros: i64, sub_micro_nanos: u32) -> Timestamp {
    Timestamp { micros, sub_micro_nanos }
}

fn is_url_safe(c: char) -> bool {
    c.is_ascii_alphanumeric() || c == '-' || c == '_'
}

/// The digest that a stored token keeps of `token`.
fn digest(token: &str) -> String {
    new_refresh_token(0, 0, token, None, None, 0).token_hash
}

#[test]
fn stored_digest_is_lowercase_hex_sha256() {
    assert_eq!(
        digest("hello"),
        "2cf24dba5fb0a30e26e83b2ac5b9e29e1b161e5c1fa7425e73043362938b9824"
    );
    assert_eq!(digest("").len(), 64);
}

#[test]
fn random_tokens_have_the_encoded_length() {
    for (n, len) in [(0usize, 0usize), (1, 2), (2, 3), (3, 4), (32, 43)] {
        let t = generate_random_secure_token(n);
        assert_eq!(t.len(), len);
        assert!(t.chars().all(is_url_safe));
    }
    assert_ne!(generate_random_secure_token(32), generate_random_secure_token(32));
}

#[test]
fn new_refresh_token_expires_a_week_later() {
    let row = new_refresh_token(1, 2, "tok", Some(IpAddress::V4(1)), Some("agent".to_string()), 1_000);
    assert_eq!(row.id, 1);
    assert_eq!(row.user_id, 2);
    assert_eq!(row.token_hash, digest("tok"));
    assert_eq!(row.ip_address, Some(IpAddress::V4(1)));
    assert_eq!(row.user_agent.as_deref(), Some("agent"));
    assert_eq!(row.expires_at, 1_000 + 7 * 24 * 3600 * 1_000_000);
}

#[test]
fn issued_token_row_stores_its_digest() {
    let issued = issue_refresh_token(9, None, None);
    assert_eq!(issued.token.len(), 43);
    assert!(issued.token.chars().all(is_url_safe));
    assert_eq!(issued.row.token_hash, digest(&issued.token));
    assert_eq!(issued.row.user_id, 9);
    assert!(issued.row.expires_at >= REFRESH_TOKEN_LIFETIME_MICROS);
}

fn stored(id: u128, user: u128, expires_at: i64, revoked_at: Option<i64>) -> RefreshToken {
    RefreshToken {
        id,
        user_id: user,
        token_hash: digest("old"),
        ip_address: Some(IpAddress::V6(1)),
        user_agent: Some("ua".to_string()),
        expires_at,
        revoked_at,
        replaced_by_token_id: None,
        created_at: 0,
    }
}

fn auth_error_text(a: RotationAction) -> String {
    match a {
        RotationAction::Finish(Err(Error::AuthError(t))) => t,
        other => panic!("unexpected {:?}", other),
    }
}

#[test]
fn rotation_starts_by_fetching_the_digest() {
    let (r, a) = Rotation::start("old");
    assert!(matches!(r.stage, RotationStage::Fetching));
    match a {
        RotationAction::FetchForUpdate(h) => assert_eq!(h, digest("old")),
        other => panic!("unexpected {:?}", other),
    }
}

#[test]
fn rotation_of_unknown_token_fails() {
    let (mut r, _) = Rotation::start("old");
    let a = r.step(RotationEvent::Fetched(None), at(100, 0));
    assert_eq!(auth_error_text(a), "Token Not Found");
    assert!(matches!(r.stage, RotationStage::Finished));
}

#[test]
fn rotation_of_expired_token_fails() {
    let (mut r, _) = Rotation::start("old");
    let a = r.step(RotationEvent::Fetched(Some(stored(1, 2, 99, None))), at(100, 0));
    assert_eq!(auth_error_text(a), "Token Expired");
}

#[test]
fn token_expiring_now_still_rotates() {
    let (mut r, _) = Rotation::start("old");
    let a = r.step(RotationEvent::Fetched(Some(stored(1, 2, 100, None))), at(100, 0));
    assert!(matches!(a, RotationAction::Insert(_)));
}

#[test]
fn token_expired_within_the_current_microsecond_fails() {
    let (mut r, _) = Rotation::start("old");
    let a = r.step(RotationEvent::Fetched(Some(stored(1, 2, 100, None))), at(100, 1));
    assert_eq!(auth_error_text(a), "Token Expired");
}

#[test]
fn replayed_token_purges_the_users_tokens() {
    let (mut r, _) = Rotation::start("old");
    let a = r.step(RotationEvent::Fetched(Some(stored(1, 2, 1_000, Some(5)))), at(100, 0));
    assert!(matches!(a, RotationAction::DeleteUserTokens(2)));
    assert!(r.accepts(&RotationEvent::Done));
    assert!(!r.accepts(&RotationEvent::RowsAffected(1)));
    let a = r.step(RotationEvent::Done, at(100, 0));
    assert!(matches!(a, RotationAction::Commit));
    let a = r.step(RotationEvent::Done, at(100, 0));
    assert_eq!(auth_error_text(a), "Token Already revoked. (Token Theft)");
    assert!(!r.accepts(&RotationEvent::Done));
}

#[test]
fn rotation_issues_a_successor() {
    let (mut r, _) = Rotation::start("old");
    let a = r.step(RotationEvent::Fetched(Some(stored(1, 2, 1_000, None))), at(100, 0));
    let row = match a {
        RotationAction::Insert(row) => row,
        other => panic!("unexpected {:?}", other),
    };
    assert_eq!(row.user_id, 2);
    assert_eq!(row.ip_address, Some(IpAddress::V6(1)));
    assert_eq!(row.user_agent.as_deref(), Some("ua"));
    assert_eq!(row.expires_at, 100 + REFRESH_TOKEN_LIFETIME_MICROS);
    let a = r.step(RotationEvent::Done, at(100, 0));
    match a {
        RotationAction::Revoke { id, replaced_by } => {
            assert_eq!(id, 1);
            assert_eq!(replaced_by, row.id);
        }
        other => panic!("unexpected {:?}", other),
    }
    let a = r.step(RotationEvent::RowsAffected(1), at(100, 0));
    assert!(matches!(a, RotationAction::Commit));
    let a = r.step(RotationEvent::Done, at(100, 0));
    match a {
        RotationAction::Finish(Ok(t)) => {
            assert_eq!(t.len(), 43);
            assert_eq!(digest(&t), row.token_hash);
        }
        other => panic!("unexpected {:?}", other),
    }
}

#[test]
fn concurrent_rotation_is_detected() {
    let (mut r, _) = Rotation::start("old");
    r.step(RotationEvent::Fetched(Some(stored(1, 2, 1_000, None))), at(100, 0));
    r.step(RotationEvent::Done, at(100, 0));
    let a = r.step(RotationEvent::RowsAffected(0), at(100, 0));
    assert_eq!(auth_error_text(a), "Concurrent rotation detected");
}

#[test]
fn issued_token_is_found_and_rotates() {
    let issued = issue_refresh_token(7, None, Some("agent".to_string()));
    let (mut r, lookup) = Rotation::start(&issued.token);
    match lookup {
        RotationAction::FetchForUpdate(h) => assert_eq!(h, issued.row.token_hash),
        other => panic!("unexpected {:?}", other),
    }
    let row = issued.row;
    let found = RefreshToken {
        id: row.id,
        user_id: row.user_id,
        token_hash: row.token_hash,
        ip_address: row.ip_address,
        user_agent: row.user_agent,
        expires_at: row.expires_at,
        revoked_at: None,
        replaced_by_token_id: None,
        created_at: 0,
    };
    let now = row.expires_at - REFRESH_TOKEN_LIFETIME_MICROS;
    match r.step(RotationEvent::Fetched(Some(found)), at(now, 0)) {
        RotationAction::Insert(n) => {
            assert_eq!(n.user_id, 7);
            assert_eq!(n.expires_at, now + REFRESH_TOKEN_LIFETIME_MICROS);
        }
        other => panic!("unexpected {:?}", other),
    }
    assert!(matches!(r.stage, RotationStage::Inserting { .. }));
}

fn copy_row(r: &RefreshToken) -> RefreshToken {
    RefreshToken {
        id: r.id,
        user_id: r.user_id,
        token_hash: r.token_hash.clone(),
        ip_address: r.ip_address,
        user_agent: r.user_agent.clone(),
        expires_at: r.expires_at,
        revoked_at: r.revoked_at,
        replaced_by_token_id: r.replaced_by_token_id,
        created_at: r.created_at,
    }
}

fn copy_table(t: &[RefreshToken]) -> Vec<RefreshToken> {
    t.iter().map(copy_row).collect()
}

/// Runs a rotation of `token` against an in-memory table, inside a
/// transaction that only a commit keeps.
fn rotate_in(table: &mut Vec<RefreshToken>, token: &str, now: Timestamp) -> Result<String, Error> {
    let mut work = copy_table(table);
    let (mut r, mut action) = Rotation::start(token);
    loop {
        let event = match action {
            RotationAction::FetchForUpdate(h) => {
                RotationEvent::Fetched(work.iter().find(|x| x.token_hash == h).map(copy_row))
            }
            RotationAction::DeleteUserTokens(u) => {
                work.retain(|x| x.user_id != u);
                RotationEvent::Done
            }
            RotationAction::Insert(n) => {
                work.push(RefreshToken {
                    id: n.id,
                    user_id: n.user_id,
                    token_hash: n.token_hash,
                    ip_address: n.ip_address,
                    user_agent: n.user_agent,
                    expires_at: n.expires_at,
                    revoked_at: None,
                    replaced_by_token_id: None,
                    created_at: now.micros,
                });
                RotationEvent::Done
            }
            RotationAction::Revoke { id, replaced_by } => {
                let mut changed = 0u64;
                for x in work.iter_mut() {
                    if x.id == id && x.revoked_at.is_none() {
                        x.revoked_at = Some(now.micros);
                        x.replaced_by_token_id = Some(replaced_by);
                        changed += 1;
                    }
                }
                RotationEvent::RowsAffected(changed)
            }
            RotationAction::Commit => {
                *table = copy_table(&work);
                RotationEvent::Done
            }
            RotationAction::Finish(result) => return result,
        };
        assert!(r.accepts(&event));
        action = r.step(event, now);
    }
}

#[test]
fn replay_after_exchange_is_theft_and_kills_the_successor() {
    let issued = issue_refresh_token(7, None, None);
    let mut table = vec![
        RefreshToken {
            id: issued.row.id,
            user_id: 7,
            token_hash: issued.row.token_hash.clone(),
            ip_address: None,
            user_agent: None,
            expires_at: issued.row.expires_at,
            revoked_at: None,
            replaced_by_token_id: None,
            created_at: 0,
        },
        stored(99, 8, 1_000, None),
    ];
    let now = at(issued.row.expires_at - REFRESH_TOKEN_LIFETIME_MICROS, 0);
    let successor = rotate_in(&mut table, &issued.token, now).unwrap();
    assert_ne!(successor, issued.token);
    assert_eq!(table.len(), 3);
    assert_eq!(table[0].replaced_by_token_id, Some(table[2].id));
    assert!(table[0].revoked_at.is_some());
    assert_eq!(table[2].user_id, 7);
    assert_eq!(table[2].token_hash, digest(&successor));
    assert!(table[2].revoked_at.is_none());
    match rotate_in(&mut table, &issued.token, now) {
        Err(Error::AuthError(t)) => assert_eq!(t, "Token Already revoked. (Token Theft)"),
        other => panic!("unexpected {:?}", other),
    }
    assert_eq!(table.len(), 1);
    assert_eq!(table[0].user_id, 8);
    match rotate_in(&mut table, &successor, now) {
        Err(Error::AuthError(t)) => assert_eq!(t, "Token Not Found"),
        other => panic!("unexpected {:?}", other),
    }
}

#[test]
fn token_issued_at_an_instant_expires_a_week_later_and_rotates() {
    let issued = issue_refresh_token_at(5, Some(IpAddress::V4(9)), Some("ua".to_string()), at(1_000, 999));
    assert_eq!(issued.row.expires_at, 1_000 + REFRESH_TOKEN_LIFETIME_MICROS);
    assert_eq!(issued.row.token_hash, digest(&issued.token));
    assert_eq!(issued.token.len(), 43);
    let mut table = vec![RefreshToken {
        id: issued.row.id,
        user_id: 5,
        token_hash: issued.row.token_hash.clone(),
        ip_address: issued.row.ip_address,
        user_agent: issued.row.user_agent.clone(),
        expires_at: issued.row.expires_at,
        revoked_at: None,
        replaced_by_token_id: None,
        created_at: 1_000,
    }];
    let later = at(1_000 + REFRESH_TOKEN_LIFETIME_MICROS, 0);
    let next = rotate_in(&mut table, &issued.token, later).unwrap();
    assert_eq!(table.len(), 2);
    assert_eq!(table[1].user_id, 5);
    assert_eq!(table[1].token_hash, digest(&next));
    assert_eq!(table[1].ip_address, Some(IpAddress::V4(9)));
    assert_eq!(table[1].user_agent.as_deref(), Some("ua"));
    assert_eq!(table[1].expires_at, later.micros + REFRESH_TOKEN_LIFETIME_MICROS);
    assert!(table[1].revoked_at.is_none());
    assert_eq!(table[0].replaced_by_token_id, Some(table[1].id));
    // One nanosecond past the week, the same token would have expired.
    let mut fresh = vec![copy_row(&table[1])];
    fresh[0].expires_at = 2_000;
    fresh[0].token_hash = digest(&next);
    match rotate_in(&mut fresh, &next, at(2_000, 1)) {
        Err(Error::AuthError(t)) => assert_eq!(t, "Token Expired"),
        other => panic!("unexpected {:?}", other),
    }
}
