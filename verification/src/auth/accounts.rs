//! Accounts: hashing a new password, and checking a login against the stored
//! hash.
use argon2::{PasswordHasher, PasswordVerifier};
use vstd::prelude::*;

use crate::auth::error::Error;
use crate::ids::{is_v4_uuid, new_uuid};

verus! {

/// What `argon2::PasswordHash::new` gives for a PHC string: nothing where it
/// parses, the parser's message where it does not.
pub uninterp spec fn phc_parse_error(phc: Seq<char>) -> Option<Seq<char>>;

/// Whether `Argon2::default().verify_password` accepts `password` for the PHC
/// string `phc`.
pub uninterp spec fn password_verifies(password: Seq<char>, phc: Seq<char>) -> bool;

/// Calls `argon2::PasswordHash::new` on a stored hash: `None` where it parses,
/// the parser's error message (`to_string`) where it does not.
#[verifier::external_body]
fn phc_check(phc: &str) -> (r: Option<String>)
    ensures
        match r {
            None => phc_parse_error(phc@) is None,
            Some(m) => phc_parse_error(phc@) == Some(m@),
        },
{
    match argon2::PasswordHash::new(phc) {
        Ok(_) => None,
        Err(e) => Some(e.to_string()),
    }
}

/// Calls `Argon2::default().verify_password` with the password's bytes and the
/// PHC string; true where it returns `Ok`.
#[verifier::external_body]
fn argon2_verify(password: &str, phc: &str) -> (ok: bool)
    ensures
        ok == password_verifies(password@, phc@),
{
    argon2::Argon2::default().verify_password(password.as_bytes(), phc).is_ok()
}

/// Why hashing a password with the default Argon2 may fail, as the error's
/// message: the random source failed (`RngFailure`), the memory blocks could
/// not be allocated (`OutOfMemory`), or the password is longer than Argon2
/// takes (`PwdTooLong`, over `u32::MAX` bytes, so over a quarter of that in
/// characters).
pub open spec fn hash_failure(message: Seq<char>, password: Seq<char>) -> bool {
    ||| message == "rng failure"@
    ||| message == "out of memory"@
    ||| (message == "invalid password"@ && password.len() > 0x3FFF_FFFF)
}

/// Calls `Argon2::default().hash_password` (a fresh random salt each time) and
/// gives back the PHC string (`to_string`) of the hash, or the error's message.
/// The claims are that
/// such a string parses again and that `verify_password` accepts the same
/// password for it, as `verify_password` recomputes the hash with the salt and
/// parameters the string records; and that with the default parameters the
/// only errors are a failed random source, a failed allocation, and a password
/// over `u32::MAX` bytes, whose messages (`Display` of `password_hash::Error`)
/// `hash_failure` lists. The salt, hence the string, is random.
#[verifier::external_body]
fn argon2_hash(password: &str) -> (r: Result<String, String>)
    ensures
        r matches Ok(h) ==> phc_parse_error(h@) is None && password_verifies(password@, h@),
        r matches Err(m) ==> hash_failure(m@, password@),
{
    match argon2::Argon2::default().hash_password(password.as_bytes()) {
        Ok(h) => Ok(h.to_string()),
        Err(e) => Err(e.to_string()),
    }
}

/// A stored hash that logs in `password`: it parses, and verifies `password`.
pub open spec fn hash_admits(password: Seq<char>, phc: Seq<char>) -> bool {
    phc_parse_error(phc) is None && password_verifies(password, phc)
}

/// Hashes a password with Argon2 under a fresh random salt, as a PHC string.
pub fn hash_password(password: &str) -> (r: Result<String, Error>)
    ensures
        r matches Ok(h) ==> hash_admits(password@, h@),
        r matches Err(e) ==> e matches Error::PasswordHashError(m) && hash_failure(m@, password@),
{
    match argon2_hash(password) {
        Ok(h) => Ok(h),
        Err(e) => Err(Error::PasswordHashError(e)),
    }
}

/// A user as stored.
#[derive(Debug)]
pub struct User {
    pub id: u128,
    pub username: String,
    pub email: Option<String>,
    pub password_hash: String,
    pub is_admin: bool,
    /// Microseconds since the epoch.
    pub created_at: i64,
    /// Microseconds since the epoch.
    pub updated_at: i64,
}

/// The row of a new user, to be inserted.
#[derive(Debug)]
pub struct NewUser {
    pub id: u128,
    pub username: String,
    pub email: Option<String>,
    pub password_hash: String,
    pub is_admin: bool,
}

/// The row of a new account (without username), to be inserted.
#[derive(Debug)]
pub struct NewAccount {
    pub id: u128,
    pub email: String,
    pub password_hash: String,
    pub is_admin: bool,
}

/// The optional text as a value.
pub open spec fn opt_view(o: Option<String>) -> Option<Seq<char>> {
    match o {
        Some(s) => Some(s@),
        None => None,
    }
}

/// A copy of an optional string.
pub fn copy_opt(o: Option<&String>) -> (r: Option<String>)
    ensures
        match o {
            Some(s) => r matches Some(t) && t@ == s@,
            None => r is None,
        },
{
    match o {
        Some(s) => Some(s.clone()),
        None => None,
    }
}

/// The row of a new user: a fresh random id, the given name, email and
/// role, and the Argon2 hash of the password. Fails only where hashing fails.
pub fn new_user(username: &str, email: Option<&String>, password: &str, is_admin: bool) -> (r:
    Result<NewUser, Error>)
    ensures
        r matches Ok(u) ==> {
            &&& is_v4_uuid(u.id)
            &&& u.username@ == username@
            &&& match email {
                Some(e) => u.email matches Some(t) && t@ == e@,
                None => u.email is None,
            }
            &&& u.is_admin == is_admin
            &&& hash_admits(password@, u.password_hash@)
        },
        r matches Err(e) ==> e matches Error::PasswordHashError(m) && hash_failure(m@, password@),
{
    let id = new_uuid();
    let password_hash = hash_password(password)?;
    Ok(
        NewUser {
            id,
            username: username.to_owned(),
            email: copy_opt(email),
            password_hash,
            is_admin,
        },
    )
}

/// The row of a new account: a fresh random id, the given email and role, and
/// the Argon2 hash of the password. Fails only where hashing fails.
pub fn new_account(email: &String, password: &String, is_admin: bool) -> (r: Result<
    NewAccount,
    Error,
>)
    ensures
        r matches Ok(a) ==> {
            &&& is_v4_uuid(a.id)
            &&& a.email@ == email@
            &&& a.is_admin == is_admin
            &&& hash_admits(password@, a.password_hash@)
        },
        r matches Err(e) ==> e matches Error::PasswordHashError(m) && hash_failure(m@, password@),
{
    let id = new_uuid();
    let password_hash = hash_password(password.as_str())?;
    Ok(NewAccount { id, email: email.clone(), password_hash, is_admin })
}

/// How long to wait before refusing a login for an unknown user, in
/// milliseconds.
pub const UNKNOWN_USER_DELAY_MS: u64 = 80;

/// The result of a login attempt.
#[derive(Debug)]
pub enum LoginOutcome {
    /// The password is right: the user.
    Authenticated(User),
    /// The login is refused with `error`, answered after `delay_ms`
    /// milliseconds.
    Denied { error: Error, delay_ms: u64 },
}

/// The verdict of a login, as a value.
pub enum LoginVerdict {
    Accept,
    UnknownUser,
    MalformedHash(Seq<char>),
    WrongPassword,
}

/// What a login with `password` against the stored hash (if the user exists)
/// gives.
pub open spec fn login_verdict(stored_hash: Option<Seq<char>>, password: Seq<char>) -> LoginVerdict {
    match stored_hash {
        None => LoginVerdict::UnknownUser,
        Some(h) => match phc_parse_error(h) {
            Some(m) => LoginVerdict::MalformedHash(m),
            None => if password_verifies(password, h) {
                LoginVerdict::Accept
            } else {
                LoginVerdict::WrongPassword
            },
        },
    }
}

/// The stored hash of the account, if there is one.
pub open spec fn stored_hash(account: Option<User>) -> Option<Seq<char>> {
    match account {
        Some(u) => Some(u.password_hash@),
        None => None,
    }
}

/// Checks a login against the account found for the username (if any): an
/// unknown user is refused with `InvalidCredentials` after a delay; a stored
/// hash that does not parse is refused with its parse message; a password the
/// hash does not verify is refused with `InvalidCredentials`; otherwise the
/// user is logged in.
pub fn check_credentials(account: Option<User>, password: &str) -> (r: LoginOutcome)
    ensures
        match login_verdict(stored_hash(account), password@) {
            LoginVerdict::Accept => r matches LoginOutcome::Authenticated(u) && account == Some(u),
            LoginVerdict::UnknownUser => r matches LoginOutcome::Denied { error, delay_ms } && error
                is InvalidCredentials && delay_ms == UNKNOWN_USER_DELAY_MS,
            LoginVerdict::MalformedHash(m) => r matches LoginOutcome::Denied { error, delay_ms }
                && error matches Error::CustomContext(t) && t@ == m && delay_ms == 0,
            LoginVerdict::WrongPassword => r matches LoginOutcome::Denied { error, delay_ms }
                && error is InvalidCredentials && delay_ms == 0,
        },
{
    let user = match account {
        None => {
            return LoginOutcome::Denied {
                error: Error::InvalidCredentials,
                delay_ms: UNKNOWN_USER_DELAY_MS,
            };
        },
        Some(u) => u,
    };
    if let Some(m) = phc_check(user.password_hash.as_str()) {
        return LoginOutcome::Denied { error: Error::CustomContext(m), delay_ms: 0 };
    }
    if argon2_verify(password, user.password_hash.as_str()) {
        LoginOutcome::Authenticated(user)
    } else {
        LoginOutcome::Denied { error: Error::InvalidCredentials, delay_ms: 0 }
    }
}

/// A user whose stored hash came from hashing a password logs in with that
/// password.
pub proof fn law_registered_password_logs_in(password: Seq<char>, stored: Seq<char>)
    requires
        hash_admits(password, stored),
    ensures
        login_verdict(Some(stored), password) == LoginVerdict::Accept,
{
}

/// Hashing refuses a password of ordinary length only for want of randomness
/// or memory: whatever the password's content, a refusal of a password of at
/// most a quarter of `u32::MAX` characters reports a failed random source or
/// a failed allocation, never the password itself.
pub proof fn law_ordinary_password_hashes(message: Seq<char>, password: Seq<char>)
    requires
        hash_failure(message, password),
        password.len() <= 0x3FFF_FFFF,
    ensures
        message == "rng failure"@ || message == "out of memory"@,
{
}

} // verus!
