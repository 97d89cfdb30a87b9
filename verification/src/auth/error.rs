//! Errors of the authentication library.
use vstd::prelude::*;

verus! {

/// Errors of account and token operations.
#[derive(Debug)]
pub enum Error {
    /// Hashing a password failed; the text is the hasher's error message.
    PasswordHashError(String),
    /// Wrong username or password.
    InvalidCredentials,
    /// A refresh token was refused; the text says why.
    AuthError(String),
    /// A stored password hash could not be read; the text is the parser's.
    CustomContext(String),
}

} // verus!
