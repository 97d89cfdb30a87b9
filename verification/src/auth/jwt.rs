//! Access-token claims.
use vstd::prelude::*;

verus! {

/// How long an access token is valid, in seconds (two hours).
pub const JWT_VALIDITY_SECS: u64 = 7200;

/// The claims of an access token.
#[derive(Debug)]
pub struct JWTClaims {
    /// The subject: the user's id.
    pub sub: u128,
    /// Issued at, in seconds since the epoch.
    pub iat: usize,
    /// Expires at, in seconds since the epoch.
    pub exp: usize,
    pub roles: Vec<String>,
}

} // verus!
