//! Accounts, passwords, refresh tokens and access-token claims.
pub mod accounts;
pub mod error;
pub mod jwt;
pub mod rotation;
pub mod token_table;
pub mod tokens;
