//! Core of a note-taking backend: credential hashing, signed session tokens,
//! registration and login, a request-authentication gate, ownership checks,
//! and the in-memory user and note stores they operate on.

pub mod ascii;
pub mod auth;
pub mod credential;
pub mod digits;
pub mod claims;
pub mod hex;
pub mod gate;
pub mod jwt;
pub mod models;
pub mod notes;
pub mod ownership;
pub mod scan;
pub mod store;
pub mod token;
pub mod users;

use vstd::prelude::*;

verus! {

/// Seconds a freshly issued session token stays valid: 24 hours.
pub const TOKEN_TTL_SECONDS: u64 = 86400;

} // verus!
