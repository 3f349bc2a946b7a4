//! One-way hashing and checking of plaintext secrets.
//!
//! Hashing salts every call afresh, so two hashes of one secret differ; what
//! binds a hash to its secret is `matches_secret`, which checking computes.

use vstd::prelude::*;

verus! {

/// Whether the checking routine accepts `secret` against `hashed`: parse the
/// hash, recompute with its embedded salt and cost, compare the tags. A
/// function of the two arguments alone; a hash the routine cannot parse
/// matches no secret.
pub uninterp spec fn matches_secret(secret: Seq<char>, hashed: Seq<char>) -> bool;

/// Relies on bcrypt::verify: it parses the hash, recomputes the bcrypt tag of
/// the secret with the embedded salt and cost, and compares in constant time;
/// the outcome depends on the secret and the hash alone, an unparsable hash is
/// an error and here counts as a mismatch, and no input panics (bcrypt pads
/// and truncates the secret itself).
#[verifier::external_body]
fn bcrypt_check(secret: &str, hashed: &str) -> (r: bool)
    ensures
        r == matches_secret(secret@, hashed@),
{
    bcrypt::verify(secret, hashed).unwrap_or(false)
}

/// Relies on bcrypt::hash with DEFAULT_COST: on success the result is a hash
/// string with a fresh random salt that bcrypt::verify accepts for this very
/// secret; it fails only when the system's randomness source does, and no
/// input panics.
#[verifier::external_body]
fn bcrypt_hash(secret: &str) -> (r: Option<String>)
    ensures
        match r {
            Some(h) => matches_secret(secret@, h@),
            None => true,
        },
{
    match bcrypt::hash(secret, bcrypt::DEFAULT_COST) {
        Ok(h) => Some(h),
        Err(_) => None,
    }
}

/// Hashes a secret with a fresh salt; the result verifies against exactly the
/// secret it was made from. `None` is a failure of the randomness source and
/// is surfaced, never swallowed.
pub fn hash_secret(secret: &str) -> (r: Option<String>)
    ensures
        match r {
            Some(h) => matches_secret(secret@, h@),
            None => true,
        },
{
    bcrypt_hash(secret)
}

/// Checks a secret against a stored hash; never fails, only answers.
pub fn verify_secret(secret: &str, hashed: &str) -> (r: bool)
    ensures
        r == matches_secret(secret@, hashed@),
{
    bcrypt_check(secret, hashed)
}

} // verus!
