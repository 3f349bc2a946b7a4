//! The boundary layer's view of the token codec, under the names its
//! handlers use: issue a day-long token, check one, or go straight from a
//! token to the user id it asserts.

use vstd::prelude::*;
use crate::ascii::byte_seq_of;
use crate::models::Claims;
use crate::token::{TokenCodec, TokenError, spec_issue, spec_validate, spec_verify, MAX_TOKEN_TIME};
use crate::TOKEN_TTL_SECONDS;

verus! {

/// The token asserting `user_id` for the next 24 hours.
pub fn create_jwt(codec: &TokenCodec, user_id: i32, now: u64) -> (r: String)
    requires
        user_id >= 0,
        now + TOKEN_TTL_SECONDS <= MAX_TOKEN_TIME,
    ensures
        r@ == spec_issue(codec.key_view(), user_id, (now + TOKEN_TTL_SECONDS) as nat),
{
    codec.issue_at(user_id, now + TOKEN_TTL_SECONDS)
}

/// The claims a token carries, after the shape, signature and expiry checks.
pub fn validate_jwt(codec: &TokenCodec, token: &str, now: u64) -> (r: Result<Claims, TokenError>)
    ensures
        ({
            match (r, spec_validate(codec.key_view(), token@, now)) {
                (Ok(c), Ok(p)) => byte_seq_of(c.sub@) == p.0 && vstd::utf8::is_ascii_chars(c.sub@)
                    && c.exp as nat == p.1,
                (Err(e1), Err(e2)) => e1 == e2,
                _ => false,
            }
        }),
{
    codec.validate_at(token, now)
}

/// The user id a token asserts, or why the token is rejected.
pub fn extract_user_id_from_token(codec: &TokenCodec, token: &str, now: u64) -> (r: Result<
    i32,
    TokenError,
>)
    ensures
        r == spec_verify(codec.key_view(), token@, now),
{
    codec.verify_at(token, now)
}

} // verus!
