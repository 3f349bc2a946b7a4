//! The request-authentication gate.
//!
//! Runs before every protected handler: it reads the `Authorization` header
//! value, demands the `Bearer ` scheme, has the codec check the token, and
//! hands the asserted principal to the handler — or rejects the request.
//! Every failure, whatever the token's fault, is the same rejection, so the
//! response leaks nothing of why a token was refused.

use vstd::prelude::*;
use crate::token::{TokenCodec, spec_verify, spec_issue, MAX_TOKEN_TIME, lemma_issue_then_verify};

verus! {

/// The one answer to any bad request: it carries no detail on purpose.
#[derive(Clone, Copy, PartialEq, Eq, Structural, Debug)]
pub enum GateRejection {
    Unauthorized,
}

impl GateRejection {
    /// The status the boundary layer sends for a rejected request.
    pub fn status_code(&self) -> (r: u16)
        ensures
            r == 401,
    {
        401
    }
}

/// `Bearer ` — the only credential scheme accepted here.
pub open spec fn bearer_prefix() -> Seq<char> {
    seq!['B', 'e', 'a', 'r', 'e', 'r', ' ']
}

/// Whom a request counts as: nobody without a header, nobody without the
/// `Bearer ` scheme, and otherwise exactly the principal the token asserts,
/// with every token fault collapsed into the same rejection.
pub open spec fn spec_authorize(key: Seq<u8>, header: Option<Seq<char>>, now: u64) -> Result<
    i32,
    GateRejection,
> {
    match header {
        None => Err(GateRejection::Unauthorized),
        Some(h) => {
            if !(h.len() >= 7 && h.take(7) == bearer_prefix()) {
                Err(GateRejection::Unauthorized)
            } else {
                match spec_verify(key, h.skip(7), now) {
                    Ok(p) => Ok(p),
                    Err(_) => Err(GateRejection::Unauthorized),
                }
            }
        },
    }
}

/// Admits or rejects one request, given its `Authorization` header value.
pub fn authorize_request(codec: &TokenCodec, header: Option<&str>, now: u64) -> (r: Result<
    i32,
    GateRejection,
>)
    ensures
        r == spec_authorize(
            codec.key_view(),
            match header {
                Some(h) => Some(h@),
                None => None,
            },
            now,
        ),
{
    let h = match header {
        Some(h) => h,
        None => {
            return Err(GateRejection::Unauthorized);
        },
    };
    let n = h.unicode_len();
    if n < 7 {
        return Err(GateRejection::Unauthorized);
    }
    if !(h.get_char(0) == 'B' && h.get_char(1) == 'e' && h.get_char(2) == 'a' && h.get_char(3)
        == 'r' && h.get_char(4) == 'e' && h.get_char(5) == 'r' && h.get_char(6) == ' ') {
        proof {
            assert(h@.take(7) != bearer_prefix()) by {
                if h@.take(7) == bearer_prefix() {
                    let t = h@.take(7);
                    assert(t[0] == h@[0] && t[1] == h@[1] && t[2] == h@[2] && t[3] == h@[3] && t[4]
                        == h@[4] && t[5] == h@[5] && t[6] == h@[6]);
                }
            }
        }
        return Err(GateRejection::Unauthorized);
    }
    proof {
        assert(h@.take(7) =~= bearer_prefix());
    }
    let token = h.substring_char(7, n);
    proof {
        assert(token@ =~= h@.skip(7));
    }
    match codec.verify_at(token, now) {
        Ok(p) => Ok(p),
        Err(_) => Err(GateRejection::Unauthorized),
    }
}

/// A request carrying a freshly issued, unexpired token is admitted as
/// exactly the principal the token was issued for.
pub proof fn lemma_gate_admits_fresh_token(key: Seq<u8>, principal: i32, exp: nat, now: u64)
    requires
        principal >= 0,
        exp <= MAX_TOKEN_TIME,
        now < exp,
    ensures
        spec_authorize(key, Some(bearer_prefix() + spec_issue(key, principal, exp)), now) == Ok::<
            i32,
            GateRejection,
        >(principal),
{
    let h = bearer_prefix() + spec_issue(key, principal, exp);
    assert(h.take(7) =~= bearer_prefix());
    assert(h.skip(7) =~= spec_issue(key, principal, exp));
    lemma_issue_then_verify(key, principal, exp, now);
}

} // verus!
