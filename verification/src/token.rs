//! The session token codec.
//!
//! A token is `PAYLOAD.SIGNATURE`: the payload is the hex notation of a
//! framed claims record (see `claims`), and the signature is the HMAC-SHA256
//! tag of the payload bytes under the codec's key, spelled in base64url by
//! the signing routine. A token is valid exactly when the signature matches
//! and the expiry second lies in the future; its subject must then name a
//! principal in decimal.

use vstd::prelude::*;
use crate::ascii::{all_ascii_bytes, byte_seq_of, char_seq_of, bytes_of_str, string_of_bytes};
use crate::claims::{claims_rep, no_quote, spec_parse_claims, format_claims, parse_claims};
use crate::digits::{dec_rep, dec_val, is_canonical_dec, format_dec, parse_dec, MAX_DEC_DIGITS, lemma_dec_rep_canonical, lemma_dec_rep_len, lemma_pow10_18};
use crate::hex::{all_hex_digits, hex_rep, hex_bytes, hex_encode, hex_decode, is_hex_digit, lemma_hex_round_trip};
use crate::models::Claims;
use crate::scan::{seq_find, lemma_seq_find_at, lemma_seq_find_none};

verus! {

/// Latest expiry second a token can carry (18 decimal digits).
pub const MAX_TOKEN_TIME: u64 = 999999999999999999;

/// Why a token was rejected: not parseable at all, a signature that does not
/// match, an expiry in the past, or a subject that names no principal.
#[derive(Clone, Copy, PartialEq, Eq, Structural, Debug)]
pub enum TokenError {
    Malformed,
    BadSignature,
    Expired,
    InvalidSubject,
}

/// The signature the signing routine produces for a key and a message: the
/// base64url (no padding) spelling of the HMAC-SHA256 tag. A function of the
/// key and the message alone.
pub uninterp spec fn sig_of(key: Seq<u8>, msg: Seq<u8>) -> Seq<char>;

/// Relies on jsonwebtoken::crypto::sign with HS256 and a secret key: the
/// result is the base64url (no padding) spelling of the HMAC-SHA256 tag of
/// the message, which depends on the key and the message alone. With a
/// secret key the call cannot fail: HMAC accepts keys of any length.
#[verifier::external_body]
fn sign_hs256(key: &Vec<u8>, msg: &Vec<u8>) -> (r: String)
    ensures
        r@ == sig_of(key@, msg@),
{
    let outcome = jsonwebtoken::crypto::sign(
        msg.as_slice(),
        &jsonwebtoken::EncodingKey::from_secret(key.as_slice()),
        jsonwebtoken::Algorithm::HS256,
    );
    match outcome {
        Ok(s) => s,
        Err(_) => String::new(),
    }
}

/// Issues and checks session tokens under one process-wide signing key.
pub struct TokenCodec {
    key: Vec<u8>,
}

/// The hex payload characters of a claims record.
pub open spec fn payload_chars(claims: Seq<u8>) -> Seq<char> {
    char_seq_of(hex_rep(claims))
}

/// The token issued for a principal and an expiry second.
pub open spec fn spec_issue(key: Seq<u8>, principal: i32, exp: nat) -> Seq<char> {
    let claims = claims_rep(dec_rep(principal as nat), exp);
    payload_chars(claims) + seq!['.'] + sig_of(key, hex_rep(claims))
}

/// The claims a token yields, or why it is rejected: split at the first dot,
/// read the payload back (else `Malformed`), compare the signature (else
/// `BadSignature`), then demand an expiry after `now` (else `Expired`).
pub open spec fn spec_validate(key: Seq<u8>, token: Seq<char>, now: u64) -> Result<
    (Seq<u8>, nat),
    TokenError,
> {
    let dot = seq_find(token, '.', 0) as int;
    if dot >= token.len() {
        Err(TokenError::Malformed)
    } else {
        let pc = token.take(dot);
        if !vstd::utf8::is_ascii_chars(pc) {
            Err(TokenError::Malformed)
        } else {
            let payload = byte_seq_of(pc);
            if !(payload.len() % 2 == 0 && all_hex_digits(payload)) {
                Err(TokenError::Malformed)
            } else {
                match spec_parse_claims(hex_bytes(payload)) {
                    None => Err(TokenError::Malformed),
                    Some(p) => if token.subrange(dot + 1, token.len() as int) != sig_of(
                        key,
                        payload,
                    ) {
                        Err(TokenError::BadSignature)
                    } else if p.1 <= now {
                        Err(TokenError::Expired)
                    } else {
                        Ok(p)
                    },
                }
            }
        }
    }
}

/// The principal a token asserts, or why it is rejected: on valid claims the
/// subject must be a canonical decimal number no larger than `i32::MAX`.
pub open spec fn spec_verify(key: Seq<u8>, token: Seq<char>, now: u64) -> Result<
    i32,
    TokenError,
> {
    match spec_validate(key, token, now) {
        Err(e) => Err(e),
        Ok(p) => if is_canonical_dec(p.0) && p.0.len() <= MAX_DEC_DIGITS && dec_val(p.0) <= (
        i32::MAX as nat) {
            Ok(dec_val(p.0) as i32)
        } else {
            Err(TokenError::InvalidSubject)
        },
    }
}

impl TokenCodec {
    /// The signing key this codec was built with.
    pub closed spec fn key_view(&self) -> Seq<u8> {
        self.key@
    }

    /// A codec for a signing key; an empty key is refused, as running
    /// without a real secret would sign every token under a known value.
    pub fn new(key: Vec<u8>) -> (r: Option<TokenCodec>)
        ensures
            match r {
                Some(c) => key@.len() > 0 && c.key_view() == key@,
                None => key@.len() == 0,
            },
    {
        if key.len() == 0 {
            None
        } else {
            Some(TokenCodec { key })
        }
    }

    /// Issues the token asserting `principal` until second `exp`.
    pub fn issue_at(&self, principal: i32, exp: u64) -> (r: String)
        requires
            principal >= 0,
            exp <= MAX_TOKEN_TIME,
        ensures
            r@ == spec_issue(self.key_view(), principal, exp as nat),
    {
        let sub = format_dec(principal as u64);
        let cl = format_claims(&sub, exp);
        let payload = hex_encode(&cl);
        proof {
            lemma_hex_round_trip(cl@);
            assert(all_ascii_bytes(payload@));
            crate::ascii::lemma_byte_seq_of_char_seq(payload@);
        }
        let sig = sign_hs256(&self.key, &payload);
        let payload_string = string_of_bytes(payload);
        let with_dot = payload_string.concat(".");
        let token = with_dot.concat(sig.as_str());
        proof {
            reveal_strlit(".");
            assert(token@ =~= spec_issue(self.key_view(), principal, exp as nat));
        }
        token
    }

    /// Checks a token's shape, signature and expiry and hands back its
    /// claims; the subject is not interpreted here.
    #[verifier::loop_isolation(false)]
    pub fn validate_at(&self, token: &str, now: u64) -> (r: Result<Claims, TokenError>)
        ensures
            ({
                match (r, spec_validate(self.key_view(), token@, now)) {
                    (Ok(c), Ok(p)) => byte_seq_of(c.sub@) == p.0 && vstd::utf8::is_ascii_chars(
                        c.sub@,
                    ) && c.exp as nat == p.1,
                    (Err(e1), Err(e2)) => e1 == e2,
                    _ => false,
                }
            }),
    {
        let n = token.unicode_len();
        let mut dot: usize = 0;
        while dot < n && token.get_char(dot) != '.'
            invariant
                0 <= dot <= n,
                forall|j: int| 0 <= j < dot ==> token@[j] != '.',
            decreases n - dot,
        {
            dot = dot + 1;
        }
        if dot == n {
            proof {
                lemma_seq_find_none(token@, '.', 0);
            }
            return Err(TokenError::Malformed);
        }
        proof {
            lemma_seq_find_at(token@, '.', 0, dot as nat);
        }
        let payload_str = token.substring_char(0, dot);
        let payload = match bytes_of_str(payload_str) {
            Some(v) => v,
            None => {
                return Err(TokenError::Malformed);
            },
        };
        let claims_bytes = match hex_decode(&payload, 0, payload.len()) {
            Some(v) => v,
            None => {
                proof {
                    assert(payload@.subrange(0, payload@.len() as int) =~= payload@);
                }
                return Err(TokenError::Malformed);
            },
        };
        proof {
            assert(payload@.subrange(0, payload@.len() as int) =~= payload@);
        }
        let c = match parse_claims(&claims_bytes) {
            Some(c) => c,
            None => {
                return Err(TokenError::Malformed);
            },
        };
        let expected = sign_hs256(&self.key, &payload);
        let sig_part = token.substring_char(dot + 1, n);
        let sig_string = String::from_str(sig_part);
        if !(expected == sig_string) {
            return Err(TokenError::BadSignature);
        }
        if c.exp <= now {
            return Err(TokenError::Expired);
        }
        Ok(c)
    }

    /// The principal a token asserts: validation plus reading the subject as
    /// a decimal number that fits an `i32`.
    pub fn verify_at(&self, token: &str, now: u64) -> (r: Result<i32, TokenError>)
        ensures
            r == spec_verify(self.key_view(), token@, now),
    {
        let c = match self.validate_at(token, now) {
            Ok(c) => c,
            Err(e) => {
                return Err(e);
            },
        };
        let sub_str = c.sub.as_str();
        let sb = sub_str.as_bytes_vec();
        proof {
            vstd::string::is_ascii_spec_bytes(sub_str);
            assert(sb@ =~= byte_seq_of(c.sub@));
            assert(sb@.subrange(0, sb@.len() as int) =~= sb@);
        }
        match parse_dec(&sb, 0, sb.len()) {
            None => Err(TokenError::InvalidSubject),
            Some(v) => {
                if v > (i32::MAX as u64) {
                    Err(TokenError::InvalidSubject)
                } else {
                    Ok(v as i32)
                }
            },
        }
    }
}

/// How validation reads any token of the issued shape — a payload written
/// for `principal` and `exp`, a dot, then an arbitrary signature segment:
/// a wrong segment is `BadSignature`, a bygone expiry `Expired`, and
/// otherwise the claims come back exactly as written.
pub proof fn lemma_issued_shape_validate(
    key: Seq<u8>,
    principal: i32,
    exp: nat,
    sig2: Seq<char>,
    now: u64,
)
    requires
        principal >= 0,
        exp <= MAX_TOKEN_TIME,
    ensures
        ({
            let claims = claims_rep(dec_rep(principal as nat), exp);
            spec_validate(key, payload_chars(claims) + seq!['.'] + sig2, now) == (
            if sig2 != sig_of(key, hex_rep(claims)) {
                Err::<(Seq<u8>, nat), TokenError>(TokenError::BadSignature)
            } else if exp <= now {
                Err::<(Seq<u8>, nat), TokenError>(TokenError::Expired)
            } else {
                Ok::<(Seq<u8>, nat), TokenError>((dec_rep(principal as nat), exp))
            })
        }),
{
    let sub = dec_rep(principal as nat);
    lemma_dec_rep_canonical(principal as nat);
    let claims = claims_rep(sub, exp);
    let hx = hex_rep(claims);
    lemma_hex_round_trip(claims);
    let pc = char_seq_of(hx);
    let token = pc + seq!['.'] + sig2;
    assert(all_ascii_bytes(hx)) by {
        assert(forall|j: int| 0 <= j < hx.len() ==> is_hex_digit(#[trigger] hx[j]));
    }
    crate::ascii::lemma_byte_seq_of_char_seq(hx);
    assert(token[pc.len() as int] == '.');
    assert(forall|j: int| 0 <= j < pc.len() ==> token[j] != '.') by {
        assert(forall|j: int| 0 <= j < pc.len() ==> token[j] == pc[j]);
        assert(forall|j: int| 0 <= j < pc.len() ==> (#[trigger] pc[j]) as u8 == hx[j]);
        assert(forall|j: int| 0 <= j < hx.len() ==> is_hex_digit(#[trigger] hx[j]));
        assert(('.' as u8) == 46 && !is_hex_digit(46));
    }
    lemma_seq_find_at(token, '.', 0, pc.len());
    assert(token.take(pc.len() as int) =~= pc);
    assert(byte_seq_of(pc) =~= hx);
    assert(no_quote(sub)) by {
        assert(forall|j: int| 0 <= j < sub.len() ==> crate::digits::is_dec_digit(
            #[trigger] sub[j],
        ));
    }
    assert(all_ascii_bytes(sub)) by {
        assert(forall|j: int| 0 <= j < sub.len() ==> crate::digits::is_dec_digit(
            #[trigger] sub[j],
        ));
    }
    lemma_pow10_18();
    crate::claims::lemma_claims_round_trip(sub, exp);
    assert(hex_bytes(hx) =~= claims);
    assert(token.subrange(pc.len() as int + 1, token.len() as int) =~= sig2);
}

/// A token issued for a principal comes back as exactly that principal while
/// the expiry second lies in the future.
pub proof fn lemma_issue_then_verify(key: Seq<u8>, principal: i32, exp: nat, now: u64)
    requires
        principal >= 0,
        exp <= MAX_TOKEN_TIME,
        now < exp,
    ensures
        spec_verify(key, spec_issue(key, principal, exp), now) == Ok::<i32, TokenError>(principal),
{
    let sub = dec_rep(principal as nat);
    let claims = claims_rep(sub, exp);
    lemma_issued_shape_validate(key, principal, exp, sig_of(key, hex_rep(claims)), now);
    lemma_dec_rep_canonical(principal as nat);
    lemma_pow10_18();
    lemma_dec_rep_len(principal as nat, MAX_DEC_DIGITS as nat);
}

/// A token issued for an expiry second not in the future is rejected as
/// `Expired`, whoever its principal is.
pub proof fn lemma_issue_expired(key: Seq<u8>, principal: i32, exp: nat, now: u64)
    requires
        principal >= 0,
        exp <= MAX_TOKEN_TIME,
        exp <= now,
    ensures
        spec_verify(key, spec_issue(key, principal, exp), now) == Err::<i32, TokenError>(
            TokenError::Expired,
        ),
{
    let sub = dec_rep(principal as nat);
    let claims = claims_rep(sub, exp);
    lemma_issued_shape_validate(key, principal, exp, sig_of(key, hex_rep(claims)), now);
}

/// Any change to the signature segment of an issued token — a flipped bit
/// included — is rejected as `BadSignature`, at any time.
pub proof fn lemma_tampered_signature(
    key: Seq<u8>,
    principal: i32,
    exp: nat,
    sig2: Seq<char>,
    now: u64,
)
    requires
        principal >= 0,
        exp <= MAX_TOKEN_TIME,
        sig2 != sig_of(key, hex_rep(claims_rep(dec_rep(principal as nat), exp))),
    ensures
        spec_verify(
            key,
            payload_chars(claims_rep(dec_rep(principal as nat), exp)) + seq!['.'] + sig2,
            now,
        ) == Err::<i32, TokenError>(TokenError::BadSignature),
{
    lemma_issued_shape_validate(key, principal, exp, sig2, now);
}

} // verus!
