//! Framing of the claims a token carries.
//!
//! A claims record `{subject, expiry}` is written as the byte string
//! `{"sub":"SUB","exp":EXP}` where `SUB` is the subject (any ASCII bytes
//! without a double quote) and `EXP` the expiry second in canonical decimal.
//! The reader accepts exactly the strings the writer produces and recovers
//! both fields.

use vstd::prelude::*;
use crate::ascii::{all_ascii_bytes, byte_seq_of, string_of_bytes};
use crate::digits::{dec_rep, dec_val, is_canonical_dec, MAX_DEC_DIGITS, pow10, lemma_dec_rep_canonical, lemma_dec_rep_len};
use crate::models::Claims;
use crate::scan::{seq_find, lemma_seq_find, lemma_seq_find_at, lemma_seq_find_none};

verus! {

/// `{"sub":"`
pub open spec fn claims_prefix() -> Seq<u8> {
    seq![
        ('{' as u8),
        ('"' as u8),
        ('s' as u8),
        ('u' as u8),
        ('b' as u8),
        ('"' as u8),
        (':' as u8),
        ('"' as u8),
    ]
}

/// `","exp":`
pub open spec fn claims_mid() -> Seq<u8> {
    seq![
        ('"' as u8),
        (',' as u8),
        ('"' as u8),
        ('e' as u8),
        ('x' as u8),
        ('p' as u8),
        ('"' as u8),
        (':' as u8),
    ]
}

pub open spec fn no_quote(s: Seq<u8>) -> bool {
    forall|i: int| 0 <= i < s.len() ==> s[i] != ('"' as u8)
}

/// The framed claims record.
pub open spec fn claims_rep(sub: Seq<u8>, exp: nat) -> Seq<u8> {
    claims_prefix() + sub + claims_mid() + dec_rep(exp) + seq![('}' as u8)]
}

/// The one decomposition of `b` into subject and expiry, if `b` is a framed
/// claims record; `None` otherwise.
pub open spec fn spec_parse_claims(b: Seq<u8>) -> Option<(Seq<u8>, nat)> {
    let q = seq_find(b, ('"' as u8), 8) as int;
    if b.len() < 8 || b.take(8) != claims_prefix() {
        None
    } else if q >= b.len() {
        None
    } else {
        let sub = b.subrange(8, q);
        if !all_ascii_bytes(sub) {
            None
        } else if q + 8 >= b.len() || b.subrange(q, q + 8) != claims_mid() {
            None
        } else {
            let digits = b.subrange(q + 8, b.len() - 1);
            if b.last() != ('}' as u8) || !is_canonical_dec(digits) || digits.len()
                > MAX_DEC_DIGITS {
                None
            } else {
                Some((sub, dec_val(digits)))
            }
        }
    }
}

/// Reading back a framed record yields the subject and expiry it was written
/// from.
pub proof fn lemma_claims_round_trip(sub: Seq<u8>, exp: nat)
    requires
        no_quote(sub),
        all_ascii_bytes(sub),
        exp < pow10(MAX_DEC_DIGITS as nat),
    ensures
        spec_parse_claims(claims_rep(sub, exp)) == Some((sub, exp)),
{
    let b = claims_rep(sub, exp);
    let digits = dec_rep(exp);
    lemma_dec_rep_canonical(exp);
    lemma_dec_rep_len(exp, MAX_DEC_DIGITS as nat);
    let q: nat = (8 + sub.len()) as nat;
    assert(b.len() == 8 + sub.len() + 8 + digits.len() + 1);
    assert(b.take(8) =~= claims_prefix());
    assert(b[q as int] == ('"' as u8)) by {
        assert(b[q as int] == claims_mid()[0]);
    }
    assert(forall|j: int| 8 <= j < q ==> b[j] != ('"' as u8)) by {
        assert(forall|j: int| 8 <= j < q ==> b[j] == sub[j - 8]);
    }
    lemma_seq_find_at(b, ('"' as u8), 8, q);
    assert(b.subrange(8, q as int) =~= sub);
    assert(b.subrange(q as int, q as int + 8) =~= claims_mid());
    assert(b.subrange(q as int + 8, b.len() - 1) =~= digits);
    assert(b.last() == ('}' as u8));
}

/// Writes the framed record for a subject and an expiry second.
pub fn format_claims(sub: &Vec<u8>, exp: u64) -> (r: Vec<u8>)
    ensures
        r@ == claims_rep(sub@, exp as nat),
{
    let mut out: Vec<u8> = Vec::new();
    out.push('{' as u8);
    out.push('"' as u8);
    out.push('s' as u8);
    out.push('u' as u8);
    out.push('b' as u8);
    out.push('"' as u8);
    out.push(':' as u8);
    out.push('"' as u8);
    proof {
        assert(out@ =~= claims_prefix());
    }
    let mut i: usize = 0;
    while i < sub.len()
        invariant
            i <= sub@.len(),
            out@ == claims_prefix() + sub@.subrange(0, i as int),
        decreases sub@.len() - i,
    {
        out.push(sub[i]);
        proof {
            assert(out@ =~= claims_prefix() + sub@.subrange(0, i + 1));
        }
        i = i + 1;
    }
    proof {
        assert(sub@.subrange(0, sub@.len() as int) =~= sub@);
    }
    out.push('"' as u8);
    out.push(',' as u8);
    out.push('"' as u8);
    out.push('e' as u8);
    out.push('x' as u8);
    out.push('p' as u8);
    out.push('"' as u8);
    out.push(':' as u8);
    proof {
        assert(out@ =~= claims_prefix() + sub@ + claims_mid());
    }
    let mut digits = crate::digits::format_dec(exp);
    out.append(&mut digits);
    out.push('}' as u8);
    proof {
        assert(out@ =~= claims_rep(sub@, exp as nat));
    }
    out
}

/// Reads a framed record back; `None` on any other shape.
#[verifier::loop_isolation(false)]
pub fn parse_claims(b: &Vec<u8>) -> (r: Option<Claims>)
    ensures
        ({
            match r {
                Some(c) => match spec_parse_claims(b@) {
                    Some(p) => byte_seq_of(c.sub@) == p.0 && vstd::utf8::is_ascii_chars(c.sub@)
                        && c.exp as nat == p.1,
                    None => false,
                },
                None => spec_parse_claims(b@) is None,
            }
        }),
{
    let n = b.len();
    if n < 8 {
        return None;
    }
    if !(b[0] == ('{' as u8) && b[1] == ('"' as u8) && b[2] == ('s' as u8) && b[3] == ('u' as u8)
        && b[4] == ('b' as u8) && b[5] == ('"' as u8) && b[6] == (':' as u8) && b[7] == (
    '"' as u8)) {
        proof {
            assert(b@.take(8) != claims_prefix()) by {
                if b@.take(8) == claims_prefix() {
                    assert(b@.take(8)[0] == b@[0] && b@.take(8)[1] == b@[1] && b@.take(8)[2]
                        == b@[2] && b@.take(8)[3] == b@[3] && b@.take(8)[4] == b@[4] && b@.take(
                    8)[5] == b@[5] && b@.take(8)[6] == b@[6] && b@.take(8)[7] == b@[7]);
                }
            }
        }
        return None;
    }
    proof {
        assert(b@.take(8) =~= claims_prefix());
        lemma_seq_find(b@, ('"' as u8), 8);
    }
    // find the quote that closes the subject
    let mut q: usize = 8;
    let mut sub_bytes: Vec<u8> = Vec::new();
    while q < n && b[q] != ('"' as u8)
        invariant
            8 <= q <= n == b@.len(),
            forall|j: int| 8 <= j < q ==> b@[j] != ('"' as u8),
            sub_bytes@ == b@.subrange(8, q as int),
        decreases n - q,
    {
        sub_bytes.push(b[q]);
        proof {
            assert(sub_bytes@ =~= b@.subrange(8, q + 1));
        }
        q = q + 1;
    }
    if q == n {
        proof {
            lemma_seq_find_none(b@, ('"' as u8), 8);
        }
        return None;
    }
    proof {
        lemma_seq_find_at(b@, ('"' as u8), 8, q as nat);
    }
    let ghost sub = b@.subrange(8, q as int);
    // the subject must be ASCII so it can live in a `String`
    let mut k: usize = 0;
    while k < sub_bytes.len()
        invariant
            k <= sub_bytes@.len(),
            sub_bytes@ == sub,
            forall|j: int| 0 <= j < k ==> sub_bytes@[j] < 128,
        decreases sub_bytes@.len() - k,
    {
        if sub_bytes[k] >= 128 {
            proof {
                assert(sub[k as int] >= 128);
                assert(!all_ascii_bytes(sub));
            }
            return None;
        }
        k = k + 1;
    }
    proof {
        assert(all_ascii_bytes(sub));
    }
    if q >= n - 8 {
        return None;
    }
    if !(b[q] == ('"' as u8) && b[q + 1] == (',' as u8) && b[q + 2] == ('"' as u8) && b[q + 3] == (
    'e' as u8) && b[q + 4] == ('x' as u8) && b[q + 5] == ('p' as u8) && b[q + 6] == ('"' as u8)
        && b[q + 7] == (':' as u8)) {
        proof {
            assert(b@.subrange(q as int, q + 8) != claims_mid()) by {
                if b@.subrange(q as int, q + 8) == claims_mid() {
                    let m = b@.subrange(q as int, q + 8);
                    assert(m[0] == b@[q as int] && m[1] == b@[q + 1] && m[2] == b@[q + 2] && m[3]
                        == b@[q + 3] && m[4] == b@[q + 4] && m[5] == b@[q + 5] && m[6] == b@[q + 6]
                        && m[7] == b@[q + 7]);
                }
            }
        }
        return None;
    }
    proof {
        assert(b@.subrange(q as int, q + 8) =~= claims_mid());
    }
    if b[n - 1] != ('}' as u8) {
        return None;
    }
    let exp = match crate::digits::parse_dec(b, q + 8, n - 1) {
        Some(v) => v,
        None => {
            return None;
        },
    };
    let sub_string = string_of_bytes(sub_bytes);
    proof {
        crate::ascii::lemma_byte_seq_of_char_seq(sub);
    }
    Some(Claims { sub: sub_string, exp })
}

} // verus!
