//! Canonical decimal notation for the numbers a token carries.
//!
//! A number is written without sign, without leading zeroes, and is accepted
//! back only in that shape and at most 18 digits long, so that every accepted
//! notation fits a `u64` and writing then reading a number is the identity.

use vstd::prelude::*;

verus! {

/// Longest run of digits the parser accepts; 18 digits always fit a `u64`.
pub const MAX_DEC_DIGITS: usize = 18;

pub open spec fn is_dec_digit(b: u8) -> bool {
    ('0' as u8) <= b <= ('9' as u8)
}

pub open spec fn all_dec_digits(s: Seq<u8>) -> bool {
    forall|i: int| 0 <= i < s.len() ==> is_dec_digit(s[i])
}

/// The canonical decimal spelling of `n`.
pub open spec fn dec_rep(n: nat) -> Seq<u8>
    decreases n,
{
    if n < 10 {
        seq![(n + ('0' as u8)) as u8]
    } else {
        dec_rep(n / 10).push(((n % 10) + ('0' as u8)) as u8)
    }
}

/// The number a run of digits denotes.
pub open spec fn dec_val(s: Seq<u8>) -> nat
    decreases s.len(),
{
    if s.len() == 0 {
        0
    } else {
        dec_val(s.drop_last()) * 10 + (s.last() - ('0' as u8)) as nat
    }
}

/// A nonempty run of digits with no leading zero (except "0" itself).
pub open spec fn is_canonical_dec(s: Seq<u8>) -> bool {
    &&& s.len() > 0
    &&& all_dec_digits(s)
    &&& (s.len() > 1 ==> s[0] != ('0' as u8))
}

pub open spec fn pow10(k: nat) -> nat
    decreases k,
{
    if k == 0 {
        1
    } else {
        10 * pow10((k - 1) as nat)
    }
}

pub proof fn lemma_dec_val_bound(s: Seq<u8>)
    requires
        all_dec_digits(s),
    ensures
        dec_val(s) < pow10(s.len()),
    decreases s.len(),
{
    if s.len() > 0 {
        assert(all_dec_digits(s.drop_last()));
        lemma_dec_val_bound(s.drop_last());
    }
}

pub proof fn lemma_pow10_18()
    ensures
        pow10(18) == 1000000000000000000,
{
    reveal_with_fuel(pow10, 19);
}

pub proof fn lemma_dec_rep_canonical(n: nat)
    ensures
        is_canonical_dec(dec_rep(n)),
        dec_val(dec_rep(n)) == n,
        n > 0 ==> dec_rep(n)[0] != ('0' as u8),
    decreases n,
{
    let s = dec_rep(n);
    if n < 10 {
        assert(s =~= seq![(n + ('0' as u8)) as u8]);
        assert(s.drop_last() =~= Seq::<u8>::empty());
        assert(is_dec_digit(s[0]));
        assert(dec_val(s) == dec_val(s.drop_last()) * 10 + (s.last() - ('0' as u8)) as nat);
    } else {
        lemma_dec_rep_canonical(n / 10);
        let p = dec_rep(n / 10);
        assert(s =~= p.push(((n % 10) + ('0' as u8)) as u8));
        assert(s.drop_last() =~= p);
        assert(dec_val(s) == dec_val(p) * 10 + n % 10);
        assert(forall|i: int| 0 <= i < s.len() ==> is_dec_digit(#[trigger] s[i])) by {
            assert(forall|i: int| 0 <= i < p.len() ==> s[i] == p[i]);
            assert(is_dec_digit(s[s.len() - 1]));
        }
        assert(s[0] == p[0]);
    }
}

/// The spelling of a number below `pow10(k)` is at most `k` digits long.
pub proof fn lemma_dec_rep_len(n: nat, k: nat)
    requires
        k > 0,
        n < pow10(k),
    ensures
        dec_rep(n).len() <= k,
    decreases n,
{
    if n >= 10 {
        assert(pow10(k) == 10 * pow10((k - 1) as nat));
        lemma_dec_rep_len(n / 10, (k - 1) as nat);
    }
}

/// Writes `n` in canonical decimal.
pub fn format_dec(n: u64) -> (r: Vec<u8>)
    ensures
        r@ == dec_rep(n as nat),
    decreases n,
{
    if n < 10 {
        let mut v: Vec<u8> = Vec::new();
        v.push((n as u8) + ('0' as u8));
        proof {
            assert(v@ =~= dec_rep(n as nat));
        }
        v
    } else {
        let mut v = format_dec(n / 10);
        v.push(((n % 10) as u8) + ('0' as u8));
        proof {
            assert(v@ =~= dec_rep(n as nat));
        }
        v
    }
}

/// Reads the bytes of `s` between `from` and `to` as a canonical decimal
/// number of at most `MAX_DEC_DIGITS` digits; `None` on any other shape.
pub fn parse_dec(s: &Vec<u8>, from: usize, to: usize) -> (r: Option<u64>)
    requires
        from <= to <= s@.len(),
    ensures
        ({
            let part = s@.subrange(from as int, to as int);
            match r {
                Some(v) => is_canonical_dec(part) && part.len() <= MAX_DEC_DIGITS
                    && v as nat == dec_val(part),
                None => !(is_canonical_dec(part) && part.len() <= MAX_DEC_DIGITS),
            }
        }),
{
    let ghost part = s@.subrange(from as int, to as int);
    if to == from || to - from > MAX_DEC_DIGITS {
        return None;
    }
    if to - from > 1 && s[from] == ('0' as u8) {
        return None;
    }
    let mut acc: u64 = 0;
    let mut i: usize = from;
    while i < to
        invariant
            from <= i <= to <= s@.len(),
            to - from <= MAX_DEC_DIGITS,
            part == s@.subrange(from as int, to as int),
            all_dec_digits(part.subrange(0, i - from)),
            acc as nat == dec_val(part.subrange(0, i - from)),
        decreases to - i,
    {
        let b = s[i];
        if b < ('0' as u8) || b > ('9' as u8) {
            proof {
                assert(part[i - from] == s@[i as int]);
                assert(!is_dec_digit(part[i - from]));
            }
            return None;
        }
        proof {
            let pre = part.subrange(0, i - from);
            lemma_dec_val_bound(pre);
            lemma_pow10_18();
            lemma_pow10_mono(pre.len(), 17);
            assert(part.subrange(0, i + 1 - from).drop_last() =~= pre);
            assert(part.subrange(0, i + 1 - from).last() == s@[i as int]);
        }
        acc = acc * 10 + ((b - ('0' as u8)) as u64);
        i = i + 1;
    }
    proof {
        assert(part.subrange(0, to - from) =~= part);
    }
    Some(acc)
}

/// `pow10` grows with its argument.
pub proof fn lemma_pow10_mono(a: nat, b: nat)
    requires
        a <= b,
    ensures
        pow10(a) <= pow10(b),
    decreases b,
{
    if a < b {
        lemma_pow10_mono(a, (b - 1) as nat);
        assert(pow10(b) == 10 * pow10((b - 1) as nat));
    }
}

} // verus!
