//! Lowercase hexadecimal notation for byte strings.
//!
//! The token codec writes its payload in hex so the token stays URL-safe.
//! Writing is total; reading accepts exactly the strings writing produces
//! (even length, lowercase hex digits), so the pair is a bijection between
//! byte strings and their notations.

use vstd::prelude::*;

verus! {

pub open spec fn is_hex_digit(b: u8) -> bool {
    (('0' as u8) <= b <= ('9' as u8)) || (('a' as u8) <= b <= ('f' as u8))
}

pub open spec fn all_hex_digits(h: Seq<u8>) -> bool {
    forall|i: int| 0 <= i < h.len() ==> is_hex_digit(h[i])
}

/// The digit standing for a value below 16.
pub open spec fn hex_digit(v: u8) -> u8 {
    if v < 10 {
        (v + ('0' as u8)) as u8
    } else {
        ((v - 10) + ('a' as u8)) as u8
    }
}

/// The value of a hex digit.
pub open spec fn hex_digit_val(b: u8) -> u8 {
    if b <= ('9' as u8) {
        (b - ('0' as u8)) as u8
    } else {
        ((b - ('a' as u8)) + 10) as u8
    }
}

/// The hex notation of a byte string: two digits per byte, high digit first.
pub open spec fn hex_rep(s: Seq<u8>) -> Seq<u8>
    decreases s.len(),
{
    if s.len() == 0 {
        Seq::empty()
    } else {
        hex_rep(s.drop_last()) + seq![hex_digit(s.last() / 16), hex_digit(s.last() % 16)]
    }
}

/// The byte string a run of hex digits denotes (meaningful when the run has
/// even length and holds digits only).
pub open spec fn hex_bytes(h: Seq<u8>) -> Seq<u8>
    decreases h.len(),
{
    if h.len() < 2 {
        Seq::empty()
    } else {
        hex_bytes(h.take(h.len() - 2)).push(
            (hex_digit_val(h[h.len() - 2]) * 16 + hex_digit_val(h[h.len() - 1])) as u8,
        )
    }
}

/// Reading back the notation of `s` yields `s` again.
pub proof fn lemma_hex_round_trip(s: Seq<u8>)
    ensures
        hex_rep(s).len() == 2 * s.len(),
        all_hex_digits(hex_rep(s)),
        hex_bytes(hex_rep(s)) =~= s,
    decreases s.len(),
{
    if s.len() > 0 {
        lemma_hex_round_trip(s.drop_last());
        let h = hex_rep(s);
        let p = hex_rep(s.drop_last());
        let d1 = hex_digit(s.last() / 16);
        let d2 = hex_digit(s.last() % 16);
        assert(h =~= p + seq![d1, d2]);
        assert(forall|i: int| 0 <= i < h.len() ==> is_hex_digit(#[trigger] h[i])) by {
            assert(forall|i: int| 0 <= i < p.len() ==> h[i] == p[i]);
            assert(is_hex_digit(h[h.len() - 2]));
            assert(is_hex_digit(h[h.len() - 1]));
        }
        assert(h.take(h.len() - 2) =~= p);
        assert(hex_digit_val(d1) == s.last() / 16 && hex_digit_val(d2) == s.last() % 16);
        assert(hex_digit_val(d1) * 16 + hex_digit_val(d2) == s.last());
    }
}

/// Writes `s` in lowercase hex.
pub fn hex_encode(s: &Vec<u8>) -> (r: Vec<u8>)
    ensures
        r@ == hex_rep(s@),
{
    let mut out: Vec<u8> = Vec::new();
    let mut i: usize = 0;
    while i < s.len()
        invariant
            i <= s@.len(),
            out@ == hex_rep(s@.subrange(0, i as int)),
        decreases s@.len() - i,
    {
        let b = s[i];
        let hi = b / 16;
        let lo = b % 16;
        out.push(if hi < 10 { hi + ('0' as u8) } else { (hi - 10) + ('a' as u8) });
        out.push(if lo < 10 { lo + ('0' as u8) } else { (lo - 10) + ('a' as u8) });
        proof {
            let pre = s@.subrange(0, i as int);
            let cur = s@.subrange(0, i + 1);
            assert(cur.drop_last() =~= pre);
            assert(cur.last() == s@[i as int]);
            assert(out@ =~= hex_rep(pre) + seq![hex_digit(s@[i as int] / 16), hex_digit(s@[i as int] % 16)]);
        }
        i = i + 1;
    }
    proof {
        assert(s@.subrange(0, s@.len() as int) =~= s@);
    }
    out
}

/// Reads the bytes of `h` between `from` and `to` as hex notation; `None`
/// unless that range is an even-length run of lowercase hex digits.
pub fn hex_decode(h: &Vec<u8>, from: usize, to: usize) -> (r: Option<Vec<u8>>)
    requires
        from <= to <= h@.len(),
    ensures
        ({
            let part = h@.subrange(from as int, to as int);
            match r {
                Some(v) => part.len() % 2 == 0 && all_hex_digits(part) && v@ == hex_bytes(part),
                None => !(part.len() % 2 == 0 && all_hex_digits(part)),
            }
        }),
{
    let ghost part = h@.subrange(from as int, to as int);
    if (to - from) % 2 != 0 {
        return None;
    }
    let mut out: Vec<u8> = Vec::new();
    let mut i: usize = from;
    while i < to
        invariant
            from <= i <= to <= h@.len(),
            (to - from) % 2 == 0,
            (i - from) % 2 == 0,
            part == h@.subrange(from as int, to as int),
            all_hex_digits(part.subrange(0, i - from)),
            out@ == hex_bytes(part.subrange(0, i - from)),
        decreases to - i,
    {
        let b1 = h[i];
        let b2 = h[i + 1];
        let v1 = if b1 >= ('0' as u8) && b1 <= ('9' as u8) {
            b1 - ('0' as u8)
        } else if b1 >= ('a' as u8) && b1 <= ('f' as u8) {
            (b1 - ('a' as u8)) + 10
        } else {
            proof {
                assert(part[i - from] == h@[i as int]);
                assert(!is_hex_digit(part[i - from]));
            }
            return None;
        };
        let v2 = if b2 >= ('0' as u8) && b2 <= ('9' as u8) {
            b2 - ('0' as u8)
        } else if b2 >= ('a' as u8) && b2 <= ('f' as u8) {
            (b2 - ('a' as u8)) + 10
        } else {
            proof {
                assert(part[i + 1 - from] == h@[i + 1]);
                assert(!is_hex_digit(part[i + 1 - from]));
            }
            return None;
        };
        out.push(v1 * 16 + v2);
        proof {
            let pre = part.subrange(0, i - from);
            let cur = part.subrange(0, i + 2 - from);
            assert(cur.take(cur.len() - 2) =~= pre);
            assert(cur[cur.len() - 2] == h@[i as int] && cur[cur.len() - 1] == h@[i + 1]);
            assert(v1 == hex_digit_val(cur[cur.len() - 2]) && v2 == hex_digit_val(cur[cur.len() - 1]));
            assert(out@ =~= hex_bytes(cur));
            assert(forall|j: int| 0 <= j < cur.len() ==> is_hex_digit(#[trigger] cur[j])) by {
                assert(forall|j: int| 0 <= j < pre.len() ==> cur[j] == pre[j]);
            }
        }
        i = i + 2;
    }
    proof {
        assert(part.subrange(0, to - from) =~= part);
    }
    Some(out)
}

} // verus!
