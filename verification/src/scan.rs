//! First-occurrence search in a sequence, shared by the framing parsers.

use vstd::prelude::*;

verus! {

/// Index of the first occurrence of `x` in `s` at or after `from`; `s.len()`
/// when there is none.
pub open spec fn seq_find<A>(s: Seq<A>, x: A, from: nat) -> nat
    decreases s.len() - from
        when from <= s.len()
{
    if from >= s.len() {
        s.len()
    } else if s[from as int] == x {
        from
    } else {
        seq_find(s, x, from + 1)
    }
}

pub proof fn lemma_seq_find<A>(s: Seq<A>, x: A, from: nat)
    requires
        from <= s.len(),
    ensures
        from <= seq_find(s, x, from) <= s.len(),
        seq_find(s, x, from) < s.len() ==> s[seq_find(s, x, from) as int] == x,
        forall|j: int| from <= j < seq_find(s, x, from) ==> s[j] != x,
    decreases s.len() - from,
{
    if from < s.len() && s[from as int] != x {
        lemma_seq_find(s, x, from + 1);
    }
}

/// Where the first occurrence is known, `seq_find` finds exactly it.
pub proof fn lemma_seq_find_at<A>(s: Seq<A>, x: A, from: nat, pos: nat)
    requires
        from <= pos < s.len(),
        s[pos as int] == x,
        forall|j: int| from <= j < pos ==> s[j] != x,
    ensures
        seq_find(s, x, from) == pos,
    decreases pos - from,
{
    if from < pos {
        lemma_seq_find_at(s, x, from + 1, pos);
    }
}

/// With no occurrence at all, `seq_find` reports the length.
pub proof fn lemma_seq_find_none<A>(s: Seq<A>, x: A, from: nat)
    requires
        from <= s.len(),
        forall|j: int| from <= j < s.len() ==> s[j] != x,
    ensures
        seq_find(s, x, from) == s.len(),
    decreases s.len() - from,
{
    if from < s.len() {
        lemma_seq_find_none(s, x, from + 1);
    }
}

/// `needle` occurs in `hay` starting at position `k`.
pub open spec fn contains_at(hay: Seq<char>, needle: Seq<char>, k: int) -> bool {
    0 <= k && k + needle.len() <= hay.len() && hay.subrange(k, k + needle.len()) == needle
}

/// `needle` occurs somewhere in `hay`.
pub open spec fn contains_seq(hay: Seq<char>, needle: Seq<char>) -> bool {
    exists|k: int| contains_at(hay, needle, k)
}

/// Whether `needle` occurs in `hay`, characters compared one by one.
#[verifier::loop_isolation(false)]
pub fn str_contains(hay: &str, needle: &str) -> (r: bool)
    ensures
        r == contains_seq(hay@, needle@),
{
    let hn = hay.unicode_len();
    let nn = needle.unicode_len();
    if nn > hn {
        proof {
            assert(forall|k: int| !contains_at(hay@, needle@, k));
        }
        return false;
    }
    let mut k: usize = 0;
    while k <= hn - nn
        invariant
            0 <= k <= hn - nn + 1,
            forall|j: int| 0 <= j < k ==> !contains_at(hay@, needle@, j),
        decreases hn - nn - k + 1,
    {
        let mut m: usize = 0;
        let mut matched = true;
        while m < nn
            invariant
                0 <= m <= nn,
                k + nn <= hn,
                matched <==> (forall|j: int| 0 <= j < m ==> hay@[k + j] == needle@[j]),
            decreases nn - m,
        {
            if hay.get_char(k + m) != needle.get_char(m) {
                matched = false;
            } else {
                proof {
                    if matched {
                        assert(forall|j: int| 0 <= j < m + 1 ==> hay@[k + j] == needle@[j]);
                    } else {
                        let j0 = choose|j: int| 0 <= j < m && hay@[k + j] != needle@[j];
                        assert(0 <= j0 < m + 1 && hay@[k + j0] != needle@[j0]);
                    }
                }
            }
            m = m + 1;
        }
        if matched {
            proof {
                assert(hay@.subrange(k as int, k + needle@.len()) =~= needle@);
                assert(contains_at(hay@, needle@, k as int));
            }
            return true;
        }
        proof {
            assert(!contains_at(hay@, needle@, k as int)) by {
                let j0 = choose|j: int| 0 <= j < nn && hay@[k + j] != needle@[j];
                if contains_at(hay@, needle@, k as int) {
                    assert(hay@.subrange(k as int, k + needle@.len())[j0] == needle@[j0]);
                }
            }
        }
        k = k + 1;
    }
    proof {
        assert(forall|j: int| !contains_at(hay@, needle@, j)) by {
            assert(forall|j: int| j > hn - nn ==> !contains_at(hay@, needle@, j));
        }
    }
    false
}

} // verus!
