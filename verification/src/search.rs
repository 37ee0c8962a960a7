//! Searching a byte sequence for a pattern.
use vstd::prelude::*;

verus! {

/// `pat` occurs in `s` starting at index `i`.
pub open spec fn matches_at(s: Seq<u8>, pat: Seq<u8>, i: int) -> bool {
    0 <= i && i + pat.len() <= s.len() && s.subrange(i, i + pat.len()) == pat
}

/// `i` is the first index at which `pat` occurs in `s`.
pub open spec fn is_first_match(s: Seq<u8>, pat: Seq<u8>, i: int) -> bool {
    matches_at(s, pat, i) && forall|j: int| 0 <= j < i ==> !matches_at(s, pat, j)
}

/// The first index at which `pat` occurs in `s`, if any.
pub open spec fn first_match(s: Seq<u8>, pat: Seq<u8>) -> Option<int> {
    if exists|i: int| matches_at(s, pat, i) {
        Some(choose|i: int| is_first_match(s, pat, i))
    } else {
        None
    }
}

/// Whenever `pat` occurs, it has a first occurrence at or before `k`.
pub proof fn lemma_first_match_exists(s: Seq<u8>, pat: Seq<u8>, k: int)
    requires
        matches_at(s, pat, k),
    ensures
        exists|i: int| i <= k && is_first_match(s, pat, i),
    decreases k,
{
    if exists|j: int| 0 <= j < k && matches_at(s, pat, j) {
        let j = choose|j: int| 0 <= j < k && matches_at(s, pat, j);
        lemma_first_match_exists(s, pat, j);
    } else {
        assert(is_first_match(s, pat, k));
    }
}

/// The first match is unique, so `first_match` names it.
pub proof fn lemma_first_match_is(s: Seq<u8>, pat: Seq<u8>, i: int)
    requires
        is_first_match(s, pat, i),
    ensures
        first_match(s, pat) == Some(i),
{
    let k = choose|k: int| is_first_match(s, pat, k);
    assert(is_first_match(s, pat, k));
    if k < i {
        assert(!matches_at(s, pat, k));
    } else if i < k {
        assert(!matches_at(s, pat, i));
    }
}

/// `first_match` is a first match when it is `Some`.
pub proof fn lemma_first_match_some(s: Seq<u8>, pat: Seq<u8>)
    requires
        first_match(s, pat) is Some,
    ensures
        is_first_match(s, pat, first_match(s, pat)->0),
{
    let k = choose|k: int| matches_at(s, pat, k);
    lemma_first_match_exists(s, pat, k);
}

/// The first index at or after `start` where `pat` occurs in `s`
/// (`s[start..].windows(pat.len()).position(..)` shifted by `start`).
pub fn find_from(s: &[u8], pat: &[u8], start: usize) -> (r: Option<usize>)
    requires
        start <= s@.len(),
        pat@.len() > 0,
    ensures
        r is None <==> first_match(s@.skip(start as int), pat@) is None,
        r matches Some(i) ==> first_match(s@.skip(start as int), pat@) == Some(i - start),
        r matches Some(i) ==> start <= i && i + pat@.len() <= s@.len(),
{
    let ghost rest = s@.skip(start as int);
    if pat.len() > s.len() - start {
        assert forall|j: int| !matches_at(rest, pat@, j) by {}
        return None;
    }
    let n = s.len();
    let last = n - pat.len();
    let mut i = start;
    while i <= last
        invariant
            n == s@.len(),
            pat@.len() > 0,
            start <= i <= last + 1,
            last + pat@.len() == s@.len(),
            rest == s@.skip(start as int),
            forall|j: int| 0 <= j < i - start ==> !matches_at(rest, pat@, j),
        decreases last + 1 - i,
    {
        let mut k: usize = 0;
        let mut same = true;
        while k < pat.len()
            invariant
                0 <= k <= pat@.len(),
                n == s@.len(),
                i <= last,
                last + pat@.len() == s@.len(),
                same <==> forall|m: int| 0 <= m < k ==> s@[i + m] == pat@[m],
            decreases pat@.len() - k,
        {
            if s[i + k] != pat[k] {
                same = false;
            }
            k = k + 1;
        }
        proof {
            let j = i - start;
            assert(rest.subrange(j, j + pat@.len()) =~= s@.subrange(i as int, i + pat@.len()));
            if same {
                assert(s@.subrange(i as int, i + pat@.len()) =~= pat@);
            } else {
                let m = choose|m: int| 0 <= m < pat@.len() && s@[i + m] != pat@[m];
                assert(s@.subrange(i as int, i + pat@.len())[m] != pat@[m]);
            }
        }
        if same {
            proof {
                lemma_first_match_is(rest, pat@, i - start);
            }
            return Some(i);
        }
        i = i + 1;
    }
    proof {
        assert forall|j: int| !matches_at(rest, pat@, j) by {
            if 0 <= j && j >= i - start && matches_at(rest, pat@, j) {
                assert(j + pat@.len() <= rest.len());
            }
        }
    }
    None
}

/// The first index at or after `start` holding byte `b`
/// (`s[start..].iter().position(|x| *x == b)` shifted by `start`).
pub fn find_byte(s: &[u8], b: u8, start: usize) -> (r: Option<usize>)
    requires
        start <= s@.len(),
    ensures
        r is None <==> first_match(s@.skip(start as int), seq![b]) is None,
        r matches Some(i) ==> first_match(s@.skip(start as int), seq![b]) == Some(i - start),
        r matches Some(i) ==> start <= i < s@.len() && s@[i as int] == b,
{
    let ghost rest = s@.skip(start as int);
    let mut i = start;
    while i < s.len()
        invariant
            start <= i <= s@.len(),
            rest == s@.skip(start as int),
            forall|j: int| 0 <= j < i - start ==> !matches_at(rest, seq![b], j),
        decreases s@.len() - i,
    {
        proof {
            let j = i - start;
            assert(rest.subrange(j, j + 1) =~= seq![s@[i as int]]);
        }
        if s[i] == b {
            proof {
                lemma_first_match_is(rest, seq![b], i - start);
            }
            return Some(i);
        }
        assert(seq![s@[i as int]][0] != seq![b][0]);
        i = i + 1;
    }
    proof {
        assert forall|j: int| !matches_at(rest, seq![b], j) by {
            if 0 <= j && j >= i - start && matches_at(rest, seq![b], j) {
                assert(j + 1 <= rest.len());
            }
        }
    }
    None
}

} // verus!
