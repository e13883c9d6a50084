//! Finding a byte pattern in a byte string.

use vstd::prelude::*;

verus! {

/// `pat` occurs in `s` starting at `i`.
pub open spec fn occurs_at(s: Seq<u8>, pat: Seq<u8>, i: int) -> bool {
    0 <= i && i + pat.len() <= s.len() && s.subrange(i, i + pat.len()) == pat
}

/// `i` is the first place at or after `from` where `pat` occurs in `s`.
pub open spec fn is_first_occurrence(s: Seq<u8>, pat: Seq<u8>, from: int, i: int) -> bool {
    &&& from <= i
    &&& occurs_at(s, pat, i)
    &&& forall|j: int| from <= j < i ==> !#[trigger] occurs_at(s, pat, j)
}

/// The first place at or after `from` where `pat` occurs in `s`, if any.
pub open spec fn first_occurrence(s: Seq<u8>, pat: Seq<u8>, from: int) -> Option<int> {
    if exists|i: int| is_first_occurrence(s, pat, from, i) {
        Some(choose|i: int| is_first_occurrence(s, pat, from, i))
    } else {
        None
    }
}

pub proof fn lemma_first_occurrence_unique(s: Seq<u8>, pat: Seq<u8>, from: int, i: int)
    requires
        is_first_occurrence(s, pat, from, i),
    ensures
        first_occurrence(s, pat, from) == Some(i),
{
    let j = choose|j: int| is_first_occurrence(s, pat, from, j);
    assert(is_first_occurrence(s, pat, from, j));
    if j < i {
        assert(!occurs_at(s, pat, j));
    } else if i < j {
        assert(!occurs_at(s, pat, i));
    }
}

fn matches_at(hay: &[u8], pat: &[u8], i: usize) -> (r: bool)
    requires
        i + pat@.len() <= hay@.len(),
    ensures
        r == occurs_at(hay@, pat@, i as int),
{
    let n = hay.len();
    let mut k: usize = 0;
    while k < pat.len()
        invariant
            n == hay@.len(),
            i + pat@.len() <= hay@.len(),
            k <= pat@.len(),
            forall|m: int| 0 <= m < k ==> hay@[i + m] == pat@[m],
        decreases pat@.len() - k,
    {
        if hay[i + k] != pat[k] {
            assert(hay@.subrange(i as int, i + pat@.len())[k as int] != pat@[k as int]);
            return false;
        }
        k = k + 1;
    }
    assert(hay@.subrange(i as int, i + pat@.len()) =~= pat@);
    true
}

/// The first place at or after `from` where `pat` occurs in `hay`.
pub fn find_from(hay: &[u8], pat: &[u8], from: usize) -> (r: Option<usize>)
    requires
        pat@.len() > 0,
    ensures
        match r {
            Some(i) => first_occurrence(hay@, pat@, from as int) == Some(i as int),
            None => first_occurrence(hay@, pat@, from as int) is None,
        },
{
    let n = hay.len();
    let m = pat.len();
    let mut i: usize = from;
    while i <= n && n - i >= m
        invariant
            n == hay@.len(),
            m == pat@.len(),
            m > 0,
            from <= i,
            forall|j: int| from <= j < i ==> !#[trigger] occurs_at(hay@, pat@, j),
        decreases n + 1 - i,
    {
        if matches_at(hay, pat, i) {
            proof {
                assert(is_first_occurrence(hay@, pat@, from as int, i as int));
                lemma_first_occurrence_unique(hay@, pat@, from as int, i as int);
            }
            return Some(i);
        }
        i = i + 1;
    }
    proof {
        assert forall|j: int| !is_first_occurrence(hay@, pat@, from as int, j) by {
            if is_first_occurrence(hay@, pat@, from as int, j) {
                assert(occurs_at(hay@, pat@, j));
                if j < i {
                } else {
                    assert(j + m > n);
                }
            }
        }
    }
    None
}

} // verus!
