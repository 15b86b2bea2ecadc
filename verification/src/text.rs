//! Character-level plumbing shared by the classifier and the prettifier:
//! conversions between `&str` and `Vec<char>`, and searching for fixed
//! character patterns inside a character vector.

use vstd::prelude::*;

verus! {

/// Relies on `String::push` from std, which vstd does not specify: the std
/// documentation says it "appends the given char to the end of this String".
pub assume_specification[ String::push ](s: &mut String, ch: char)
    ensures
        final(s)@ == old(s)@.push(ch),
;

/// Copies the characters of a string into a vector, so that the rest of the
/// library can work with constant-time indexing.
pub fn to_chars(s: &str) -> (r: Vec<char>)
    ensures
        r@ == s@,
{
    let n = s.unicode_len();
    let mut r: Vec<char> = Vec::new();
    let mut i: usize = 0;
    while i < n
        invariant
            n == s@.len(),
            i <= n,
            r@ == s@.subrange(0, i as int),
        decreases n - i,
    {
        r.push(s.get_char(i));
        i = i + 1;
        proof {
            assert(r@ =~= s@.subrange(0, i as int));
        }
    }
    proof {
        assert(r@ =~= s@);
    }
    r
}

/// Copies the characters `v[start..end]` into a fresh vector.
pub fn sub_chars(v: &Vec<char>, start: usize, end: usize) -> (r: Vec<char>)
    requires
        start <= end <= v@.len(),
    ensures
        r@ == v@.subrange(start as int, end as int),
{
    let mut r: Vec<char> = Vec::new();
    let mut i: usize = start;
    while i < end
        invariant
            start <= i <= end <= v@.len(),
            r@ == v@.subrange(start as int, i as int),
        decreases end - i,
    {
        r.push(v[i]);
        i = i + 1;
        proof {
            assert(r@ =~= v@.subrange(start as int, i as int));
        }
    }
    r
}

/// The pattern `p` occurs in `s` starting at position `i`.
pub open spec fn pat_at(s: Seq<char>, p: Seq<char>, i: int) -> bool {
    0 <= i && i + p.len() <= s.len() && s.subrange(i, i + p.len() as int) == p
}

/// The position of the first occurrence of `p` in `s` at or after `from`,
/// or -1 if there is none.
pub open spec fn find_pat(s: Seq<char>, p: Seq<char>, from: int) -> int
    decreases s.len() + 1 - from,
{
    if from < 0 || from + p.len() > s.len() {
        -1
    } else if pat_at(s, p, from) {
        from
    } else {
        find_pat(s, p, from + 1)
    }
}

/// The position of the last occurrence of `p` in `s` that starts in
/// `[lo, hi]`, or -1 if there is none.
pub open spec fn rfind_pat(s: Seq<char>, p: Seq<char>, lo: int, hi: int) -> int
    decreases hi + 1 - lo,
{
    if hi < lo {
        -1
    } else if pat_at(s, p, hi) {
        hi
    } else {
        rfind_pat(s, p, lo, hi - 1)
    }
}

/// `find_pat` returns -1 exactly when the pattern does not occur at or after
/// `from`, and otherwise the earliest occurrence.
pub proof fn lemma_find_pat(s: Seq<char>, p: Seq<char>, from: int)
    requires
        from >= 0,
    ensures
        find_pat(s, p, from) == -1 ==> forall|j: int| from <= j ==> !pat_at(s, p, j),
        find_pat(s, p, from) >= 0 ==> from <= find_pat(s, p, from) && pat_at(
            s,
            p,
            find_pat(s, p, from),
        ),
        find_pat(s, p, from) >= 0 ==> forall|j: int|
            from <= j < find_pat(s, p, from) ==> !pat_at(s, p, j),
        find_pat(s, p, from) >= -1,
    decreases s.len() + 1 - from,
{
    if from + p.len() > s.len() {
        assert forall|j: int| from <= j implies !pat_at(s, p, j) by {}
    } else if pat_at(s, p, from) {
    } else {
        lemma_find_pat(s, p, from + 1);
    }
}

/// `rfind_pat` returns -1 exactly when the pattern does not start anywhere in
/// `[lo, hi]`, and otherwise the latest such occurrence.
pub proof fn lemma_rfind_pat(s: Seq<char>, p: Seq<char>, lo: int, hi: int)
    ensures
        rfind_pat(s, p, lo, hi) == -1 ==> forall|j: int| lo <= j <= hi ==> !pat_at(s, p, j),
        rfind_pat(s, p, lo, hi) >= 0 ==> lo <= rfind_pat(s, p, lo, hi) <= hi && pat_at(
            s,
            p,
            rfind_pat(s, p, lo, hi),
        ),
        rfind_pat(s, p, lo, hi) >= 0 ==> forall|j: int|
            rfind_pat(s, p, lo, hi) < j <= hi ==> !pat_at(s, p, j),
        rfind_pat(s, p, lo, hi) >= -1,
    decreases hi + 1 - lo,
{
    if hi < lo {
    } else if pat_at(s, p, hi) {
    } else {
        lemma_rfind_pat(s, p, lo, hi - 1);
    }
}

/// Decides whether `p` occurs in `v` starting at position `i`.
pub fn pat_at_exec(v: &Vec<char>, p: &Vec<char>, i: usize) -> (r: bool)
    ensures
        r == pat_at(v@, p@, i as int),
{
    if p.len() > v.len() || i > v.len() - p.len() {
        return false;
    }
    let mut k: usize = 0;
    while k < p.len()
        invariant
            i + p.len() <= v.len(),
            k <= p@.len(),
            forall|m: int| 0 <= m < k ==> v@[i + m] == p@[m],
        decreases p@.len() - k,
    {
        if v[i + k] != p[k] {
            assert(v@.subrange(i as int, i + p@.len() as int)[k as int] != p@[k as int]);
            return false;
        }
        k = k + 1;
    }
    proof {
        assert(v@.subrange(i as int, i + p@.len() as int) =~= p@);
    }
    true
}

/// Decides whether two character vectors hold the same characters.
pub fn chars_eq(v: &Vec<char>, p: &Vec<char>) -> (r: bool)
    ensures
        r == (v@ == p@),
{
    if v.len() != p.len() {
        return false;
    }
    let r = pat_at_exec(v, p, 0);
    proof {
        if pat_at(v@, p@, 0) {
            assert(v@.subrange(0, p@.len() as int) =~= v@);
        }
        if v@ == p@ {
            assert(v@.subrange(0, p@.len() as int) =~= p@);
        }
    }
    r
}

/// Finds the first occurrence of `p` in `v` at or after `from`.
pub fn find_pat_exec(v: &Vec<char>, p: &Vec<char>, from: usize) -> (r: Option<usize>)
    ensures
        match r {
            Some(j) => find_pat(v@, p@, from as int) == j,
            None => find_pat(v@, p@, from as int) == -1,
        },
{
    if p.len() > v.len() || from > v.len() - p.len() {
        return None;
    }
    let last = v.len() - p.len();
    let mut j: usize = from;
    loop
        invariant
            from <= j <= last,
            last == v@.len() - p@.len(),
            p@.len() <= v@.len(),
            find_pat(v@, p@, from as int) == find_pat(v@, p@, j as int),
        decreases last - j,
    {
        if pat_at_exec(v, p, j) {
            return Some(j);
        }
        if j == last {
            proof {
                assert(find_pat(v@, p@, j as int) == find_pat(v@, p@, j + 1));
                assert(find_pat(v@, p@, j + 1) == -1);
            }
            return None;
        }
        j = j + 1;
    }
}

/// Finds the last occurrence of `p` in `v` that starts in `[lo, hi]`.
/// `hi` may be given as -1 (as an empty range) by passing `hi_plus_one == 0`;
/// the bound is passed as `hi_plus_one = hi + 1` so that it is a usize.
pub fn rfind_pat_exec(v: &Vec<char>, p: &Vec<char>, lo: usize, hi_plus_one: usize) -> (r: Option<
    usize,
>)
    ensures
        match r {
            Some(j) => rfind_pat(v@, p@, lo as int, hi_plus_one - 1) == j,
            None => rfind_pat(v@, p@, lo as int, hi_plus_one - 1) == -1,
        },
{
    let mut j: usize = hi_plus_one;
    while j > lo
        invariant
            rfind_pat(v@, p@, lo as int, hi_plus_one - 1) == rfind_pat(v@, p@, lo as int, j - 1),
        decreases j,
    {
        j = j - 1;
        if pat_at_exec(v, p, j) {
            return Some(j);
        }
    }
    None
}

/// Builds a string out of the characters `v[start..end]`.
pub fn from_chars(v: &Vec<char>, start: usize, end: usize) -> (r: String)
    requires
        start <= end <= v@.len(),
    ensures
        r@ == v@.subrange(start as int, end as int),
{
    let mut r = String::new();
    let mut i: usize = start;
    while i < end
        invariant
            start <= i <= end <= v@.len(),
            r@ == v@.subrange(start as int, i as int),
        decreases end - i,
    {
        r.push(v[i]);
        i = i + 1;
        proof {
            assert(r@ =~= v@.subrange(start as int, i as int));
        }
    }
    r
}

} // verus!
