//! Utilities over character sequences.
//!
//! All dictionary text (headwords, readings, glosses, query strings) is held
//! as `Vec<char>`, so that stripping and appending of inflection suffixes
//! and prefix tests can be verified directly over `Seq<char>` views.

use vstd::prelude::*;

verus! {

/// `p` occurs in `s` starting at position `start` (and fits).
pub open spec fn is_prefix_at(p: Seq<char>, s: Seq<char>, start: int) -> bool {
    &&& 0 <= start
    &&& start + p.len() <= s.len()
    &&& p == s.subrange(start, start + p.len())
}

/// Equality of two character vectors.
pub fn chars_eq(a: &Vec<char>, b: &Vec<char>) -> (r: bool)
    ensures
        r == (a@ == b@),
{
    if a.len() != b.len() {
        assert(a@ != b@);
        return false;
    }
    let mut i: usize = 0;
    while i < a.len()
        invariant
            i <= a.len(),
            a@.len() == b@.len(),
            forall|j: int| 0 <= j < i ==> a@[j] == b@[j],
        decreases a.len() - i,
    {
        if a[i] != b[i] {
            assert(a@ != b@);
            return false;
        }
        i += 1;
    }
    assert(a@ =~= b@);
    true
}

/// True when `p` occurs in `s` at position `start`.
pub fn starts_with_at(s: &Vec<char>, start: usize, p: &Vec<char>) -> (r: bool)
    ensures
        r == is_prefix_at(p@, s@, start as int),
{
    if p.len() > s.len() || start > s.len() - p.len() {
        return false;
    }
    let mut i: usize = 0;
    while i < p.len()
        invariant
            i <= p.len(),
            start + p.len() <= s.len(),
            forall|j: int| 0 <= j < i ==> p@[j] == s@[start + j],
        decreases p.len() - i,
    {
        if p[i] != s[start + i] {
            assert(p@ != s@.subrange(start as int, start + p@.len())) by {
                assert(s@.subrange(start as int, start + p@.len())[i as int] == s@[start + i]);
            }
            return false;
        }
        i += 1;
    }
    assert(p@ =~= s@.subrange(start as int, start + p@.len()));
    true
}

/// Copies `a` with `b` appended.
pub fn chars_concat(a: &Vec<char>, b: &Vec<char>) -> (r: Vec<char>)
    ensures
        r@ == a@ + b@,
{
    let mut r: Vec<char> = Vec::new();
    let mut i: usize = 0;
    while i < a.len()
        invariant
            i <= a.len(),
            r@ =~= a@.take(i as int),
        decreases a.len() - i,
    {
        r.push(a[i]);
        i += 1;
    }
    let mut j: usize = 0;
    while j < b.len()
        invariant
            j <= b.len(),
            r@ =~= a@ + b@.take(j as int),
        decreases b.len() - j,
    {
        r.push(b[j]);
        j += 1;
    }
    assert(r@ =~= a@ + b@);
    r
}

/// A copy of `a`.
pub fn chars_copy(a: &Vec<char>) -> (r: Vec<char>)
    ensures
        r@ == a@,
{
    let mut r: Vec<char> = Vec::new();
    let mut i: usize = 0;
    while i < a.len()
        invariant
            i <= a.len(),
            r@ =~= a@.take(i as int),
        decreases a.len() - i,
    {
        r.push(a[i]);
        i += 1;
    }
    assert(r@ =~= a@);
    r
}

/// The first `n` characters of `a`.
pub fn chars_take(a: &Vec<char>, n: usize) -> (r: Vec<char>)
    requires
        n <= a@.len(),
    ensures
        r@ == a@.take(n as int),
{
    let mut r: Vec<char> = Vec::new();
    let mut i: usize = 0;
    while i < n
        invariant
            i <= n,
            n <= a@.len(),
            r@ =~= a@.take(i as int),
        decreases n - i,
    {
        r.push(a[i]);
        i += 1;
    }
    assert(r@ =~= a@.take(n as int));
    r
}

/// The characters of `a` from position `start` on.
pub fn chars_skip(a: &Vec<char>, start: usize) -> (r: Vec<char>)
    requires
        start <= a@.len(),
    ensures
        r@ == a@.skip(start as int),
{
    let mut r: Vec<char> = Vec::new();
    let mut i: usize = start;
    while i < a.len()
        invariant
            start <= i <= a.len(),
            r@ =~= a@.subrange(start as int, i as int),
        decreases a.len() - i,
    {
        r.push(a[i]);
        i += 1;
    }
    assert(r@ =~= a@.skip(start as int));
    r
}

} // verus!
