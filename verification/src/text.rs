//! Text handling over character vectors.
//!
//! Shader source is processed as `Vec<char>` so that every step of the
//! expansion can be specified over `Seq<char>`. The only trusted code in the
//! crate's text handling is the pair of conversions between `str` and
//! character vectors.

use vstd::prelude::*;

verus! {

/// The characters of a string, in order: exactly the string's view.
pub fn chars_of(s: &str) -> (r: Vec<char>)
    ensures
        r@ == s@,
{
    broadcast use vstd::string::axiom_spec_iter;

    let mut r: Vec<char> = Vec::new();
    for c in it: s.chars()
        invariant
            it.seq() == s@,
            r@.len() == it.index(),
            forall|j: int| 0 <= j < r@.len() ==> r@[j] == it.seq()[j],
    {
        r.push(c);
    }
    proof {
        assert(r@ =~= s@);
    }
    r
}

/// Relies on String's FromIterator over characters: collecting characters
/// yields the string whose view is that character sequence.
#[verifier::external_body]
pub fn string_of(v: &Vec<char>) -> (r: String)
    ensures
        r@ == v@,
{
    v.iter().collect()
}

/// Whether two character vectors hold the same text.
pub fn chars_eq(a: &Vec<char>, b: &Vec<char>) -> (r: bool)
    ensures
        r == (a@ == b@),
{
    if a.len() != b.len() {
        return false;
    }
    let n = a.len();
    for i in 0..n
        invariant
            n == a.len(),
            n == b.len(),
            forall|j: int| 0 <= j < i ==> a@[j] == b@[j],
    {
        if a[i] != b[i] {
            return false;
        }
    }
    proof {
        assert(a@ =~= b@);
    }
    true
}

/// A copy of a character vector.
pub fn copy_chars(a: &Vec<char>) -> (r: Vec<char>)
    ensures
        r@ == a@,
{
    let mut r: Vec<char> = Vec::new();
    let n = a.len();
    for i in 0..n
        invariant
            n == a.len(),
            r@ == a@.subrange(0, i as int),
    {
        r.push(a[i]);
        proof {
            assert(r@ =~= a@.subrange(0, i + 1));
        }
    }
    proof {
        assert(r@ =~= a@);
    }
    r
}

/// A copy of the range `[a, b)` of a character vector.
pub fn copy_range(s: &Vec<char>, a: usize, b: usize) -> (r: Vec<char>)
    requires
        a <= b <= s@.len(),
    ensures
        r@ == s@.subrange(a as int, b as int),
{
    let mut r: Vec<char> = Vec::new();
    for i in a..b
        invariant
            a <= b <= s@.len(),
            r@ == s@.subrange(a as int, i as int),
    {
        r.push(s[i]);
        proof {
            assert(r@ =~= s@.subrange(a as int, i + 1));
        }
    }
    r
}

/// The text with the range `[a, c)` replaced by `t`.
pub fn splice(s: &Vec<char>, a: usize, c: usize, t: &Vec<char>) -> (r: Vec<char>)
    requires
        a <= c <= s@.len(),
    ensures
        r@ == s@.subrange(0, a as int) + t@ + s@.subrange(c as int, s@.len() as int),
{
    let mut r: Vec<char> = Vec::new();
    for i in 0..a
        invariant
            a <= c <= s@.len(),
            r@ == s@.subrange(0, i as int),
    {
        r.push(s[i]);
        proof {
            assert(r@ =~= s@.subrange(0, i + 1));
        }
    }
    let m = t.len();
    for i in 0..m
        invariant
            m == t.len(),
            a <= c <= s@.len(),
            r@ == s@.subrange(0, a as int) + t@.subrange(0, i as int),
    {
        r.push(t[i]);
        proof {
            assert(r@ =~= s@.subrange(0, a as int) + t@.subrange(0, i + 1));
        }
    }
    let n = s.len();
    for i in c..n
        invariant
            n == s@.len(),
            m == t.len(),
            a <= c <= s@.len(),
            r@ == s@.subrange(0, a as int) + t@ + s@.subrange(c as int, i as int),
    {
        r.push(s[i]);
        proof {
            assert(t@.subrange(0, m as int) =~= t@);
            assert(r@ =~= s@.subrange(0, a as int) + t@ + s@.subrange(c as int, i + 1));
        }
    }
    proof {
        assert(t@.subrange(0, m as int) =~= t@);
    }
    r
}

} // verus!
