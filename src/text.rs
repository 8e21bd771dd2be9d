use vstd::prelude::*;
use vstd::string::StrSliceExecFns;

verus! {

/// Relies on `String::push`: appends one character.
#[verifier::external_body]
pub(crate) fn push_char(s: &mut String, c: char)
    ensures
        final(s)@ == old(s)@.push(c),
{
    s.push(c)
}

/// Relies on `String::push_str`: appends a string.
#[verifier::external_body]
pub(crate) fn push_str(s: &mut String, t: &str)
    ensures
        final(s)@ == old(s)@ + t@,
{
    s.push_str(t)
}

/// Whether `p` starts with `q`, char by char, from position 0.
pub fn starts_with(p: &str, q: &str) -> (r: bool)
    ensures
        r == q@.is_prefix_of(p@),
{
    let n = q.unicode_len();
    let m = p.unicode_len();
    if n > m {
        return false;
    }
    let mut i: usize = 0;
    while i < n
        invariant
            n == q@.len(),
            m == p@.len(),
            n <= m,
            0 <= i <= n,
            forall|j: int| 0 <= j < i ==> p@[j] == q@[j],
        decreases n - i,
    {
        if p.get_char(i) != q.get_char(i) {
            return false;
        }
        i = i + 1;
    }
    assert(p@.subrange(0, q@.len() as int) =~= q@);
    true
}

/// Whether two strings hold the same characters.
pub fn str_eq(p: &str, q: &str) -> (r: bool)
    ensures
        r == (p@ == q@),
{
    let n = q.unicode_len();
    let m = p.unicode_len();
    if n != m {
        return false;
    }
    let b = starts_with(p, q);
    if b {
        assert(p@ =~= p@.subrange(0, n as int));
    }
    b
}

} // verus!
