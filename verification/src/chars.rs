use vstd::prelude::*;
use vstd::string::StrSliceExecFns;

verus! {

/// The characters of `s`, in order, as a vector.
pub(crate) fn chars_of(s: &str) -> (r: Vec<char>)
    ensures
        r@ == s@,
{
    let n: usize = s.unicode_len();
    let mut r: Vec<char> = Vec::new();
    let mut i: usize = 0;
    while i < n
        invariant
            n == s@.len(),
            i <= n,
            r@ == s@.take(i as int),
        decreases n - i,
    {
        r.push(s.get_char(i));
        proof {
            assert(s@.take((i + 1) as int) =~= s@.take(i as int).push(s@[i as int]));
        }
        i += 1;
    }
    proof {
        assert(s@.take(n as int) =~= s@);
    }
    r
}

/// Relies on `String::push`: it appends the given character to the end of
/// the string.
#[verifier::external_body]
fn push_char(s: &mut String, c: char)
    ensures
        final(s)@ == old(s)@.push(c),
{
    s.push(c);
}

/// The string holding exactly the characters of `chars`, in order.
pub(crate) fn string_of(chars: &Vec<char>) -> (r: String)
    ensures
        r@ == chars@,
{
    let mut r = String::new();
    let mut i: usize = 0;
    while i < chars.len()
        invariant
            i <= chars@.len(),
            r@ == chars@.take(i as int),
        decreases chars@.len() - i,
    {
        push_char(&mut r, chars[i]);
        proof {
            assert(chars@.take((i + 1) as int) =~= chars@.take(i as int).push(chars@[i as int]));
        }
        i += 1;
    }
    proof {
        assert(chars@.take(chars@.len() as int) =~= chars@);
    }
    r
}

/// Whether the characters of `pat` are an initial segment of `line`.
pub(crate) fn has_prefix(line: &Vec<char>, pat: &str) -> (r: bool)
    ensures
        r == pat@.is_prefix_of(line@),
{
    let m: usize = pat.unicode_len();
    if line.len() < m {
        return false;
    }
    let mut i: usize = 0;
    while i < m
        invariant
            m == pat@.len(),
            m <= line@.len(),
            i <= m,
            forall|j: int| 0 <= j < i ==> pat@[j] == line@[j],
        decreases m - i,
    {
        if pat.get_char(i) != line[i] {
            proof {
                assert(!pat@.is_prefix_of(line@)) by {
                    if pat@.is_prefix_of(line@) {
                        assert(pat@[i as int] == line@.subrange(0, m as int)[i as int]);
                    }
                }
            }
            return false;
        }
        i += 1;
    }
    proof {
        assert(pat@ =~= line@.subrange(0, m as int));
    }
    true
}

/// Whether the characters of `pat` are a final segment of `line`.
pub(crate) fn has_suffix(line: &Vec<char>, pat: &str) -> (r: bool)
    ensures
        r == pat@.is_suffix_of(line@),
{
    let m: usize = pat.unicode_len();
    if line.len() < m {
        return false;
    }
    let llen: usize = line.len();
    let d: usize = llen - m;
    let mut i: usize = 0;
    while i < m
        invariant
            m == pat@.len(),
            llen == line@.len(),
            m <= llen,
            d == llen - m,
            i <= m,
            forall|j: int| 0 <= j < i ==> pat@[j] == line@[d + j],
        decreases m - i,
    {
        if pat.get_char(i) != line[d + i] {
            proof {
                assert(!pat@.is_suffix_of(line@)) by {
                    if pat@.is_suffix_of(line@) {
                        assert(pat@[i as int] == line@.subrange(
                            d as int,
                            line@.len() as int,
                        )[i as int]);
                    }
                }
            }
            return false;
        }
        i += 1;
    }
    proof {
        assert(pat@ =~= line@.subrange(d as int, line@.len() as int));
    }
    true
}

} // verus!
