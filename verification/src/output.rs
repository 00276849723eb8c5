use vstd::prelude::*;
use vstd::utf8::{decode_utf8, valid_utf8};
use crate::chars::{chars_of, string_of};
use crate::errors::Error;
use crate::filter::scrub;

verus! {

/// Whether `c` is whitespace: one of the Unicode `White_Space` characters,
/// the set that leading and trailing trimming removes.
pub open spec fn is_space(c: char) -> bool {
    ||| c == ' '
    ||| ('\u{0009}' <= c && c <= '\u{000D}')
    ||| c == '\u{0085}'
    ||| c == '\u{00A0}'
    ||| c == '\u{1680}'
    ||| ('\u{2000}' <= c && c <= '\u{200A}')
    ||| c == '\u{2028}'
    ||| c == '\u{2029}'
    ||| c == '\u{202F}'
    ||| c == '\u{205F}'
    ||| c == '\u{3000}'
}

/// `s` with its leading whitespace removed.
pub open spec fn trim_front(s: Seq<char>) -> Seq<char>
    decreases s.len(),
{
    if s.len() > 0 && is_space(s[0]) {
        trim_front(s.drop_first())
    } else {
        s
    }
}

/// `s` with its trailing whitespace removed.
pub open spec fn trim_back(s: Seq<char>) -> Seq<char>
    decreases s.len(),
{
    if s.len() > 0 && is_space(s.last()) {
        trim_back(s.drop_last())
    } else {
        s
    }
}

/// `s` with both its leading and its trailing whitespace removed.
pub open spec fn trimmed(s: Seq<char>) -> Seq<char> {
    trim_back(trim_front(s))
}

/// The cleaned form of the tool's decoded output: the text scrubbed of its
/// noise lines, then trimmed of leading and trailing whitespace.
pub open spec fn cleaned(text: Seq<char>) -> Seq<char> {
    trimmed(scrub(text))
}

/// Whether `c` is a whitespace character.
fn is_space_char(c: char) -> (r: bool)
    ensures
        r == is_space(c),
{
    c == ' ' || ('\u{0009}' <= c && c <= '\u{000D}') || c == '\u{0085}' || c == '\u{00A0}' || c
        == '\u{1680}' || ('\u{2000}' <= c && c <= '\u{200A}') || c == '\u{2028}' || c == '\u{2029}'
        || c == '\u{202F}' || c == '\u{205F}' || c == '\u{3000}'
}

/// `v` with its leading and trailing whitespace removed.
fn trim_chars(v: &Vec<char>) -> (r: Vec<char>)
    ensures
        r@ == trimmed(v@),
{
    let n: usize = v.len();
    let mut start: usize = 0;
    proof {
        assert(v@.skip(0) =~= v@);
    }
    while start < n && is_space_char(v[start])
        invariant
            n == v@.len(),
            start <= n,
            trim_front(v@) == trim_front(v@.skip(start as int)),
        decreases n - start,
    {
        proof {
            assert(v@.skip(start as int)[0] == v@[start as int]);
            assert(v@.skip(start as int).drop_first() =~= v@.skip((start + 1) as int));
        }
        start += 1;
    }
    proof {
        if start < n {
            assert(v@.skip(start as int)[0] == v@[start as int]);
        }
        assert(trim_front(v@) == v@.skip(start as int));
        assert(v@.skip(start as int) =~= v@.subrange(start as int, n as int));
    }
    let mut end: usize = n;
    while end > start && is_space_char(v[end - 1])
        invariant
            n == v@.len(),
            start <= end <= n,
            trim_back(v@.subrange(start as int, n as int)) == trim_back(
                v@.subrange(start as int, end as int),
            ),
        decreases end,
    {
        proof {
            let cur = v@.subrange(start as int, end as int);
            assert(cur.last() == v@[end - 1]);
            assert(cur.drop_last() =~= v@.subrange(start as int, (end - 1) as int));
        }
        end -= 1;
    }
    proof {
        let cur = v@.subrange(start as int, end as int);
        if end > start {
            assert(cur.last() == v@[end - 1]);
        }
        assert(trim_back(cur) == cur);
        assert(trimmed(v@) == v@.subrange(start as int, end as int));
    }
    let mut r: Vec<char> = Vec::new();
    let mut i: usize = start;
    while i < end
        invariant
            start <= i <= end <= n,
            n == v@.len(),
            r@ == v@.subrange(start as int, i as int),
        decreases end - i,
    {
        r.push(v[i]);
        proof {
            assert(v@.subrange(start as int, (i + 1) as int) =~= v@.subrange(
                start as int,
                i as int,
            ).push(v@[i as int]));
        }
        i += 1;
    }
    r
}

/// Relies on `std::str::from_utf8`: it succeeds exactly when the bytes are
/// valid UTF-8, and then yields the text those bytes encode, never a
/// partial decoding; on failure it describes the malformed input.
#[verifier::external_body]
fn decode_bytes(bytes: &Vec<u8>) -> (r: Result<String, String>)
    ensures
        r matches Ok(text) ==> valid_utf8(bytes@) && text@ == decode_utf8(bytes@),
        r is Err ==> !valid_utf8(bytes@),
{
    match std::str::from_utf8(bytes.as_slice()) {
        Ok(text) => Ok(text.to_string()),
        Err(e) => Err(e.to_string()),
    }
}

/// Clean a piece of decoded tool output: scrub the noise lines out of it,
/// then trim the leading and trailing whitespace. The result is exactly
/// `cleaned` of the input text.
pub fn clean_text(text: &str) -> (r: String)
    ensures
        r@ == cleaned(text@),
{
    let cs = chars_of(text);
    let scrubbed = crate::filter::scrub_chars(&cs);
    let out = trim_chars(&scrubbed);
    string_of(&out)
}

/// Turn the tool's captured standard-output bytes into the cleaned
/// configuration text.
///
/// When the bytes are valid UTF-8 the call succeeds and returns the decoded
/// text, scrubbed of noise lines and trimmed of surrounding whitespace;
/// when they are not, it fails with the text-decode error and never returns
/// a partially decoded string.
pub fn process_output(stdout: Vec<u8>) -> (r: Result<String, Error>)
    ensures
        valid_utf8(stdout@) ==> (r matches Ok(text) && text@ == cleaned(decode_utf8(stdout@))),
        !valid_utf8(stdout@) ==> (r matches Err(e) && e is Utf8Error),
{
    match decode_bytes(&stdout) {
        Ok(text) => Ok(clean_text(text.as_str())),
        Err(message) => Err(Error::Utf8Error(message)),
    }
}

} // verus!
