//! Reading scalar values from the flat JSON manifest of exported K/V pages.
//!
//! A value is the text after `"key":`, up to the first `,`, line end or `}`,
//! trimmed of whitespace.

use vstd::prelude::*;
use vstd::string::StrSliceExecFns;
use vstd::string::StringExecFns;
use crate::text::{
    chars_match, chars_of, int_error_message, is_space, lemma_parse_radix_bounds, lemma_trim_start_at,
    parse_radix,
    parse_radix_spec, trim_bounds, trim_spec, trim_start_spec,
};

verus! {

/// First position at or after `i` where `pat` occurs in `s`.
pub open spec fn find_sub(s: Seq<char>, pat: Seq<char>, i: int) -> Option<int>
    decreases s.len() + 1 - i,
{
    if i < 0 || i + pat.len() > s.len() {
        None
    } else if s.subrange(i, i + pat.len()) == pat {
        Some(i)
    } else {
        find_sub(s, pat, i + 1)
    }
}

/// The marker that precedes a key's value: the quoted key and a colon.
pub open spec fn key_marker(key: Seq<char>) -> Seq<char> {
    seq!['"'] + key + seq!['"', ':']
}

/// A character that ends a manifest value.
pub open spec fn ends_value(c: char) -> bool {
    c == ',' || c == '\n' || c == '}'
}

/// Length of the prefix of `s` before its first value end.
pub open spec fn value_len(s: Seq<char>) -> int
    decreases s.len(),
{
    if s.len() == 0 || ends_value(s[0]) {
        0
    } else {
        1 + value_len(s.drop_first())
    }
}

/// The value text of `key`, or `None` when the key does not occur.
pub open spec fn json_value_spec(raw: Seq<char>, key: Seq<char>) -> Option<Seq<char>> {
    match find_sub(raw, key_marker(key), 0) {
        None => None,
        Some(j) => {
            let rest = trim_start_spec(raw.skip(j + key_marker(key).len()));
            Some(trim_spec(rest.take(value_len(rest))))
        },
    }
}

/// The message reported for a key that does not occur.
pub open spec fn missing_key_message(key: Seq<char>) -> Seq<char> {
    "manifest key is missing: "@ + key
}

proof fn lemma_value_len_at(s: Seq<char>, lo: int, r: int, hi: int)
    requires
        0 <= lo <= r <= hi <= s.len(),
        forall|k: int| lo <= k < r ==> !ends_value(#[trigger] s[k]),
        r == hi || ends_value(s[r]),
    ensures
        value_len(s.subrange(lo, hi)) == r - lo,
    decreases r - lo,
{
    if lo < r {
        assert(s.subrange(lo, hi).drop_first() =~= s.subrange(lo + 1, hi));
        lemma_value_len_at(s, lo + 1, r, hi);
    }
}

/// The trimmed text of the value of `key` in a flat JSON manifest.
pub fn json_value<'a>(raw: &'a str, key: &str) -> (res: Result<&'a str, String>)
    ensures
        match json_value_spec(raw@, key@) {
            Some(v) => res matches Ok(s) && s@ == v,
            None => res matches Err(m) && m@ == missing_key_message(key@),
        },
{
    let chars = chars_of(raw);
    let n = chars.len();
    let mut marker = String::from_str("\"");
    marker.append(key);
    marker.append("\":");
    proof {
        reveal_strlit("\"");
        reveal_strlit("\":");
        assert(marker@ =~= key_marker(key@));
    }
    let pat = chars_of(marker.as_str());
    let m = pat.len();
    let mut j: usize = 0;
    let mut found = false;
    while j < n && n - j >= m
        invariant_except_break
            !found,
        invariant
            j <= n,
            n == chars@.len(),
            chars@ == raw@,
            pat@ == key_marker(key@),
            m == pat@.len(),
            find_sub(raw@, pat@, 0) == find_sub(raw@, pat@, j as int),
        ensures
            found ==> find_sub(raw@, pat@, 0) == Some(j as int) && j + m <= n,
            !found ==> find_sub(raw@, pat@, 0) is None,
        decreases n - j,
    {
        if chars_match(chars.as_slice(), j, j + m, pat.as_slice()) {
            found = true;
            break;
        }
        j += 1;
    }
    if !found {
        let mut message = String::from_str("manifest key is missing: ");
        message.append(key);
        return Err(message);
    }
    let start = j + m;
    let a = trim_start_index(chars.as_slice(), start);
    proof {
        assert(raw@.skip(start as int) =~= chars@.subrange(start as int, n as int));
        lemma_trim_start_at(chars@, start as int, a as int, n as int);
    }
    let mut e = a;
    while e < n && !(chars[e] == ',' || chars[e] == '\n' || chars[e] == '}')
        invariant
            a <= e <= n,
            n == chars@.len(),
            forall|k: int| a <= k < e ==> !ends_value(#[trigger] chars@[k]),
        decreases n - e,
    {
        e += 1;
    }
    proof {
        lemma_value_len_at(chars@, a as int, e as int, n as int);
        let rest = chars@.subrange(a as int, n as int);
        assert(rest.take(e - a) =~= chars@.subrange(a as int, e as int));
    }
    let (vs, ve) = trim_bounds(chars.as_slice(), a, e);
    Ok(raw.substring_char(vs, ve))
}

fn trim_start_index(chars: &[char], from: usize) -> (r: usize)
    requires
        from <= chars@.len(),
    ensures
        from <= r <= chars@.len(),
        forall|k: int| from <= k < r ==> is_space(#[trigger] chars@[k]),
        r == chars@.len() || !is_space(chars@[r as int]),
{
    let mut i = from;
    while i < chars.len() && crate::text::is_space_char(chars[i])
        invariant
            from <= i <= chars@.len(),
            forall|k: int| from <= k < i ==> is_space(#[trigger] chars@[k]),
        decreases chars.len() - i,
    {
        i += 1;
    }
    i
}

/// The value of `key` read as a `usize`, as `usize::from_str` reads it.
pub fn json_usize(raw: &str, key: &str) -> (res: Result<usize, String>)
    ensures
        match json_value_spec(raw@, key@) {
            None => res matches Err(m) && m@ == missing_key_message(key@),
            Some(v) => match parse_radix_spec(v, 10, usize::MAX as int) {
                Ok(n) => res == Ok::<usize, String>(n as usize),
                Err(k) => res matches Err(m) && m@ == int_error_message(k),
            },
        },
{
    let text = json_value(raw, key)?;
    let chars = chars_of(text);
    proof {
        assert(chars@.subrange(0, chars@.len() as int) =~= text@);
        lemma_parse_radix_bounds(text@, 10, usize::MAX as int);
    }
    match parse_radix(chars.as_slice(), 0, chars.len(), 10, usize::MAX as u64) {
        Ok(v) => Ok(v as usize),
        Err(k) => Err(String::from_str(k.message())),
    }
}

} // verus!
