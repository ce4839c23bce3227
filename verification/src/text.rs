//! Small verified text helpers shared by the parsers.
//!
//! Text is examined through its UTF-8 bytes; `&str` views are sequences of
//! characters whose bytes are their UTF-8 encoding.

use vstd::prelude::*;
use vstd::utf8::{decode_utf8, encode_utf8, encode_utf8_decode_utf8};
use vstd::string::StringSliceAdditionalSpecFns;
use vstd::string::StrSliceExecFns;
use vstd::string::StringExecFns;
use vstd::std_specs::iter::IteratorSpec;

verus! {

/// Two character sequences are equal exactly when their UTF-8 encodings are.
pub proof fn lemma_encode_injective(a: Seq<char>, b: Seq<char>)
    ensures
        (encode_utf8(a) == encode_utf8(b)) == (a == b),
{
    if encode_utf8(a) == encode_utf8(b) {
        encode_utf8_decode_utf8(a);
        encode_utf8_decode_utf8(b);
    }
}

/// Byte-wise slice equality.
pub fn bytes_eq(a: &[u8], b: &[u8]) -> (same: bool)
    ensures
        same == (a@ == b@),
{
    if a.len() != b.len() {
        return false;
    }
    let mut i: usize = 0;
    while i < a.len()
        invariant
            0 <= i <= a@.len(),
            a@.len() == b@.len(),
            forall|j: int| 0 <= j < i ==> a@[j] == b@[j],
        decreases a.len() - i,
    {
        if a[i] != b[i] {
            return false;
        }
        i += 1;
    }
    assert(a@ =~= b@);
    true
}

/// String equality by characters.
pub fn str_eq(a: &str, b: &str) -> (same: bool)
    ensures
        same == (a@ == b@),
{
    let same = bytes_eq(a.as_bytes(), b.as_bytes());
    proof {
        lemma_encode_injective(a@, b@);
    }
    same
}

/// Characters with the Unicode `White_Space` property.
pub open spec fn is_space(c: char) -> bool {
    let u = c as u32;
    (0x09 <= u <= 0x0d) || u == 0x20 || u == 0x85 || u == 0xa0 || u == 0x1680 || (0x2000 <= u
        <= 0x200a) || u == 0x2028 || u == 0x2029 || u == 0x202f || u == 0x205f || u == 0x3000
}

/// Whether `c` has the Unicode `White_Space` property.
pub fn is_space_char(c: char) -> (b: bool)
    ensures
        b == is_space(c),
{
    let u = c as u32;
    (0x09 <= u && u <= 0x0d) || u == 0x20 || u == 0x85 || u == 0xa0 || u == 0x1680 || (0x2000 <= u
        && u <= 0x200a) || u == 0x2028 || u == 0x2029 || u == 0x202f || u == 0x205f || u == 0x3000
}

/// The sequence without its leading whitespace.
pub open spec fn trim_start_spec(s: Seq<char>) -> Seq<char>
    decreases s.len(),
{
    if s.len() > 0 && is_space(s[0]) {
        trim_start_spec(s.drop_first())
    } else {
        s
    }
}

/// The sequence without its trailing whitespace.
pub open spec fn trim_end_spec(s: Seq<char>) -> Seq<char>
    decreases s.len(),
{
    if s.len() > 0 && is_space(s.last()) {
        trim_end_spec(s.drop_last())
    } else {
        s
    }
}

/// The sequence without leading and trailing whitespace, as `str::trim` gives it.
pub open spec fn trim_spec(s: Seq<char>) -> Seq<char> {
    trim_end_spec(trim_start_spec(s))
}

pub proof fn lemma_trim_start_at(s: Seq<char>, lo: int, a: int, hi: int)
    requires
        0 <= lo <= a <= hi <= s.len(),
        forall|k: int| lo <= k < a ==> is_space(#[trigger] s[k]),
        a == hi || !is_space(s[a]),
    ensures
        trim_start_spec(s.subrange(lo, hi)) == s.subrange(a, hi),
    decreases a - lo,
{
    if lo < a {
        assert(s.subrange(lo, hi).drop_first() =~= s.subrange(lo + 1, hi));
        lemma_trim_start_at(s, lo + 1, a, hi);
    } else {
        assert(s.subrange(lo, hi) =~= s.subrange(a, hi));
    }
}

pub proof fn lemma_trim_end_at(s: Seq<char>, lo: int, b: int, hi: int)
    requires
        0 <= lo <= b <= hi <= s.len(),
        forall|k: int| b <= k < hi ==> is_space(#[trigger] s[k]),
        b == lo || !is_space(s[b - 1]),
    ensures
        trim_end_spec(s.subrange(lo, hi)) == s.subrange(lo, b),
    decreases hi - b,
{
    if b < hi {
        assert(s.subrange(lo, hi).drop_last() =~= s.subrange(lo, hi - 1));
        lemma_trim_end_at(s, lo, b, hi - 1);
    } else {
        assert(s.subrange(lo, hi) =~= s.subrange(lo, b));
    }
}

/// Bounds of the trimmed part of `chars[lo..hi]`.
pub fn trim_bounds(chars: &[char], lo: usize, hi: usize) -> (r: (usize, usize))
    requires
        lo <= hi <= chars@.len(),
    ensures
        lo <= r.0 <= r.1 <= hi,
        chars@.subrange(r.0 as int, r.1 as int) == trim_spec(chars@.subrange(lo as int, hi as int)),
{
    let mut a = lo;
    while a < hi && is_space_char(chars[a])
        invariant
            lo <= a <= hi <= chars@.len(),
            forall|k: int| lo <= k < a ==> is_space(#[trigger] chars@[k]),
        decreases hi - a,
    {
        a += 1;
    }
    let mut b = hi;
    while b > a && is_space_char(chars[b - 1])
        invariant
            lo <= a <= b <= hi <= chars@.len(),
            forall|k: int| b <= k < hi ==> is_space(#[trigger] chars@[k]),
        decreases b - a,
    {
        b -= 1;
    }
    proof {
        lemma_trim_start_at(chars@, lo as int, a as int, hi as int);
        lemma_trim_end_at(chars@, a as int, b as int, hi as int);
    }
    (a, b)
}

/// The characters of `s`.
pub fn chars_of(s: &str) -> (v: Vec<char>)
    ensures
        v@ == s@,
{
    broadcast use vstd::string::group_string_axioms;

    let mut it = s.chars();
    let mut v: Vec<char> = Vec::new();
    loop
        invariant
            v@ + it.remaining() == s@,
            it.decrease() is Some,
        ensures
            v@ == s@,
        decreases it.decrease()->0,
    {
        match it.next() {
            Some(c) => {
                v.push(c);
            },
            None => {
                assert(v@ =~= v@ + it.remaining());
                break;
            },
        }
    }
    v
}

/// Whether `chars[lo..hi]` is exactly `lit`.
pub fn chars_match(chars: &[char], lo: usize, hi: usize, lit: &[char]) -> (same: bool)
    requires
        lo <= hi <= chars@.len(),
    ensures
        same == (chars@.subrange(lo as int, hi as int) == lit@),
{
    if hi - lo != lit.len() {
        return false;
    }
    let mut i: usize = 0;
    while i < lit.len()
        invariant
            lo <= hi <= chars@.len(),
            hi - lo == lit@.len(),
            i <= lit@.len(),
            forall|j: int| 0 <= j < i ==> chars@[lo + j] == lit@[j],
        decreases lit.len() - i,
    {
        if chars[lo + i] != lit[i] {
            assert(chars@.subrange(lo as int, hi as int)[i as int] != lit@[i as int]);
            return false;
        }
        i += 1;
    }
    assert(chars@.subrange(lo as int, hi as int) =~= lit@);
    true
}

/// An ASCII decimal digit.
pub open spec fn is_digit(c: char) -> bool {
    '0' <= c <= '9'
}

/// Every character is an ASCII decimal digit.
pub open spec fn all_digits(s: Seq<char>) -> bool {
    forall|i: int| 0 <= i < s.len() ==> is_digit(#[trigger] s[i])
}

/// Numeric value of a decimal digit.
pub open spec fn digit_value(c: char) -> int {
    c as int - '0' as int
}

/// Numeric value of a string of decimal digits, most significant first.
pub open spec fn digits_value(s: Seq<char>) -> int
    decreases s.len(),
{
    if s.len() == 0 {
        0
    } else {
        digits_value(s.drop_last()) * 10 + digit_value(s.last())
    }
}

/// Unsigned decimal parsing as `u32::from_str` and `usize::from_str` do it:
/// an optional `+`, then at least one digit, and a value of at most `max`.
pub open spec fn parse_unsigned_spec(s: Seq<char>, max: int) -> Option<int> {
    let digits = if s.len() > 0 && s[0] == '+' {
        s.drop_first()
    } else {
        s
    };
    if digits.len() > 0 && all_digits(digits) && digits_value(digits) <= max {
        Some(digits_value(digits))
    } else {
        None
    }
}

proof fn lemma_digits_value_nonneg(s: Seq<char>)
    requires
        all_digits(s),
    ensures
        digits_value(s) >= 0,
    decreases s.len(),
{
    if s.len() > 0 {
        assert(all_digits(s.drop_last())) by {
            assert forall|i: int| 0 <= i < s.drop_last().len() implies is_digit(
                #[trigger] s.drop_last()[i],
            ) by {
                assert(is_digit(s[i]));
            }
        }
        lemma_digits_value_nonneg(s.drop_last());
        assert(is_digit(s[s.len() - 1]));
    }
}

proof fn lemma_digits_prefix_le(s: Seq<char>, k: int)
    requires
        all_digits(s),
        0 <= k <= s.len(),
    ensures
        digits_value(s.take(k)) <= digits_value(s),
    decreases s.len(),
{
    if k < s.len() {
        let t = s.drop_last();
        assert(all_digits(t)) by {
            assert forall|i: int| 0 <= i < t.len() implies is_digit(#[trigger] t[i]) by {
                assert(is_digit(s[i]));
            }
        }
        lemma_digits_prefix_le(t, k);
        assert(t.take(k) =~= s.take(k));
        lemma_digits_value_nonneg(t);
        assert(is_digit(s[s.len() - 1]));
    } else {
        assert(s.take(k) =~= s);
    }
}

/// Parses `chars[lo..hi]` as an unsigned decimal of at most `max`.
pub fn parse_unsigned(chars: &[char], lo: usize, hi: usize, max: u64) -> (r: Option<u64>)
    requires
        lo <= hi <= chars@.len(),
        9 <= max,
    ensures
        r is Some <==> parse_unsigned_spec(chars@.subrange(lo as int, hi as int), max as int) is Some,
        r is Some ==> r->0 == parse_unsigned_spec(chars@.subrange(lo as int, hi as int), max as int)->0,
{
    let ghost s = chars@.subrange(lo as int, hi as int);
    let mut start = lo;
    if start < hi && chars[start] == '+' {
        start += 1;
    }
    let ghost digits = chars@.subrange(start as int, hi as int);
    assert(digits =~= (if s.len() > 0 && s[0] == '+' { s.drop_first() } else { s }));
    if start == hi {
        assert(digits.len() == 0);
        assert(parse_unsigned_spec(s, max as int) is None);
        return None;
    }
    let mut acc: u64 = 0;
    let mut i = start;
    while i < hi
        invariant
            lo <= start <= i <= hi <= chars@.len(),
            digits == chars@.subrange(start as int, hi as int),
            s == chars@.subrange(lo as int, hi as int),
            digits == (if s.len() > 0 && s[0] == '+' { s.drop_first() } else { s }),
            digits.len() > 0,
            9 <= max,
            all_digits(digits.take(i - start)),
            acc == digits_value(digits.take(i - start)),
            acc <= max,
        decreases hi - i,
    {
        let c = chars[i];
        if !('0' <= c && c <= '9') {
            assert(digits[i - start] == c);
            assert(!is_digit(digits[i - start]));
            assert(!all_digits(digits));
            return None;
        }
        let d = (c as u32 - '0' as u32) as u64;
        let ghost next = digits.take(i - start + 1);
        assert(next.drop_last() =~= digits.take(i - start));
        assert(next.last() == c);
        assert(all_digits(next)) by {
            assert forall|j: int| 0 <= j < next.len() implies is_digit(#[trigger] next[j]) by {
                if j < next.len() - 1 {
                    assert(next[j] == digits.take(i - start)[j]);
                }
            }
        }
        if acc > (max - d) / 10 {
            assert(acc * 10 + d > max) by (nonlinear_arith)
                requires
                    acc > (max - d) / 10,
                    d <= 9,
                    9 <= max,
            ;
            proof {
                if all_digits(digits) {
                    lemma_digits_prefix_le(digits, i - start + 1);
                }
            }
            return None;
        }
        assert(acc * 10 + d <= max) by (nonlinear_arith)
            requires
                acc <= (max - d) / 10,
                d <= 9,
                9 <= max,
        ;
        acc = acc * 10 + d;
        i += 1;
    }
    assert(digits.take(i - start) =~= digits);
    Some(acc)
}

/// The ASCII digit character for `d` in `0..10`.
pub open spec fn digit_char(d: int) -> char {
    if d == 0 {
        '0'
    } else if d == 1 {
        '1'
    } else if d == 2 {
        '2'
    } else if d == 3 {
        '3'
    } else if d == 4 {
        '4'
    } else if d == 5 {
        '5'
    } else if d == 6 {
        '6'
    } else if d == 7 {
        '7'
    } else if d == 8 {
        '8'
    } else {
        '9'
    }
}

/// Shortest decimal representation of `n`, as `Display` prints unsigned integers.
pub open spec fn decimal_spec(n: nat) -> Seq<char>
    decreases n,
{
    if n < 10 {
        seq![digit_char(n as int)]
    } else {
        decimal_spec(n / 10) + seq![digit_char(n as int % 10)]
    }
}

fn digit_str(d: u64) -> (s: &'static str)
    requires
        d < 10,
    ensures
        s@ == seq![digit_char(d as int)],
{
    if d == 0 {
        proof { reveal_strlit("0"); }
        "0"
    } else if d == 1 {
        proof { reveal_strlit("1"); }
        "1"
    } else if d == 2 {
        proof { reveal_strlit("2"); }
        "2"
    } else if d == 3 {
        proof { reveal_strlit("3"); }
        "3"
    } else if d == 4 {
        proof { reveal_strlit("4"); }
        "4"
    } else if d == 5 {
        proof { reveal_strlit("5"); }
        "5"
    } else if d == 6 {
        proof { reveal_strlit("6"); }
        "6"
    } else if d == 7 {
        proof { reveal_strlit("7"); }
        "7"
    } else if d == 8 {
        proof { reveal_strlit("8"); }
        "8"
    } else {
        proof { reveal_strlit("9"); }
        "9"
    }
}

/// Appends the decimal representation of `n`.
pub fn push_decimal(out: &mut String, n: u64)
    ensures
        final(out)@ == old(out)@ + decimal_spec(n as nat),
    decreases n,
{
    if n >= 10 {
        push_decimal(out, n / 10);
    }
    out.append(digit_str(n % 10));
    proof {
        if n >= 10 {
            assert(old(out)@ + decimal_spec(n as nat) =~= old(out)@ + decimal_spec((n / 10) as nat)
                + seq![digit_char(n as int % 10)]);
        }
    }
}

/// Decimal text read back gives the number it was written from.
pub proof fn lemma_parse_decimal(n: nat, max: int)
    requires
        n <= max,
    ensures
        parse_unsigned_spec(decimal_spec(n), max) == Some(n as int),
{
    lemma_decimal_digits(n);
}

pub proof fn lemma_decimal_digits(n: nat)
    ensures
        decimal_spec(n).len() > 0,
        all_digits(decimal_spec(n)),
        digits_value(decimal_spec(n)) == n,
        decimal_spec(n)[0] != '+',
    decreases n,
{
    lemma_digit_char_value(n as int % 10);
    if n >= 10 {
        lemma_decimal_digits(n / 10);
        let s = decimal_spec(n);
        assert(s.drop_last() =~= decimal_spec(n / 10));
        assert(s.last() == digit_char(n as int % 10));
        assert(digits_value(s) == digits_value(s.drop_last()) * 10 + digit_value(s.last()));
        assert((n / 10) * 10 + n % 10 == n) by (nonlinear_arith);
        assert(all_digits(s)) by {
            assert forall|i: int| 0 <= i < s.len() implies is_digit(#[trigger] s[i]) by {
                if i < s.len() - 1 {
                    assert(s[i] == decimal_spec(n / 10)[i]);
                }
            }
        }
        assert(s[0] == decimal_spec(n / 10)[0]);
    } else {
        let s = decimal_spec(n);
        assert(s.drop_last() =~= Seq::<char>::empty());
        assert(digits_value(s.drop_last()) == 0);
        assert(n as int % 10 == n);
    }
}

proof fn lemma_digit_char_value(d: int)
    requires
        0 <= d < 10,
    ensures
        digit_value(digit_char(d)) == d,
        is_digit(digit_char(d)),
{
}

/// Index of the first `c` in `s`, or `s.len()` when there is none.
pub open spec fn prefix_before(s: Seq<char>, c: char) -> int
    decreases s.len(),
{
    if s.len() == 0 {
        0
    } else if s[0] == c {
        0
    } else {
        1 + prefix_before(s.drop_first(), c)
    }
}

/// `prefix_before` lies within the sequence and finds the first occurrence.
pub proof fn lemma_prefix_before(s: Seq<char>, c: char)
    ensures
        0 <= prefix_before(s, c) <= s.len(),
        prefix_before(s, c) < s.len() ==> s[prefix_before(s, c)] == c,
        forall|k: int| 0 <= k < prefix_before(s, c) ==> s[k] != c,
    decreases s.len(),
{
    if s.len() > 0 && s[0] != c {
        lemma_prefix_before(s.drop_first(), c);
        assert forall|k: int| 0 <= k < prefix_before(s, c) implies s[k] != c by {
            if k > 0 {
                assert(s[k] == s.drop_first()[k - 1]);
            }
        }
    }
}

pub proof fn lemma_prefix_before_at(s: Seq<char>, c: char, lo: int, r: int, hi: int)
    requires
        0 <= lo <= r <= hi <= s.len(),
        forall|k: int| lo <= k < r ==> #[trigger] s[k] != c,
        r == hi || s[r] == c,
    ensures
        prefix_before(s.subrange(lo, hi), c) == r - lo,
    decreases r - lo,
{
    if lo < r {
        assert(s.subrange(lo, hi).drop_first() =~= s.subrange(lo + 1, hi));
        lemma_prefix_before_at(s, c, lo + 1, r, hi);
    }
}

/// Position of the first `c` in `chars[lo..hi]`, or `hi` when there is none.
pub fn find_char(chars: &[char], lo: usize, hi: usize, c: char) -> (r: usize)
    requires
        lo <= hi <= chars@.len(),
    ensures
        lo <= r <= hi,
        r - lo == prefix_before(chars@.subrange(lo as int, hi as int), c),
{
    let mut r = lo;
    while r < hi && chars[r] != c
        invariant
            lo <= r <= hi <= chars@.len(),
            forall|k: int| lo <= k < r ==> #[trigger] chars@[k] != c,
        decreases hi - r,
    {
        r += 1;
    }
    proof {
        lemma_prefix_before_at(chars@, c, lo as int, r as int, hi as int);
    }
    r
}

/// A sequence that neither starts nor ends with whitespace is its own trim.
pub proof fn lemma_trim_noop(s: Seq<char>)
    requires
        s.len() > 0 ==> !is_space(s[0]) && !is_space(s.last()),
    ensures
        trim_spec(s) == s,
{
    if s.len() > 0 {
        lemma_trim_start_at(s, 0, 0, s.len() as int);
        lemma_trim_end_at(s, 0, s.len() as int, s.len() as int);
        assert(s.subrange(0, s.len() as int) =~= s);
    } else {
        assert(trim_start_spec(s) == s);
    }
}

/// The lines of a text, split at each `\n`; a final `\n` ends the last line
/// and opens no empty one.
pub open spec fn lines_spec(s: Seq<char>) -> Seq<Seq<char>>
    decreases s.len(),
{
    if s.len() == 0 {
        Seq::empty()
    } else {
        let i = prefix_before(s, '\n');
        if i >= s.len() {
            seq![s]
        } else {
            proof {
                lemma_prefix_before(s, '\n');
            }
            seq![s.take(i)] + lines_spec(s.skip(i + 1))
        }
    }
}

/// Views of a sequence of strings.
pub open spec fn views_of(v: Seq<String>) -> Seq<Seq<char>> {
    v.map_values(|x: String| x@)
}

/// The lines of `input`, each without its `\n`.
pub fn split_lines(input: &str) -> (lines: Vec<String>)
    ensures
        views_of(lines@) == lines_spec(input@),
{
    let chars = chars_of(input);
    let n = chars.len();
    let mut lines: Vec<String> = Vec::new();
    let mut start: usize = 0;
    assert(chars@.skip(0) =~= chars@);
    assert(views_of(lines@) + lines_spec(chars@) =~= lines_spec(chars@));
    while start < n
        invariant
            chars@ == input@,
            n == chars@.len(),
            start <= n,
            views_of(lines@) + lines_spec(chars@.skip(start as int)) == lines_spec(input@),
        decreases n - start,
    {
        let e = find_char(chars.as_slice(), start, n, '\n');
        let piece = String::from_str(input.substring_char(start, e));
        let ghost rest = chars@.skip(start as int);
        let ghost before = lines@;
        proof {
            assert(chars@.subrange(start as int, n as int) =~= rest);
            lemma_prefix_before(rest, '\n');
            assert(views_of(before.push(piece)) =~= views_of(before).push(piece@));
            if e < n {
                assert(rest.take(e - start) =~= chars@.subrange(start as int, e as int));
                assert(rest.skip(e - start + 1) =~= chars@.skip(e + 1));
                assert(lines_spec(rest) == seq![piece@] + lines_spec(chars@.skip(e + 1)));
                assert(views_of(before) + lines_spec(rest) =~= views_of(before).push(piece@)
                    + lines_spec(chars@.skip(e + 1)));
            } else {
                assert(rest =~= chars@.subrange(start as int, e as int));
                assert(chars@.skip(n as int) =~= Seq::<char>::empty());
                assert(lines_spec(rest) == seq![piece@]);
                assert(lines_spec(Seq::<char>::empty()) == Seq::<Seq<char>>::empty());
                assert(views_of(before) + lines_spec(rest) =~= views_of(before).push(piece@)
                    + lines_spec(chars@.skip(n as int)));
            }
        }
        lines.push(piece);
        if e < n {
            start = e + 1;
        } else {
            start = n;
        }
    }
    assert(chars@.skip(start as int) =~= Seq::<char>::empty());
    assert(lines_spec(Seq::<char>::empty()) == Seq::<Seq<char>>::empty());
    assert(views_of(lines@) + Seq::<Seq<char>>::empty() =~= views_of(lines@));
    lines
}

/// Why integer text was refused, as `ParseIntError` reports it.
#[derive(Debug, Clone, Copy, PartialEq, Eq, Structural)]
pub enum IntErrorKind {
    /// The text is empty.
    Empty,
    /// A character is no digit of the radix.
    InvalidDigit,
    /// The value exceeds the target type.
    PosOverflow,
}

impl IntErrorKind {
    /// The message `ParseIntError` displays for this kind.
    pub fn message(&self) -> (m: &'static str)
        ensures
            m@ == int_error_message(*self),
    {
        match self {
            IntErrorKind::Empty => "cannot parse integer from empty string",
            IntErrorKind::InvalidDigit => "invalid digit found in string",
            IntErrorKind::PosOverflow => "number too large to fit in target type",
        }
    }
}

/// The message `ParseIntError` displays for a kind.
pub open spec fn int_error_message(k: IntErrorKind) -> Seq<char> {
    match k {
        IntErrorKind::Empty => "cannot parse integer from empty string"@,
        IntErrorKind::InvalidDigit => "invalid digit found in string"@,
        IntErrorKind::PosOverflow => "number too large to fit in target type"@,
    }
}

/// Value of `c` as a digit of `radix` (10 or 16), or -1.
pub open spec fn radix_digit(c: char, radix: int) -> int {
    if '0' <= c <= '9' {
        c as int - '0' as int
    } else if radix == 16 && 'a' <= c <= 'f' {
        c as int - 'a' as int + 10
    } else if radix == 16 && 'A' <= c <= 'F' {
        c as int - 'A' as int + 10
    } else {
        -1
    }
}

/// Reading digits `i..` onto `acc`: the first character that is no digit is
/// an invalid digit, and the first prefix whose value exceeds `max` overflows.
pub open spec fn scan_digits(s: Seq<char>, radix: int, max: int, i: int, acc: int) -> Result<
    int,
    IntErrorKind,
>
    decreases s.len() - i,
{
    if i < 0 || i >= s.len() {
        Ok(acc)
    } else if radix_digit(s[i], radix) < 0 {
        Err(IntErrorKind::InvalidDigit)
    } else if acc * radix + radix_digit(s[i], radix) > max {
        Err(IntErrorKind::PosOverflow)
    } else {
        scan_digits(s, radix, max, i + 1, acc * radix + radix_digit(s[i], radix))
    }
}

/// Unsigned integer parsing as `from_str_radix` does it for an unsigned type
/// whose largest value is `max`.
pub open spec fn parse_radix_spec(s: Seq<char>, radix: int, max: int) -> Result<int, IntErrorKind> {
    if s.len() == 0 {
        Err(IntErrorKind::Empty)
    } else if s == seq!['+'] {
        Err(IntErrorKind::InvalidDigit)
    } else if s[0] == '+' {
        scan_digits(s.drop_first(), radix, max, 0, 0)
    } else {
        scan_digits(s, radix, max, 0, 0)
    }
}

fn radix_digit_of(c: char, radix: u64) -> (d: Option<u64>)
    requires
        radix == 10 || radix == 16,
    ensures
        radix_digit(c, radix as int) < 0 ==> d is None,
        radix_digit(c, radix as int) >= 0 ==> d == Some(radix_digit(c, radix as int) as u64),
        d matches Some(v) ==> v < radix,
{
    if '0' <= c && c <= '9' {
        Some((c as u32 - '0' as u32) as u64)
    } else if radix == 16 && 'a' <= c && c <= 'f' {
        Some((c as u32 - 'a' as u32 + 10) as u64)
    } else if radix == 16 && 'A' <= c && c <= 'F' {
        Some((c as u32 - 'A' as u32 + 10) as u64)
    } else {
        None
    }
}

/// Parses `chars[lo..hi]` as an unsigned integer of radix 10 or 16 of at most
/// `max`, reporting the first problem as `from_str_radix` does.
pub fn parse_radix(chars: &[char], lo: usize, hi: usize, radix: u64, max: u64) -> (r: Result<
    u64,
    IntErrorKind,
>)
    requires
        lo <= hi <= chars@.len(),
        radix == 10 || radix == 16,
        16 <= max,
    ensures
        match parse_radix_spec(chars@.subrange(lo as int, hi as int), radix as int, max as int) {
            Ok(v) => r == Ok::<u64, IntErrorKind>(v as u64),
            Err(k) => r == Err::<u64, IntErrorKind>(k),
        },
{
    let ghost s = chars@.subrange(lo as int, hi as int);
    if lo == hi {
        return Err(IntErrorKind::Empty);
    }
    let mut start = lo;
    if chars[lo] == '+' {
        if hi - lo == 1 {
            assert(s =~= seq!['+']);
            return Err(IntErrorKind::InvalidDigit);
        }
        start = lo + 1;
    }
    let ghost digits = chars@.subrange(start as int, hi as int);
    proof {
        if chars@[lo as int] == '+' {
            assert(s != seq!['+']) by {
                assert(s.len() != 1);
            }
            assert(s.drop_first() =~= digits);
        } else {
            assert(s =~= digits);
            assert(s != seq!['+']) by {
                assert(s[0] != '+');
            }
        }
    }
    let mut acc: u64 = 0;
    let mut i = start;
    while i < hi
        invariant
            lo <= start <= i <= hi <= chars@.len(),
            digits == chars@.subrange(start as int, hi as int),
            radix == 10 || radix == 16,
            16 <= max,
            acc <= max,
            s == chars@.subrange(lo as int, hi as int),
            parse_radix_spec(s, radix as int, max as int) == scan_digits(
                digits,
                radix as int,
                max as int,
                i - start,
                acc as int,
            ),
        decreases hi - i,
    {
        let c = chars[i];
        assert(digits[i - start] == c);
        let d = match radix_digit_of(c, radix) {
            Some(d) => d,
            None => {
                return Err(IntErrorKind::InvalidDigit);
            },
        };
        if acc > (max - d) / radix {
            assert(acc * radix + d > max) by (nonlinear_arith)
                requires
                    acc > (max - d) / (radix as int),
                    d < radix,
                    radix <= 16,
                    16 <= max,
            ;
            return Err(IntErrorKind::PosOverflow);
        }
        assert(acc * radix + d <= max) by (nonlinear_arith)
            requires
                acc <= (max - d) / (radix as int),
                d < radix,
                radix >= 10,
                16 <= max,
        ;
        acc = acc * radix + d;
        i += 1;
    }
    Ok(acc)
}

proof fn lemma_scan_bounds(s: Seq<char>, radix: int, max: int, i: int, acc: int)
    requires
        0 <= acc <= max,
        radix >= 0,
    ensures
        scan_digits(s, radix, max, i, acc) matches Ok(v) ==> 0 <= v <= max,
    decreases s.len() - i,
{
    if 0 <= i < s.len() && radix_digit(s[i], radix) >= 0 && acc * radix + radix_digit(s[i], radix)
        <= max {
        assert(acc * radix >= 0) by (nonlinear_arith)
            requires
                acc >= 0,
                radix >= 0,
        ;
        lemma_scan_bounds(s, radix, max, i + 1, acc * radix + radix_digit(s[i], radix));
    }
}

/// A parsed value lies between zero and the largest value of the type.
pub proof fn lemma_parse_radix_bounds(s: Seq<char>, radix: int, max: int)
    requires
        0 <= max,
        radix >= 0,
    ensures
        parse_radix_spec(s, radix, max) matches Ok(v) ==> 0 <= v <= max,
{
    if s.len() > 0 && s[0] == '+' {
        lemma_scan_bounds(s.drop_first(), radix, max, 0, 0);
    } else {
        lemma_scan_bounds(s, radix, max, 0, 0);
    }
}

} // verus!
