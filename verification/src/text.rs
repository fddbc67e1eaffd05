//! Text helpers: conversions between strings, characters and UTF-8 bytes, and decimal numbers.

use vstd::prelude::*;
use vstd::utf8::*;
use vstd::string::*;

verus! {

broadcast use vstd::utf8::encode_utf8_decode_utf8, vstd::utf8::decode_utf8_encode_utf8;

/// The UTF-8 encoding of the characters `s`.
pub open spec fn utf8_bytes(s: Seq<char>) -> Seq<u8> {
    encode_utf8(s)
}

/// The decimal digits of `n`, most significant first, with no leading zero.
pub open spec fn decimal_chars(n: nat) -> Seq<char>
    decreases n,
{
    if n < 10 {
        seq![digit_char(n)]
    } else {
        decimal_chars(n / 10).push(digit_char(n % 10))
    }
}

/// The character of the decimal digit `d`.
pub open spec fn digit_char(d: nat) -> char {
    if d == 0 { '0' }
    else if d == 1 { '1' }
    else if d == 2 { '2' }
    else if d == 3 { '3' }
    else if d == 4 { '4' }
    else if d == 5 { '5' }
    else if d == 6 { '6' }
    else if d == 7 { '7' }
    else if d == 8 { '8' }
    else { '9' }
}

/// Returns the characters of `s`, in order.
pub fn chars_of(s: &str) -> (v: Vec<char>)
    ensures
        v@ == s@,
{
    broadcast use vstd::string::axiom_spec_iter;

    let mut v: Vec<char> = Vec::new();
    for c in it: s.chars()
        invariant
            it.seq() == s@,
            v@ == it.seq().take(it.index() as int),
    {
        v.push(c);
        assert(v@ =~= it.seq().take(it.index() + 1));
    }
    assert(v@ =~= s@);
    v
}

/// Returns a string made of the characters `v`.
///
/// Calls std's `FromIterator<&char>` for `String`, which pushes each character in order.
#[verifier::external_body]
pub(crate) fn string_from_chars(v: &[char]) -> (s: String)
    ensures
        s@ == v@,
{
    String::from_iter(v.iter())
}

/// Returns the string that the bytes encode, or `None` when they are not valid UTF-8.
///
/// Calls `String::from_utf8`, which std documents as failing exactly when the bytes are not
/// valid UTF-8 and as otherwise holding those bytes unchanged.
#[verifier::external_body]
pub(crate) fn string_from_utf8(bytes: Vec<u8>) -> (r: Option<String>)
    ensures
        r is Some <==> valid_utf8(bytes@),
        r matches Some(s) ==> s@ == decode_utf8(bytes@),
{
    String::from_utf8(bytes).ok()
}

/// Returns the character of the decimal digit `d`.
fn digit(d: u32) -> (c: char)
    requires
        d < 10,
    ensures
        c == digit_char(d as nat),
{
    match d {
        0 => '0',
        1 => '1',
        2 => '2',
        3 => '3',
        4 => '4',
        5 => '5',
        6 => '6',
        7 => '7',
        8 => '8',
        _ => '9',
    }
}

/// Returns the decimal representation of `n`: its digits, most significant first, with no
/// sign, padding or leading zero.
pub(crate) fn decimal_text(n: u32) -> (s: String)
    ensures
        s@ == decimal_chars(n as nat),
{
    let mut m: u32 = n;
    let mut out: Vec<char> = Vec::new();
    while m >= 10
        invariant
            decimal_chars(n as nat) == decimal_chars(m as nat) + out@,
        decreases m,
    {
        let d = m % 10;
        let c = digit(d);
        proof {
            assert(decimal_chars(m as nat) == decimal_chars((m / 10) as nat).push(digit_char(d as nat)));
        }
        out.insert(0, c);
        m = m / 10;
        assert(decimal_chars(n as nat) =~= decimal_chars(m as nat) + out@);
    }
    let c = digit(m);
    out.insert(0, c);
    assert(decimal_chars(n as nat) =~= out@);
    string_from_chars(out.as_slice())
}

/// Returns the number of bytes of the UTF-8 encoding of `s`.
pub(crate) fn str_byte_len(s: &str) -> (n: usize)
    ensures
        n == utf8_bytes(s@).len(),
{
    s.as_bytes().len()
}

/// Returns `a` followed by `b`.
pub fn concat(a: &str, b: &str) -> (s: String)
    ensures
        s@ == a@ + b@,
{
    let mut s = a.to_owned();
    s.append(b);
    s
}

/// Returns `prefix`, the decimal digits of `n`, then `suffix`.
pub fn text_with_number(prefix: &str, n: u32, suffix: &str) -> (s: String)
    ensures
        s@ == prefix@ + decimal_chars(n as nat) + suffix@,
{
    let head = concat(prefix, decimal_text(n).as_str());
    concat(head.as_str(), suffix)
}

/// The bytes of `s`, in a vector of their own.
pub fn bytes_of(s: &str) -> (v: Vec<u8>)
    ensures
        v@ == utf8_bytes(s@),
{
    let b = s.as_bytes();
    let mut v: Vec<u8> = Vec::new();
    crate::utils::append_bytes(&mut v, b);
    v
}

/// Whether `c` is a decimal digit.
pub open spec fn is_digit(c: char) -> bool {
    '0' <= c && c <= '9'
}

/// The value of the decimal digit `c`.
pub open spec fn digit_value(c: char) -> int {
    c as int - '0' as int
}

/// The value of the decimal digits `s`, most significant first.
pub open spec fn decimal_value(s: Seq<char>) -> int
    decreases s.len(),
{
    if s.len() == 0 {
        0
    } else {
        decimal_value(s.drop_last()) * 10 + digit_value(s.last())
    }
}

/// Whether every character of `s` is a decimal digit.
pub open spec fn all_digits(s: Seq<char>) -> bool {
    forall|i: int| 0 <= i < s.len() ==> is_digit(#[trigger] s[i])
}

/// The `u32` that `s` denotes as std's `str::parse::<u32>` reads it: an optional `+`
/// followed by at least one decimal digit, of a value that fits in a `u32`.
pub open spec fn parsed_u32(s: Seq<char>) -> Option<u32> {
    let digits = if s.len() > 0 && s[0] == '+' {
        s.drop_first()
    } else {
        s
    };
    if digits.len() > 0 && all_digits(digits) && decimal_value(digits) <= u32::MAX {
        Some(decimal_value(digits) as u32)
    } else {
        None
    }
}

/// Decimal values of digit strings are never negative, and grow with every digit added.
proof fn lemma_decimal_value_prefix(s: Seq<char>, i: int, j: int)
    requires
        0 <= i <= j <= s.len(),
        all_digits(s),
    ensures
        0 <= decimal_value(s.take(i)) <= decimal_value(s.take(j)),
    decreases j - i,
{
    if i < j {
        lemma_decimal_value_prefix(s, i, j - 1);
        assert(s.take(j).drop_last() =~= s.take(j - 1));
        assert(is_digit(s[j - 1]));
    } else {
        lemma_decimal_value_nonneg(s.take(i));
    }
}

/// Decimal values of digit strings are never negative.
proof fn lemma_decimal_value_nonneg(s: Seq<char>)
    requires
        all_digits(s),
    ensures
        decimal_value(s) >= 0,
    decreases s.len(),
{
    if s.len() > 0 {
        assert(is_digit(s.last()));
        assert(all_digits(s.drop_last()));
        lemma_decimal_value_nonneg(s.drop_last());
    }
}

/// Reads `s` as std's `str::parse::<u32>` does: an optional `+` followed by decimal digits.
pub fn parse_u32(s: &[char]) -> (r: Option<u32>)
    ensures
        r == parsed_u32(s@),
{
    let mut start: usize = 0;
    if s.len() > 0 && s[0] == '+' {
        start = 1;
    }
    let ghost digits = s@.subrange(start as int, s@.len() as int);
    assert(digits =~= if s@.len() > 0 && s@[0] == '+' { s@.drop_first() } else { s@ });
    if start >= s.len() {
        return None;
    }
    let mut value: u64 = 0;
    let mut i: usize = start;
    while i < s.len()
        invariant
            start <= i <= s@.len(),
            start < s@.len(),
            digits == s@.subrange(start as int, s@.len() as int),
            digits == (if s@.len() > 0 && s@[0] == '+' { s@.drop_first() } else { s@ }),
            all_digits(digits.take(i - start)),
            value == decimal_value(digits.take(i - start)),
            value <= u32::MAX,
        decreases s@.len() - i,
    {
        let c = s[i];
        if c < '0' || c > '9' {
            assert(digits[i - start] == c);
            assert(!all_digits(digits));
            return None;
        }
        let d = (c as u64) - ('0' as u64);
        let next = value * 10 + d;
        proof {
            let k = i - start;
            assert(digits.take(k + 1).drop_last() =~= digits.take(k));
            assert(digits.take(k + 1).last() == c);
            assert(all_digits(digits.take(k + 1)));
            assert(decimal_value(digits.take(k + 1)) == next);
        }
        if next > 0xffff_ffff {
            proof {
                let k = i - start + 1;
                if all_digits(digits) {
                    lemma_decimal_value_prefix(digits, k, digits.len() as int);
                    assert(digits.take(digits.len() as int) =~= digits);
                }
            }
            return None;
        }
        value = next;
        i = i + 1;
    }
    assert(digits.take(i - start) =~= digits);
    Some(value as u32)
}

/// Returns the characters of `s` from `start` up to `end`.
pub fn slice_chars(s: &[char], start: usize, end: usize) -> (r: Vec<char>)
    requires
        start <= end <= s@.len(),
    ensures
        r@ == s@.subrange(start as int, end as int),
{
    let mut r: Vec<char> = Vec::new();
    let mut i: usize = start;
    while i < end
        invariant
            start <= i <= end,
            end <= s@.len(),
            r@ == s@.subrange(start as int, i as int),
        decreases end - i,
    {
        r.push(s[i]);
        i = i + 1;
        assert(r@ =~= s@.subrange(start as int, i as int));
    }
    r
}

/// Returns the position of the first `c` in `s`, if any.
pub fn find_char(s: &[char], c: char) -> (r: Option<usize>)
    ensures
        match r {
            Some(i) => i < s@.len() && s@[i as int] == c && !s@.take(i as int).contains(c),
            None => !s@.contains(c),
        },
{
    let mut i: usize = 0;
    while i < s.len()
        invariant
            i <= s@.len(),
            !s@.take(i as int).contains(c),
        decreases s@.len() - i,
    {
        if s[i] == c {
            return Some(i);
        }
        assert(s@.take(i + 1) =~= s@.take(i as int).push(s@[i as int]));
        i = i + 1;
    }
    assert(s@.take(i as int) =~= s@);
    None
}

/// A digit character stands for its digit.
proof fn lemma_digit_char(d: nat)
    requires
        d < 10,
    ensures
        is_digit(digit_char(d)),
        digit_value(digit_char(d)) == d,
{
}

/// The decimal text of a number is a non-empty run of digits whose value is the number.
pub proof fn lemma_decimal_roundtrip(n: nat)
    ensures
        decimal_chars(n).len() > 0,
        all_digits(decimal_chars(n)),
        decimal_value(decimal_chars(n)) == n,
    decreases n,
{
    lemma_digit_char(n % 10);
    if n < 10 {
        assert(decimal_chars(n).drop_last().len() == 0);
        assert(decimal_value(decimal_chars(n).drop_last()) == 0);
    }
    if n >= 10 {
        lemma_decimal_roundtrip(n / 10);
        let d = decimal_chars(n);
        assert(d.drop_last() =~= decimal_chars(n / 10));
        assert forall|i: int| 0 <= i < d.len() implies is_digit(#[trigger] d[i]) by {
            if i < d.len() - 1 {
                assert(d[i] == decimal_chars(n / 10)[i]);
            }
        }
    }
}

/// std's `u32` parser reads the decimal text of a `u32` back as that `u32`.
pub proof fn lemma_parse_decimal(n: u32)
    ensures
        parsed_u32(decimal_chars(n as nat)) == Some(n),
{
    lemma_decimal_roundtrip(n as nat);
    let d = decimal_chars(n as nat);
    assert(is_digit(d[0]));
}

/// `s` without the `c` characters at its end.
pub open spec fn trim_end_char(s: Seq<char>, c: char) -> Seq<char>
    decreases s.len(),
{
    if s.len() > 0 && s.last() == c {
        trim_end_char(s.drop_last(), c)
    } else {
        s
    }
}

/// Whether `c` has the Unicode `White_Space` property, which is what std's
/// `char::is_whitespace` tests.
pub open spec fn is_white_space(c: char) -> bool {
    ||| '\u{9}' <= c <= '\u{d}'
    ||| c == ' '
    ||| c == '\u{85}'
    ||| c == '\u{a0}'
    ||| c == '\u{1680}'
    ||| '\u{2000}' <= c <= '\u{200a}'
    ||| c == '\u{2028}'
    ||| c == '\u{2029}'
    ||| c == '\u{202f}'
    ||| c == '\u{205f}'
    ||| c == '\u{3000}'
}

/// `s` without the white space at its end.
pub open spec fn trim_end_white_space(s: Seq<char>) -> Seq<char>
    decreases s.len(),
{
    if s.len() > 0 && is_white_space(s.last()) {
        trim_end_white_space(s.drop_last())
    } else {
        s
    }
}

/// Returns whether `c` has the Unicode `White_Space` property.
fn is_white_space_char(c: char) -> (r: bool)
    ensures
        r == is_white_space(c),
{
    ('\u{9}' <= c && c <= '\u{d}') || c == ' ' || c == '\u{85}' || c == '\u{a0}' || c == '\u{1680}'
        || ('\u{2000}' <= c && c <= '\u{200a}') || c == '\u{2028}' || c == '\u{2029}' || c
        == '\u{202f}' || c == '\u{205f}' || c == '\u{3000}'
}

/// `trim_end_char` of `s` is that of any prefix of `s` that leaves out only `c` characters.
proof fn lemma_trim_end_char_prefix(s: Seq<char>, c: char, n: int)
    requires
        0 <= n <= s.len(),
        forall|i: int| n <= i < s.len() ==> s[i] == c,
    ensures
        trim_end_char(s, c) == trim_end_char(s.take(n), c),
    decreases s.len() - n,
{
    if n < s.len() {
        assert(s.drop_last().take(n) =~= s.take(n));
        lemma_trim_end_char_prefix(s.drop_last(), c, n);
    } else {
        assert(s.take(n) =~= s);
    }
}

/// `trim_end_white_space` of `s` is that of any prefix of `s` that leaves out only white
/// space.
proof fn lemma_trim_end_white_space_prefix(s: Seq<char>, n: int)
    requires
        0 <= n <= s.len(),
        forall|i: int| n <= i < s.len() ==> is_white_space(s[i]),
    ensures
        trim_end_white_space(s) == trim_end_white_space(s.take(n)),
    decreases s.len() - n,
{
    if n < s.len() {
        assert(s.drop_last().take(n) =~= s.take(n));
        lemma_trim_end_white_space_prefix(s.drop_last(), n);
    } else {
        assert(s.take(n) =~= s);
    }
}

/// Returns `s` without the `c` characters at its end, as std's `str::trim_end_matches`
/// does with a character.
pub fn trim_end_matches_char(s: &str, c: char) -> (r: String)
    ensures
        r@ == trim_end_char(s@, c),
{
    let chars = chars_of(s);
    let mut n: usize = chars.len();
    while n > 0 && chars[n - 1] == c
        invariant
            n <= chars@.len(),
            chars@ == s@,
            forall|i: int| n <= i < chars@.len() ==> chars@[i] == c,
        decreases n,
    {
        n = n - 1;
    }
    proof {
        lemma_trim_end_char_prefix(chars@, c, n as int);
        let t = chars@.take(n as int);
        assert(!(t.len() > 0 && t.last() == c));
    }
    let kept = slice_chars(chars.as_slice(), 0, n);
    assert(kept@ =~= chars@.take(n as int));
    string_from_chars(kept.as_slice())
}

/// Returns `s` without the white space at its end, as std's `str::trim_end` does.
pub fn trim_end_white(s: &str) -> (r: String)
    ensures
        r@ == trim_end_white_space(s@),
{
    let chars = chars_of(s);
    let mut n: usize = chars.len();
    while n > 0 && is_white_space_char(chars[n - 1])
        invariant
            n <= chars@.len(),
            chars@ == s@,
            forall|i: int| n <= i < chars@.len() ==> is_white_space(chars@[i]),
        decreases n,
    {
        n = n - 1;
    }
    proof {
        lemma_trim_end_white_space_prefix(chars@, n as int);
        let t = chars@.take(n as int);
        assert(!(t.len() > 0 && is_white_space(t.last())));
    }
    let kept = slice_chars(chars.as_slice(), 0, n);
    assert(kept@ =~= chars@.take(n as int));
    string_from_chars(kept.as_slice())
}

/// Returns whether `s` is the single character `lower` or the single character `upper`. For
/// an ASCII letter other than `k` and its capital, this is whether `s.to_lowercase()` is that
/// letter: no other character lowers to it.
pub fn is_letter_option(s: &str, lower: char, upper: char) -> (r: bool)
    ensures
        r == (s@ == seq![lower] || s@ == seq![upper]),
{
    let chars = chars_of(s);
    if chars.len() != 1 {
        proof {
            assert(seq![lower].len() == 1 && seq![upper].len() == 1);
        }
        return false;
    }
    let c = chars[0];
    proof {
        if c == lower {
            assert(s@ =~= seq![lower]);
        }
        if c == upper {
            assert(s@ =~= seq![upper]);
        }
    }
    c == lower || c == upper
}

/// Returns whether `s` is the single character `c`.
pub fn is_single_char(s: &str, c: char) -> (r: bool)
    ensures
        r == (s@ == seq![c]),
{
    is_letter_option(s, c, c)
}

/// The `u8` that `s` denotes as std's `str::parse::<u8>` reads it: an optional `+` followed
/// by at least one decimal digit, of a value that fits in a `u8`.
pub open spec fn parsed_u8(s: Seq<char>) -> Option<u8> {
    match parsed_u32(s) {
        Some(v) => if v <= 255 {
            Some(v as u8)
        } else {
            None
        },
        None => None,
    }
}

/// Reads `s` as std's `str::parse::<u8>` does.
pub fn parse_u8_str(s: &str) -> (r: Option<u8>)
    ensures
        r == parsed_u8(s@),
{
    let chars = chars_of(s);
    match parse_u32(chars.as_slice()) {
        Some(v) => if v <= 255 {
            Some(v as u8)
        } else {
            None
        },
        None => None,
    }
}

/// Reads `s` as std's `str::parse::<u32>` does.
pub fn parse_u32_str(s: &str) -> (r: Option<u32>)
    ensures
        r == parsed_u32(s@),
{
    let chars = chars_of(s);
    parse_u32(chars.as_slice())
}

} // verus!
