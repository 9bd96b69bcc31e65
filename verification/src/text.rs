//! Character-level helpers shared by the parsers: conversion between `String`
//! and `Vec<char>`, decimal numbers, and splitting at a separator.

use vstd::prelude::*;
use vstd::string::*;

verus! {

/// True when `c` is an ASCII decimal digit.
pub open spec fn is_digit(c: char) -> bool {
    '0' <= c && c <= '9'
}

/// The numeric value of an ASCII decimal digit.
pub open spec fn digit_value(c: char) -> nat {
    (c as int - '0' as int) as nat
}

/// The character for a digit value below ten.
pub open spec fn digit_char(d: nat) -> char {
    (d + '0' as int) as char
}

/// Every character of `s` is an ASCII decimal digit.
pub open spec fn all_digits(s: Seq<char>) -> bool {
    forall|i: int| 0 <= i < s.len() ==> #[trigger] is_digit(s[i])
}

/// The value of a string of decimal digits (most significant first).
pub open spec fn digits_value(s: Seq<char>) -> nat
    decreases s.len(),
{
    if s.len() == 0 {
        0
    } else {
        digits_value(s.drop_last()) * 10 + digit_value(s.last())
    }
}

/// The shortest decimal representation of `n`.
pub open spec fn decimal(n: nat) -> Seq<char>
    decreases n,
{
    if n < 10 {
        seq![digit_char(n)]
    } else {
        decimal(n / 10).push(digit_char(n % 10))
    }
}

/// What `u32::from_str` accepts: an optional `+` followed by one or more
/// ASCII digits whose value fits in a `u32`.
pub open spec fn parse_u32_spec(s: Seq<char>) -> Option<u32> {
    let d = if s.len() > 0 && s[0] == '+' { s.drop_first() } else { s };
    if d.len() > 0 && all_digits(d) && digits_value(d) <= u32::MAX {
        Some(digits_value(d) as u32)
    } else {
        None
    }
}

/// What `u64::from_str` accepts: an optional `+` followed by one or more
/// ASCII digits whose value fits in a `u64`.
pub open spec fn parse_u64_spec(s: Seq<char>) -> Option<u64> {
    let d = if s.len() > 0 && s[0] == '+' { s.drop_first() } else { s };
    if d.len() > 0 && all_digits(d) && digits_value(d) <= u64::MAX {
        Some(digits_value(d) as u64)
    } else {
        None
    }
}

/// The position of the first occurrence of `sep` in `s`, if any.
pub open spec fn find_char(s: Seq<char>, sep: char) -> Option<int> {
    if exists|i: int| 0 <= i < s.len() && s[i] == sep {
        Some(choose|i: int| 0 <= i < s.len() && s[i] == sep && forall|j: int| 0 <= j < i ==> s[j] != sep)
    } else {
        None
    }
}

/// `str::split_once`: the text before and after the first `sep`.
pub open spec fn split_once_spec(s: Seq<char>, sep: char) -> Option<(Seq<char>, Seq<char>)> {
    match find_char(s, sep) {
        Some(i) => Some((s.take(i), s.skip(i + 1))),
        None => None,
    }
}

/// `s` does not contain `c`.
pub open spec fn lacks(s: Seq<char>, c: char) -> bool {
    forall|i: int| 0 <= i < s.len() ==> s[i] != c
}

/// The first occurrence of `sep`, found by a scan.
pub proof fn lemma_find_char_at(s: Seq<char>, sep: char, i: int)
    requires
        0 <= i < s.len(),
        s[i] == sep,
        forall|j: int| 0 <= j < i ==> s[j] != sep,
    ensures
        find_char(s, sep) == Some(i),
{
    let k = choose|k: int| 0 <= k < s.len() && s[k] == sep && forall|j: int| 0 <= j < k ==> s[j] != sep;
    assert(0 <= k < s.len() && s[k] == sep && forall|j: int| 0 <= j < k ==> s[j] != sep);
    if k < i {
        assert(s[k] != sep);
    } else if k > i {
        assert(s[i] != sep);
    }
}

/// `lacks` means there is no occurrence to find.
pub proof fn lemma_find_char_none(s: Seq<char>, sep: char)
    requires
        lacks(s, sep),
    ensures
        find_char(s, sep) is None,
{
}

/// A string that starts with `a`, then `sep`, then anything, splits after `a`
/// when `a` holds no `sep`.
pub proof fn lemma_split_once_concat(a: Seq<char>, sep: char, b: Seq<char>)
    requires
        lacks(a, sep),
    ensures
        split_once_spec(a + seq![sep] + b, sep) == Some((a, b)),
{
    let s = a + seq![sep] + b;
    assert(s[a.len() as int] == sep);
    assert forall|j: int| 0 <= j < a.len() implies s[j] != sep by {
        assert(s[j] == a[j]);
    }
    lemma_find_char_at(s, sep, a.len() as int);
    assert(s.take(a.len() as int) =~= a);
    assert(s.skip(a.len() as int + 1) =~= b);
}

/// The characters of a string slice.
pub fn chars_of(s: &str) -> (r: Vec<char>)
    ensures
        r@ == s@,
{
    let n = s.unicode_len();
    let mut r: Vec<char> = Vec::new();
    let mut i: usize = 0;
    while i < n
        invariant
            n == s@.len(),
            i <= n,
            r@ == s@.take(i as int),
        decreases n - i,
    {
        let c = s.get_char(i);
        r.push(c);
        i = i + 1;
        assert(r@ =~= s@.take(i as int));
    }
    assert(r@ =~= s@);
    r
}

/// Appends a character to a `String` (std `String::push`).
#[verifier::external_body]
fn push_char(s: &mut String, c: char)
    ensures
        final(s)@ == old(s)@.push(c),
{
    s.push(c);
}

/// The `String` holding exactly the given characters.
pub fn string_of(v: &[char]) -> (r: String)
    ensures
        r@ == v@,
{
    let mut r = String::new();
    let mut i: usize = 0;
    while i < v.len()
        invariant
            i <= v.len(),
            r@ == v@.take(i as int),
        decreases v.len() - i,
    {
        push_char(&mut r, v[i]);
        i = i + 1;
        assert(r@ =~= v@.take(i as int));
    }
    assert(r@ =~= v@);
    r
}

/// Appends the characters of `s` to `v`.
pub fn push_str(v: &mut Vec<char>, s: &str)
    ensures
        final(v)@ == old(v)@ + s@,
{
    let cs = chars_of(s);
    let mut i: usize = 0;
    let ghost start = v@;
    while i < cs.len()
        invariant
            i <= cs.len(),
            cs@ == s@,
            v@ == start + cs@.take(i as int),
        decreases cs.len() - i,
    {
        v.push(cs[i]);
        i = i + 1;
        assert(v@ =~= start + cs@.take(i as int));
    }
    assert(cs@.take(cs.len() as int) =~= cs@);
}

/// Appends the characters of `s` to `v`.
pub fn push_chars(v: &mut Vec<char>, s: &[char])
    ensures
        final(v)@ == old(v)@ + s@,
{
    let mut i: usize = 0;
    let ghost start = v@;
    while i < s.len()
        invariant
            i <= s.len(),
            v@ == start + s@.take(i as int),
        decreases s.len() - i,
    {
        v.push(s[i]);
        i = i + 1;
        assert(v@ =~= start + s@.take(i as int));
    }
    assert(s@.take(s.len() as int) =~= s@);
}

/// Digits of a value below ten.
proof fn lemma_digit_char(d: nat)
    requires
        d < 10,
    ensures
        is_digit(digit_char(d)),
        digit_value(digit_char(d)) == d,
{
}

/// The decimal representation consists of digits and denotes `n`.
pub proof fn lemma_decimal(n: nat)
    ensures
        decimal(n).len() > 0,
        all_digits(decimal(n)),
        digits_value(decimal(n)) == n,
        decimal(n)[0] != '+',
    decreases n,
{
    if n < 10 {
        lemma_digit_char(n);
        assert(decimal(n).drop_last() =~= Seq::<char>::empty());
        assert(decimal(n).last() == digit_char(n));
        assert(digits_value(Seq::<char>::empty()) == 0);
    } else {
        lemma_decimal(n / 10);
        lemma_digit_char(n % 10);
        let d = decimal(n / 10);
        assert(decimal(n).drop_last() =~= d);
        assert(decimal(n).last() == digit_char(n % 10));
        assert((n / 10) * 10 + n % 10 == n);
        assert forall|i: int| 0 <= i < decimal(n).len() implies #[trigger] is_digit(decimal(n)[i]) by {
            if i < d.len() {
                assert(decimal(n)[i] == d[i]);
            }
        }
        assert(decimal(n)[0] == d[0]);
    }
}

/// Parsing the decimal representation of a `u32` gives it back.
pub proof fn lemma_parse_decimal_u32(n: u32)
    ensures
        parse_u32_spec(decimal(n as nat)) == Some(n),
{
    lemma_decimal(n as nat);
}

/// Parsing the decimal representation of a `u64` gives it back.
pub proof fn lemma_parse_decimal_u64(n: u64)
    ensures
        parse_u64_spec(decimal(n as nat)) == Some(n),
{
    lemma_decimal(n as nat);
}

/// Appending a digit never makes the value smaller.
proof fn lemma_digits_value_grows(s: Seq<char>, k: int)
    requires
        0 <= k <= s.len(),
    ensures
        digits_value(s.take(k)) <= digits_value(s),
    decreases s.len() - k,
{
    if k < s.len() {
        lemma_digits_value_grows(s, k + 1);
        assert(s.take(k + 1).drop_last() =~= s.take(k));
    } else {
        assert(s.take(k) =~= s);
    }
}

/// Parses a run of ASCII digits with a bound, as the standard unsigned parsers
/// do; `None` when a character is not a digit, when there are none, or when the
/// value exceeds `bound`.
fn parse_digits_bounded(d: &[char], bound: u64) -> (r: Option<u64>)
    requires
        bound >= 9,
    ensures
        r == (if d@.len() > 0 && all_digits(d@) && digits_value(d@) <= bound {
            Some(digits_value(d@) as u64)
        } else {
            None
        }),
{
    if d.len() == 0 {
        return None;
    }
    let mut acc: u64 = 0;
    let mut i: usize = 0;
    while i < d.len()
        invariant
            i <= d.len(),
            all_digits(d@.take(i as int)),
            acc == digits_value(d@.take(i as int)),
            acc <= bound,
            bound >= 9,
        decreases d.len() - i,
    {
        let c = d[i];
        if !('0' <= c && c <= '9') {
            assert(!is_digit(d@[i as int]));
            return None;
        }
        let dv: u64 = (c as u32 - '0' as u32) as u64;
        assert(dv <= 9);
        assert(dv == digit_value(d@[i as int]));
        assert(d@.take(i + 1).drop_last() =~= d@.take(i as int));
        if acc > (bound - dv) / 10 {
            proof {
                assert(acc * 10 + dv > bound) by (nonlinear_arith)
                    requires acc > (bound - dv) / 10, dv <= bound || dv > bound;
                lemma_digits_value_grows(d@, i + 1);
            }
            // the remaining characters are either not all digits, or only add value
            return None;
        }
        assert(acc * 10 + dv <= bound) by (nonlinear_arith)
            requires acc <= (bound - dv) / 10, dv <= 9, bound >= dv;
        acc = acc * 10 + dv;
        i = i + 1;
        assert forall|j: int| 0 <= j < i implies #[trigger] is_digit(d@.take(i as int)[j]) by {
            if j < i - 1 {
                assert(d@.take(i as int)[j] == d@.take(i - 1)[j]);
            }
        }
    }
    assert(d@.take(d@.len() as int) =~= d@);
    Some(acc)
}

/// `u32::from_str` on the given characters.
pub fn parse_u32(s: &[char]) -> (r: Option<u32>)
    ensures
        r == parse_u32_spec(s@),
{
    let start: usize = if s.len() > 0 && s[0] == '+' { 1 } else { 0 };
    let d = slice_from(s, start);
    assert(d@ =~= (if s@.len() > 0 && s@[0] == '+' { s@.drop_first() } else { s@ }));
    match parse_digits_bounded(&d, 0xffff_ffff) {
        Some(v) => Some(v as u32),
        None => None,
    }
}

/// `u64::from_str` on the given characters.
pub fn parse_u64(s: &[char]) -> (r: Option<u64>)
    ensures
        r == parse_u64_spec(s@),
{
    let start: usize = if s.len() > 0 && s[0] == '+' { 1 } else { 0 };
    let d = slice_from(s, start);
    assert(d@ =~= (if s@.len() > 0 && s@[0] == '+' { s@.drop_first() } else { s@ }));
    parse_digits_bounded(&d, 0xffff_ffff_ffff_ffff)
}

/// The text of `u64::from_str`'s error for an empty input.
pub const PARSE_INT_EMPTY: &'static str = "cannot parse integer from empty string";

/// The text of `u64::from_str`'s error for a character that is not a digit.
pub const PARSE_INT_INVALID_DIGIT: &'static str = "invalid digit found in string";

/// The text of `u64::from_str`'s error for a value that does not fit.
pub const PARSE_INT_TOO_LARGE: &'static str = "number too large to fit in target type";

/// Some run of digits at the start of `d` has a value beyond `u64::MAX`.
pub open spec fn leading_digits_overflow_u64(d: Seq<char>) -> bool {
    exists|k: int| 0 < k <= d.len() && all_digits(#[trigger] d.take(k)) && digits_value(d.take(k)) > u64::MAX
}

/// The text of the error that `u64::from_str` gives for an input it refuses:
/// empty input; else, after an optional `+`, a run of leading digits whose
/// value does not fit; else a character that is not a digit (or no digit at
/// all), as the digits are read from the left.
pub open spec fn parse_u64_error_spec(s: Seq<char>) -> Seq<char> {
    let d = if s.len() > 0 && s[0] == '+' { s.drop_first() } else { s };
    if s.len() == 0 {
        PARSE_INT_EMPTY@
    } else if leading_digits_overflow_u64(d) {
        PARSE_INT_TOO_LARGE@
    } else {
        PARSE_INT_INVALID_DIGIT@
    }
}

/// `u64::from_str` on the given characters, with the text of its error.
pub fn parse_u64_text(s: &[char]) -> (r: Result<u64, String>)
    ensures
        match r {
            Ok(v) => parse_u64_spec(s@) == Some(v),
            Err(e) => parse_u64_spec(s@) is None && e@ == parse_u64_error_spec(s@),
        },
{
    if let Some(v) = parse_u64(s) {
        return Ok(v);
    }
    if s.len() == 0 {
        return Err(String::from_str(PARSE_INT_EMPTY));
    }
    let start: usize = if s[0] == '+' { 1 } else { 0 };
    let d = slice_from(s, start);
    assert(d@ =~= (if s@.len() > 0 && s@[0] == '+' { s@.drop_first() } else { s@ }));
    let mut acc: u64 = 0;
    let mut i: usize = 0;
    while i < d.len()
        invariant
            i <= d.len(),
            s@.len() > 0,
            parse_u64_spec(s@) is None,
            d@ == (if s@.len() > 0 && s@[0] == '+' { s@.drop_first() } else { s@ }),
            all_digits(d@.take(i as int)),
            acc == digits_value(d@.take(i as int)),
        decreases d.len() - i,
    {
        let c = d[i];
        if !('0' <= c && c <= '9') {
            proof {
                assert forall|k: int| 0 < k <= d@.len() && all_digits(#[trigger] d@.take(k)) implies digits_value(
                    d@.take(k),
                ) <= u64::MAX by {
                    if k > i {
                        assert(d@.take(k)[i as int] == d@[i as int]);
                        assert(is_digit(d@.take(k)[i as int]));
                    } else {
                        lemma_digits_value_grows(d@.take(i as int), k);
                        assert(d@.take(i as int).take(k) =~= d@.take(k));
                    }
                }
            }
            return Err(String::from_str(PARSE_INT_INVALID_DIGIT));
        }
        let dv: u64 = (c as u32 - '0' as u32) as u64;
        assert(dv == digit_value(d@[i as int]));
        assert(d@.take(i + 1).drop_last() =~= d@.take(i as int));
        assert forall|j: int| 0 <= j < i + 1 implies #[trigger] is_digit(d@.take(i + 1)[j]) by {
            if j < i {
                assert(d@.take(i + 1)[j] == d@.take(i as int)[j]);
            }
        }
        if acc > (0xffff_ffff_ffff_ffffu64 - dv) / 10 {
            assert(acc * 10 + dv > u64::MAX) by (nonlinear_arith)
                requires acc > (0xffff_ffff_ffff_ffffu64 - dv) / 10, dv <= 9;
            assert(digits_value(d@.take(i + 1)) > u64::MAX);
            return Err(String::from_str(PARSE_INT_TOO_LARGE));
        }
        assert(acc * 10 + dv <= u64::MAX) by (nonlinear_arith)
            requires acc <= (0xffff_ffff_ffff_ffffu64 - dv) / 10, dv <= 9;
        acc = acc * 10 + dv;
        i = i + 1;
    }
    proof {
        assert(d@.take(d@.len() as int) =~= d@);
        assert forall|k: int| 0 < k <= d@.len() && all_digits(#[trigger] d@.take(k)) implies digits_value(
            d@.take(k),
        ) <= u64::MAX by {
            lemma_digits_value_grows(d@, k);
        }
    }
    Err(String::from_str(PARSE_INT_INVALID_DIGIT))
}

/// The characters from position `from` on.
pub fn slice_from(s: &[char], from: usize) -> (r: Vec<char>)
    requires
        from <= s@.len(),
    ensures
        r@ == s@.skip(from as int),
{
    slice_range(s, from, s.len())
}

/// The characters from position `from` up to (not including) `to`.
pub fn slice_range(s: &[char], from: usize, to: usize) -> (r: Vec<char>)
    requires
        from <= to <= s@.len(),
    ensures
        r@ == s@.subrange(from as int, to as int),
{
    let mut r: Vec<char> = Vec::new();
    let mut i = from;
    while i < to
        invariant
            from <= i <= to,
            to <= s@.len(),
            r@ == s@.subrange(from as int, i as int),
        decreases to - i,
    {
        r.push(s[i]);
        i = i + 1;
        assert(r@ =~= s@.subrange(from as int, i as int));
    }
    r
}

/// The decimal representation of a `u64`.
pub fn decimal_u64(n: u64) -> (r: Vec<char>)
    ensures
        r@ == decimal(n as nat),
    decreases n,
{
    if n < 10 {
        let c = char_of_digit(n as u32);
        let mut r: Vec<char> = Vec::new();
        r.push(c);
        assert(r@ =~= decimal(n as nat));
        r
    } else {
        let mut r = decimal_u64(n / 10);
        let c = char_of_digit((n % 10) as u32);
        r.push(c);
        r
    }
}

/// The character of a digit value below ten.
fn char_of_digit(d: u32) -> (c: char)
    requires
        d < 10,
    ensures
        c == digit_char(d as nat),
{
    if d == 0 { '0' } else if d == 1 { '1' } else if d == 2 { '2' } else if d == 3 { '3' }
    else if d == 4 { '4' } else if d == 5 { '5' } else if d == 6 { '6' } else if d == 7 { '7' }
    else if d == 8 { '8' } else { '9' }
}

/// Position of the first `sep` in `s`, as `str::find` reports it (in characters).
pub fn find_first(s: &[char], sep: char) -> (r: Option<usize>)
    ensures
        match r {
            Some(i) => i < s.len() && find_char(s@, sep) == Some(i as int),
            None => find_char(s@, sep) is None,
        },
{
    let mut i: usize = 0;
    while i < s.len()
        invariant
            i <= s.len(),
            forall|j: int| 0 <= j < i ==> s@[j] != sep,
        decreases s.len() - i,
    {
        if s[i] == sep {
            proof { lemma_find_char_at(s@, sep, i as int); }
            return Some(i);
        }
        i = i + 1;
    }
    None
}

/// `str::split_once` with a character separator.
pub fn split_once(s: &[char], sep: char) -> (r: Option<(Vec<char>, Vec<char>)>)
    ensures
        match r {
            Some((a, b)) => split_once_spec(s@, sep) == Some((a@, b@)),
            None => split_once_spec(s@, sep) is None,
        },
{
    match find_first(s, sep) {
        Some(i) => Some((slice_range(s, 0, i), slice_from(s, i + 1))),
        None => None,
    }
}

/// Equality of two character sequences.
pub fn chars_eq(a: &[char], b: &[char]) -> (r: bool)
    ensures
        r == (a@ == b@),
{
    if a.len() != b.len() {
        return false;
    }
    let mut i: usize = 0;
    while i < a.len()
        invariant
            i <= a.len(),
            a.len() == b.len(),
            forall|j: int| 0 <= j < i ==> a@[j] == b@[j],
        decreases a.len() - i,
    {
        if a[i] != b[i] {
            return false;
        }
        i = i + 1;
    }
    assert(a@ =~= b@);
    true
}

} // verus!
