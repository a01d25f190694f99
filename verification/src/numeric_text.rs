//! Which texts stand for numbers: decimal integers that fit 64 signed bits,
//! and the grammar of decimal floating-point literals.
//!
//! Both are the texts that Rust itself reads as numbers: `i64` and `f64`
//! parse exactly these. A caller who is told here that a text is a number can
//! therefore parse it without fear of failure.

use vstd::prelude::*;
use crate::text::{ascii_lowercase, chars_of, reads_ignoring_case};

verus! {

/// One of the ten ASCII digits.
pub open spec fn is_digit(c: char) -> bool {
    '0' <= c <= '9'
}

/// Nothing but digits; the empty sequence among them.
pub open spec fn all_digits(s: Seq<char>) -> bool {
    forall|i: int| 0 <= i < s.len() ==> is_digit(#[trigger] s[i])
}

/// A plus or a minus sign.
pub open spec fn is_sign(c: char) -> bool {
    c == '+' || c == '-'
}

/// `s` without its leading sign, if it has one.
pub open spec fn strip_sign(s: Seq<char>) -> Seq<char> {
    if s.len() > 0 && is_sign(s[0]) {
        s.skip(1)
    } else {
        s
    }
}

/// The number that a sequence of decimal digits denotes.
pub open spec fn decimal_value(s: Seq<char>) -> nat
    decreases s.len(),
{
    if s.len() == 0 {
        0
    } else {
        decimal_value(s.drop_last()) * 10 + (s.last() as nat - '0' as nat) as nat
    }
}

/// The integer that `s` denotes: an optional sign, then one or more decimal
/// digits, the value within the range of `i64`. `None` for every other text.
pub open spec fn integer_value(s: Seq<char>) -> Option<int> {
    let digits = strip_sign(s);
    if digits.len() == 0 || !all_digits(digits) {
        None
    } else {
        let magnitude = decimal_value(digits) as int;
        let value = if s[0] == '-' {
            -magnitude
        } else {
            magnitude
        };
        if i64::MIN <= value <= i64::MAX {
            Some(value)
        } else {
            None
        }
    }
}

/// A text that denotes an integer within the range of `i64`.
pub open spec fn is_integer_text(s: Seq<char>) -> bool {
    integer_value(s) is Some
}

/// The index of the first exponent mark in `s`, or the length of `s` where
/// there is none.
pub open spec fn first_exponent_mark(s: Seq<char>) -> int
    decreases s.len(),
{
    if s.len() == 0 || s[0] == 'e' || s[0] == 'E' {
        0
    } else {
        1 + first_exponent_mark(s.skip(1))
    }
}

/// The index of the first decimal point in `s`, or the length of `s` where
/// there is none.
pub open spec fn first_point(s: Seq<char>) -> int
    decreases s.len(),
{
    if s.len() == 0 || s[0] == '.' {
        0
    } else {
        1 + first_point(s.skip(1))
    }
}

/// Digits with at most one decimal point among them, and at least one digit.
pub open spec fn is_mantissa(m: Seq<char>) -> bool {
    let point = first_point(m);
    if point == m.len() {
        m.len() > 0 && all_digits(m)
    } else {
        m.len() >= 2 && all_digits(m.take(point)) && all_digits(m.skip(point + 1))
    }
}

/// What follows the exponent mark: an optional sign and one or more digits.
pub open spec fn is_exponent(e: Seq<char>) -> bool {
    strip_sign(e).len() > 0 && all_digits(strip_sign(e))
}

/// A mantissa, optionally followed by an exponent mark and an exponent.
pub open spec fn is_decimal_number(b: Seq<char>) -> bool {
    let mark = first_exponent_mark(b);
    is_mantissa(b.take(mark)) && (mark == b.len() || is_exponent(b.skip(mark + 1)))
}

/// The names of the values that are not decimal numbers, in any mix of
/// upper and lower case.
pub open spec fn is_special_float_name(b: Seq<char>) -> bool {
    let lower = ascii_lowercase(b);
    lower == "inf"@ || lower == "infinity"@ || lower == "nan"@
}

/// The grammar of a floating-point literal: an optional sign, then either a
/// special name or a decimal number.
pub open spec fn is_float_text(s: Seq<char>) -> bool {
    let body = strip_sign(s);
    is_special_float_name(body) || is_decimal_number(body)
}

/// A field counts as numeric when it is an integer or a floating-point text.
pub open spec fn is_numeric_text(s: Seq<char>) -> bool {
    is_integer_text(s) || is_float_text(s)
}

/// Whether `c` is one of the ten ASCII digits.
pub fn is_digit_char(c: char) -> (b: bool)
    ensures
        b == is_digit(c),
{
    '0' <= c && c <= '9'
}

/// Whether `v[from..to]` holds digits only.
pub fn all_digits_in(v: &Vec<char>, from: usize, to: usize) -> (b: bool)
    requires
        from <= to <= v.len(),
    ensures
        b == all_digits(v@.subrange(from as int, to as int)),
{
    let ghost part = v@.subrange(from as int, to as int);
    let mut i: usize = from;
    while i < to
        invariant
            from <= i <= to <= v.len(),
            part == v@.subrange(from as int, to as int),
            forall|k: int| 0 <= k < i - from ==> is_digit(#[trigger] part[k]),
        decreases to - i,
    {
        if !is_digit_char(v[i]) {
            assert(part[i - from] == v@[i as int]);
            return false;
        }
        i += 1;
    }
    true
}

/// Where the body of `v[from..to]` begins: after the sign, if there is one.
pub fn skip_sign(v: &Vec<char>, from: usize, to: usize) -> (start: usize)
    requires
        from <= to <= v.len(),
    ensures
        from <= start <= to,
        v@.subrange(start as int, to as int) == strip_sign(v@.subrange(from as int, to as int)),
{
    let ghost part = v@.subrange(from as int, to as int);
    if from < to && (v[from] == '+' || v[from] == '-') {
        assert(part[0] == v@[from as int]);
        assert(part.skip(1) == v@.subrange(from + 1, to as int));
        from + 1
    } else {
        if from < to {
            assert(part[0] == v@[from as int]);
        }
        from
    }
}

/// A longer run of digits denotes at least as much as any of its prefixes.
pub proof fn lemma_decimal_value_grows(s: Seq<char>, k: int)
    requires
        0 <= k <= s.len(),
        all_digits(s),
    ensures
        decimal_value(s.take(k)) <= decimal_value(s),
    decreases s.len() - k,
{
    if k == s.len() {
        assert(s.take(k) == s);
    } else {
        lemma_decimal_value_grows(s, k + 1);
        assert(s.take(k + 1).drop_last() == s.take(k));
        assert(is_digit(s[k]));
        assert(s.take(k + 1).last() == s[k]);
    }
}

/// The integer that `s` denotes, if it denotes one.
pub fn parse_integer(s: &str) -> (r: Option<i64>)
    ensures
        r is Some <==> is_integer_text(s@),
        r matches Some(value) ==> integer_value(s@) == Some(value as int),
{
    let v = chars_of(s);
    assert(v@.subrange(0, v.len() as int) == v@);
    parse_integer_in(&v, 0, v.len())
}

/// The integer that `v[from..to]` denotes, if it denotes one.
#[verifier::loop_isolation(false)]
pub fn parse_integer_in(v: &Vec<char>, from: usize, to: usize) -> (r: Option<i64>)
    requires
        from <= to <= v.len(),
    ensures
        r is Some <==> is_integer_text(v@.subrange(from as int, to as int)),
        r matches Some(value) ==> integer_value(v@.subrange(from as int, to as int)) == Some(
            value as int,
        ),
{
    let ghost part = v@.subrange(from as int, to as int);
    let start = skip_sign(v, from, to);
    let ghost digits = v@.subrange(start as int, to as int);
    if start == to {
        return None;
    }
    assert(part[0] == v@[from as int]);
    let negative = v[from] == '-';
    // The magnitude of the smallest `i64` is one more than the largest.
    let limit: u64 = if negative {
        9223372036854775808u64
    } else {
        9223372036854775807u64
    };
    let mut magnitude: u64 = 0;
    let mut i: usize = start;
    while i < to
        invariant
            start <= i <= to <= v.len(),
            digits == v@.subrange(start as int, to as int),
            all_digits(digits.take(i - start)),
            magnitude == decimal_value(digits.take(i - start)),
            magnitude <= limit,
        decreases to - i,
    {
        let c = v[i];
        let ghost before = digits.take(i - start);
        let ghost after = digits.take(i - start + 1);
        proof {
            assert(digits[i - start] == c);
            assert(after.drop_last() == before);
            assert(after.last() == c);
        }
        if !is_digit_char(c) {
            assert(!all_digits(digits));
            return None;
        }
        let d: u64 = (c as u64) - 48;
        assert(all_digits(after)) by {
            assert forall|k: int| 0 <= k < after.len() implies is_digit(#[trigger] after[k]) by {
                if k < before.len() {
                    assert(after[k] == before[k]);
                }
            }
        }
        if magnitude > (limit - d) / 10 {
            // Too large already; the digits that follow cannot make it smaller.
            proof {
                assert(decimal_value(after) == magnitude * 10 + d);
                assert(decimal_value(after) > limit);
                if all_digits(digits) {
                    lemma_decimal_value_grows(digits, i - start + 1);
                }
            }
            return None;
        }
        magnitude = magnitude * 10 + d;
        i += 1;
    }
    assert(digits.take(to - start) == digits);
    if negative {
        if magnitude == 9223372036854775808u64 {
            Some(i64::MIN)
        } else {
            Some(-(magnitude as i64))
        }
    } else {
        Some(magnitude as i64)
    }
}

/// Where the first exponent mark of `v[from..to]` stands, or `to`.
#[verifier::loop_isolation(false)]
pub fn find_exponent_mark(v: &Vec<char>, from: usize, to: usize) -> (at: usize)
    requires
        from <= to <= v.len(),
    ensures
        from <= at <= to,
        at - from == first_exponent_mark(v@.subrange(from as int, to as int)),
{
    let mut i: usize = from;
    while i < to && v[i] != 'e' && v[i] != 'E'
        invariant
            from <= i <= to,
            first_exponent_mark(v@.subrange(from as int, to as int)) == (i - from)
                + first_exponent_mark(v@.subrange(i as int, to as int)),
        decreases to - i,
    {
        proof {
            let t = v@.subrange(i as int, to as int);
            assert(t[0] == v@[i as int]);
            assert(t.skip(1) == v@.subrange(i + 1, to as int));
        }
        i += 1;
    }
    proof {
        let t = v@.subrange(i as int, to as int);
        if i < to {
            assert(t[0] == v@[i as int]);
        }
    }
    i
}

/// Where the first decimal point of `v[from..to]` stands, or `to`.
#[verifier::loop_isolation(false)]
pub fn find_point(v: &Vec<char>, from: usize, to: usize) -> (at: usize)
    requires
        from <= to <= v.len(),
    ensures
        from <= at <= to,
        at - from == first_point(v@.subrange(from as int, to as int)),
{
    let mut i: usize = from;
    while i < to && v[i] != '.'
        invariant
            from <= i <= to,
            first_point(v@.subrange(from as int, to as int)) == (i - from) + first_point(
                v@.subrange(i as int, to as int),
            ),
        decreases to - i,
    {
        proof {
            let t = v@.subrange(i as int, to as int);
            assert(t[0] == v@[i as int]);
            assert(t.skip(1) == v@.subrange(i + 1, to as int));
        }
        i += 1;
    }
    proof {
        let t = v@.subrange(i as int, to as int);
        if i < to {
            assert(t[0] == v@[i as int]);
        }
    }
    i
}

/// Whether `v[from..to]` is a mantissa.
pub fn is_mantissa_in(v: &Vec<char>, from: usize, to: usize) -> (b: bool)
    requires
        from <= to <= v.len(),
    ensures
        b == is_mantissa(v@.subrange(from as int, to as int)),
{
    let ghost m = v@.subrange(from as int, to as int);
    let point = find_point(v, from, to);
    if point == to {
        from < to && all_digits_in(v, from, to)
    } else {
        proof {
            assert(m.take(point - from) == v@.subrange(from as int, point as int));
            assert(m.skip(point - from + 1) == v@.subrange(point + 1, to as int));
        }
        to - from >= 2 && all_digits_in(v, from, point) && all_digits_in(v, point + 1, to)
    }
}

/// Whether `v[from..to]` is an exponent.
pub fn is_exponent_in(v: &Vec<char>, from: usize, to: usize) -> (b: bool)
    requires
        from <= to <= v.len(),
    ensures
        b == is_exponent(v@.subrange(from as int, to as int)),
{
    let start = skip_sign(v, from, to);
    start < to && all_digits_in(v, start, to)
}

/// Whether `v[from..to]` is a floating-point literal.
pub fn is_float_text_in(v: &Vec<char>, from: usize, to: usize) -> (b: bool)
    requires
        from <= to <= v.len(),
    ensures
        b == is_float_text(v@.subrange(from as int, to as int)),
{
    let start = skip_sign(v, from, to);
    let ghost body = v@.subrange(start as int, to as int);
    if reads_ignoring_case(v, start, to, "inf") || reads_ignoring_case(v, start, to, "infinity")
        || reads_ignoring_case(v, start, to, "nan") {
        return true;
    }
    let mark = find_exponent_mark(v, start, to);
    proof {
        assert(body.take(mark - start) == v@.subrange(start as int, mark as int));
        if mark < to {
            assert(body.skip(mark - start + 1) == v@.subrange(mark + 1, to as int));
        }
    }
    is_mantissa_in(v, start, mark) && (mark == to || is_exponent_in(v, mark + 1, to))
}

/// Whether `v[from..to]` is an integer or a floating-point text.
pub fn is_numeric_text_in(v: &Vec<char>, from: usize, to: usize) -> (b: bool)
    requires
        from <= to <= v.len(),
    ensures
        b == is_numeric_text(v@.subrange(from as int, to as int)),
{
    parse_integer_in(v, from, to).is_some() || is_float_text_in(v, from, to)
}

/// Whether `s` is a floating-point literal.
pub fn is_float_text_str(s: &str) -> (b: bool)
    ensures
        b == is_float_text(s@),
{
    let v = chars_of(s);
    assert(v@.subrange(0, v.len() as int) == v@);
    is_float_text_in(&v, 0, v.len())
}

/// Whether `s` is an integer or a floating-point text.
pub fn is_numeric_text_str(s: &str) -> (b: bool)
    ensures
        b == is_numeric_text(s@),
{
    let v = chars_of(s);
    assert(v@.subrange(0, v.len() as int) == v@);
    is_numeric_text_in(&v, 0, v.len())
}

/// Every integer text is a floating-point text too.
pub proof fn lemma_integer_text_is_float_text(s: Seq<char>)
    requires
        is_integer_text(s),
    ensures
        is_float_text(s),
{
    let body = strip_sign(s);
    lemma_digits_hold_no_mark(body);
    assert(body.take(body.len() as int) == body);
}

/// A run of digits holds neither an exponent mark nor a decimal point.
proof fn lemma_digits_hold_no_mark(s: Seq<char>)
    requires
        all_digits(s),
    ensures
        first_exponent_mark(s) == s.len(),
        first_point(s) == s.len(),
    decreases s.len(),
{
    if s.len() > 0 {
        assert(is_digit(s[0]));
        assert forall|i: int| 0 <= i < s.skip(1).len() implies is_digit(#[trigger] s.skip(1)[i]) by {
            assert(s.skip(1)[i] == s[i + 1]);
        }
        lemma_digits_hold_no_mark(s.skip(1));
    }
}

} // verus!
