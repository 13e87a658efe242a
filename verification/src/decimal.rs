//! Decimal numbers as text: whole numbers, and fixed-point values counted in
//! thousandths (a duration in milliseconds written as seconds).
use vstd::prelude::*;

use crate::text::{
    chars_of, decimal, decimal_chars, digit_value, is_digit, zero_padded, zero_padded_text,
};

verus! {

/// `magnitude` thousandths written as a decimal with exactly three fraction digits.
pub open spec fn thousandths(magnitude: nat) -> Seq<char> {
    decimal(magnitude / 1000) + seq!['.'] + zero_padded(magnitude % 1000, 3)
}

/// `value` thousandths written as a decimal, with a minus sign when negative.
pub open spec fn signed_thousandths(value: int) -> Seq<char> {
    if value < 0 {
        seq!['-'] + thousandths((-value) as nat)
    } else {
        thousandths(value as nat)
    }
}

/// `magnitude` hundredths written as a decimal with exactly two fraction digits.
pub open spec fn hundredths(magnitude: nat) -> Seq<char> {
    decimal(magnitude / 100) + seq!['.'] + zero_padded(magnitude % 100, 2)
}

/// A duration of `millis` milliseconds written in seconds with two fraction
/// digits: rounded to the nearest hundredth of a second, a half away from
/// zero, with a minus sign when `millis` is negative.
pub open spec fn seconds_to_two_places(millis: int) -> Seq<char> {
    if millis < 0 {
        seq!['-'] + hundredths(((-millis + 5) / 10) as nat)
    } else {
        hundredths(((millis + 5) / 10) as nat)
    }
}

/// True when each character of `s` is an ASCII digit.
pub open spec fn all_digits(s: Seq<char>) -> bool {
    forall|i: int| 0 <= i < s.len() ==> is_digit(#[trigger] s[i])
}

/// The number that the digit string `s` denotes; zero for the empty string.
pub open spec fn digits_value(s: Seq<char>) -> nat
    decreases s.len(),
{
    if s.len() == 0 {
        0
    } else {
        (digits_value(s.drop_last()) * 10 + digit_value(s.last())) as nat
    }
}

/// The number of ASCII digits at the start of `s`.
pub open spec fn digit_run(s: Seq<char>) -> nat
    decreases s.len(),
{
    if s.len() > 0 && is_digit(s[0]) {
        1 + digit_run(s.skip(1))
    } else {
        0
    }
}

/// The whole number that `s` denotes: an optional `+`, then one or more digits.
pub open spec fn parse_unsigned(s: Seq<char>) -> Option<nat> {
    let body = if s.len() > 0 && s[0] == '+' {
        s.skip(1)
    } else {
        s
    };
    if body.len() > 0 && all_digits(body) {
        Some(digits_value(body))
    } else {
        None
    }
}

/// The thousandths that the first three digits of a fraction denote.
pub open spec fn fraction_thousandths(fraction: Seq<char>) -> nat {
    let first = if fraction.len() > 0 {
        digit_value(fraction[0])
    } else {
        0
    };
    let second = if fraction.len() > 1 {
        digit_value(fraction[1])
    } else {
        0
    };
    let third = if fraction.len() > 2 {
        digit_value(fraction[2])
    } else {
        0
    };
    (first * 100 + second * 10 + third) as nat
}

/// The magnitude, in thousandths, of an unsigned decimal: one or more digits,
/// then optionally a point and any number of digits, of which those after the
/// third are dropped.
pub open spec fn parse_magnitude(body: Seq<char>) -> Option<nat> {
    let run = digit_run(body) as int;
    let whole = body.take(run);
    let rest = body.skip(run);
    if run == 0 {
        None
    } else if rest.len() == 0 {
        Some(digits_value(whole) * 1000)
    } else if rest[0] == '.' && all_digits(rest.skip(1)) {
        Some(digits_value(whole) * 1000 + fraction_thousandths(rest.skip(1)))
    } else {
        None
    }
}

/// The value, in thousandths, of a decimal with an optional sign.
pub open spec fn parse_decimal(s: Seq<char>) -> Option<int> {
    if s.len() > 0 && s[0] == '-' {
        match parse_magnitude(s.skip(1)) {
            Some(magnitude) => Some(-(magnitude as int)),
            None => None,
        }
    } else if s.len() > 0 && s[0] == '+' {
        match parse_magnitude(s.skip(1)) {
            Some(magnitude) => Some(magnitude as int),
            None => None,
        }
    } else {
        match parse_magnitude(s) {
            Some(magnitude) => Some(magnitude as int),
            None => None,
        }
    }
}

/// `value` brought into the range of `i64`.
pub open spec fn saturate_i64(value: int) -> i64 {
    if value > i64::MAX {
        i64::MAX
    } else if value < i64::MIN {
        i64::MIN
    } else {
        value as i64
    }
}

/// A run of `n` digits followed by a character that is no digit, or by the end.
pub proof fn lemma_digit_run_is(s: Seq<char>, n: int)
    requires
        0 <= n <= s.len(),
        forall|i: int| 0 <= i < n ==> is_digit(s[i]),
        n < s.len() ==> !is_digit(s[n]),
    ensures
        digit_run(s) == n,
    decreases n,
{
    if n > 0 {
        let tail = s.skip(1);
        assert forall|i: int| 0 <= i < n - 1 implies is_digit(tail[i]) by {
            assert(tail[i] == s[i + 1]);
        }
        if n < s.len() {
            assert(tail[n - 1] == s[n]);
        }
        lemma_digit_run_is(tail, n - 1);
    }
}

/// Appending digits never lowers the value of a digit string.
pub proof fn lemma_digits_value_grows(s: Seq<char>, n: int)
    requires
        0 <= n <= s.len(),
        all_digits(s),
    ensures
        digits_value(s.take(n)) <= digits_value(s),
    decreases s.len() - n,
{
    if n < s.len() {
        assert(s.drop_last().take(n) =~= s.take(n));
        assert(is_digit(s.last()));
        assert forall|i: int| 0 <= i < s.drop_last().len() implies is_digit(
            #[trigger] s.drop_last()[i],
        ) by {
            assert(s.drop_last()[i] == s[i]);
        }
        lemma_digits_value_grows(s.drop_last(), n);
    } else {
        assert(s.take(n) =~= s);
    }
}

/// The index of the first character at or after `from` that is no digit.
pub(crate) fn scan_digits(v: &Vec<char>, from: usize) -> (to: usize)
    requires
        from <= v.len(),
    ensures
        from <= to <= v.len(),
        to - from == digit_run(v@.skip(from as int)),
        forall|i: int| from <= i < to ==> is_digit(v@[i]),
        to < v.len() ==> !is_digit(v@[to as int]),
{
    let mut to: usize = from;
    while to < v.len() && is_digit_char(v[to])
        invariant
            from <= to <= v.len(),
            forall|i: int| from <= i < to ==> is_digit(v@[i]),
        decreases v.len() - to,
    {
        to += 1;
    }
    proof {
        let rest = v@.skip(from as int);
        assert forall|i: int| 0 <= i < to - from implies is_digit(rest[i]) by {
            assert(rest[i] == v@[i + from]);
        }
        lemma_digit_run_is(rest, to - from);
    }
    to
}

/// Tells whether `c` is an ASCII digit.
pub(crate) fn is_digit_char(c: char) -> (b: bool)
    ensures
        b == is_digit(c),
{
    '0' <= c && c <= '9'
}

/// The value of the ASCII digit `c`.
pub(crate) fn digit_value_of(c: char) -> (d: u64)
    requires
        is_digit(c),
    ensures
        d == digit_value(c),
        d <= 9,
{
    let code: u32 = c as u32;
    (code - 0x30) as u64
}

/// The number that the digits `v[from..to]` denote, unless it exceeds `u64::MAX`.
pub(crate) fn digits_to_u64(v: &Vec<char>, from: usize, to: usize) -> (value: Option<u64>)
    requires
        from <= to <= v.len(),
        forall|i: int| from <= i < to ==> is_digit(v@[i]),
    ensures
        match value {
            Some(value) => value == digits_value(v@.subrange(from as int, to as int)),
            None => digits_value(v@.subrange(from as int, to as int)) > u64::MAX,
        },
{
    let ghost digits = v@.subrange(from as int, to as int);
    let mut acc: u64 = 0;
    let mut i: usize = from;
    while i < to
        invariant
            from <= i <= to <= v.len(),
            digits == v@.subrange(from as int, to as int),
            forall|k: int| from <= k < to ==> is_digit(v@[k]),
            acc == digits_value(digits.take(i - from)),
        decreases to - i,
    {
        let d = digit_value_of(v[i]);
        proof {
            let next = digits.take(i - from + 1);
            assert(next.drop_last() =~= digits.take(i - from));
            assert(next.last() == v@[i as int]);
            assert(all_digits(digits));
            lemma_digits_value_grows(digits, i - from + 1);
        }
        if acc > (u64::MAX - d) / 10 {
            return None;
        }
        acc = acc * 10 + d;
        i += 1;
    }
    assert(digits.take(to - from) =~= digits);
    Some(acc)
}

/// `parse_unsigned`, for numbers that fit `u64`.
pub fn parse_u64_text(s: &str) -> (value: Option<u64>)
    ensures
        value == match parse_unsigned(s@) {
            Some(n) => if n <= u64::MAX {
                Some(n as u64)
            } else {
                None
            },
            None => None,
        },
{
    let v = chars_of(s);
    let start: usize = if v.len() > 0 && v[0] == '+' {
        1
    } else {
        0
    };
    let end = scan_digits(&v, start);
    let ghost body = v@.skip(start as int);
    proof {
        assert(body =~= if s@.len() > 0 && s@[0] == '+' {
            s@.skip(1)
        } else {
            s@
        });
        if end < v.len() {
            assert(body[end - start] == v@[end as int]);
        }
    }
    if end == start || end < v.len() {
        return None;
    }
    proof {
        assert(body =~= v@.subrange(start as int, end as int));
        assert forall|i: int| 0 <= i < body.len() implies is_digit(#[trigger] body[i]) by {
            assert(body[i] == v@[i + start]);
        }
    }
    digits_to_u64(&v, start, end)
}

/// `magnitude` thousandths written as a decimal with exactly three fraction digits.
pub fn render_thousandths(magnitude: u64) -> (s: String)
    ensures
        s@ == thousandths(magnitude as nat),
{
    let whole = decimal_chars(magnitude / 1000);
    let mut s = crate::text::string_of(&whole);
    s.push('.');
    let fraction = zero_padded_text(magnitude % 1000, 3);
    s.append(fraction.as_str());
    assert(decimal((magnitude / 1000) as nat).push('.') =~= decimal((magnitude / 1000) as nat)
        + seq!['.']);
    s
}

/// The magnitude of `value`.
pub(crate) fn magnitude_of(value: i64) -> (magnitude: u64)
    ensures
        magnitude == if value < 0 {
            -(value as int)
        } else {
            value as int
        },
{
    if value == i64::MIN {
        9223372036854775808u64
    } else if value < 0 {
        (-value) as u64
    } else {
        value as u64
    }
}

/// `value` thousandths written as a decimal, with a minus sign when negative.
pub fn render_signed_thousandths(value: i64) -> (s: String)
    ensures
        s@ == signed_thousandths(value as int),
{
    let digits = render_thousandths(magnitude_of(value));
    if value < 0 {
        let mut s = String::new();
        s.push('-');
        s.append(digits.as_str());
        assert(Seq::<char>::empty().push('-') =~= seq!['-']);
        s
    } else {
        digits
    }
}

/// A duration of `millis` milliseconds written in seconds with two fraction digits.
pub fn render_seconds_to_two_places(millis: i64) -> (s: String)
    ensures
        s@ == seconds_to_two_places(millis as int),
{
    let rounded: u64 = (magnitude_of(millis) + 5) / 10;
    let whole = decimal_chars(rounded / 100);
    let mut digits = crate::text::string_of(&whole);
    digits.push('.');
    let fraction = zero_padded_text(rounded % 100, 2);
    digits.append(fraction.as_str());
    assert(digits@ =~= hundredths(rounded as nat));
    if millis < 0 {
        let mut s = String::new();
        s.push('-');
        s.append(digits.as_str());
        assert(Seq::<char>::empty().push('-') =~= seq!['-']);
        s
    } else {
        digits
    }
}

/// The first three digits of the fraction `v[from..]`, as thousandths.
fn fraction_of(v: &Vec<char>, from: usize) -> (value: u64)
    requires
        from <= v.len(),
        forall|i: int| from <= i < v.len() ==> is_digit(v@[i]),
    ensures
        value == fraction_thousandths(v@.skip(from as int)),
        value <= 999,
{
    let ghost fraction = v@.skip(from as int);
    let first: u64 = if v.len() - from > 0 {
        digit_value_of(v[from])
    } else {
        0
    };
    let second: u64 = if v.len() - from > 1 {
        digit_value_of(v[from + 1])
    } else {
        0
    };
    let third: u64 = if v.len() - from > 2 {
        digit_value_of(v[from + 2])
    } else {
        0
    };
    first * 100 + second * 10 + third
}

/// `parse_magnitude` on `v[from..]`, capped at `u64::MAX`.
fn parse_magnitude_at(v: &Vec<char>, from: usize) -> (value: Option<u64>)
    requires
        from <= v.len(),
    ensures
        value == match parse_magnitude(v@.skip(from as int)) {
            Some(n) => Some(
                if n <= u64::MAX {
                    n as u64
                } else {
                    u64::MAX
                },
            ),
            None => None,
        },
{
    let ghost body = v@.skip(from as int);
    let end = scan_digits(v, from);
    if end == from {
        return None;
    }
    let ghost whole = body.take(end - from);
    let ghost rest = body.skip(end - from);
    proof {
        assert(whole =~= v@.subrange(from as int, end as int));
        assert(rest =~= v@.skip(end as int));
    }
    let mut fraction: u64 = 0;
    if end < v.len() {
        if v[end] != '.' {
            return None;
        }
        let stop = scan_digits(v, end + 1);
        proof {
            assert(rest.skip(1) =~= v@.skip(end + 1));
            if stop < v.len() {
                assert(rest.skip(1)[stop - end - 1] == v@[stop as int]);
            } else {
                assert forall|i: int| 0 <= i < rest.skip(1).len() implies is_digit(
                    #[trigger] rest.skip(1)[i],
                ) by {
                    assert(rest.skip(1)[i] == v@[i + end + 1]);
                }
            }
        }
        if stop < v.len() {
            return None;
        }
        fraction = fraction_of(v, end + 1);
    }
    let whole_value = digits_to_u64(v, from, end);
    match whole_value {
        Some(w) => {
            if w > (u64::MAX - fraction) / 1000 {
                Some(u64::MAX)
            } else {
                Some(w * 1000 + fraction)
            }
        },
        None => Some(u64::MAX),
    }
}

/// The value, in thousandths, of a decimal with an optional sign, brought
/// into the range of `i64`; `None` where `s` is no such decimal.
pub fn parse_decimal_text(s: &str) -> (value: Option<i64>)
    ensures
        value == match parse_decimal(s@) {
            Some(v) => Some(saturate_i64(v)),
            None => None,
        },
{
    let v = chars_of(s);
    let negative = v.len() > 0 && v[0] == '-';
    let start: usize = if v.len() > 0 && (v[0] == '-' || v[0] == '+') {
        1
    } else {
        0
    };
    proof {
        assert(v@.skip(0) =~= s@);
    }
    match parse_magnitude_at(&v, start) {
        Some(magnitude) => {
            if negative {
                if magnitude > 9223372036854775807u64 {
                    Some(i64::MIN)
                } else {
                    Some(-(magnitude as i64))
                }
            } else if magnitude > 9223372036854775807u64 {
                Some(i64::MAX)
            } else {
                Some(magnitude as i64)
            }
        },
        None => None,
    }
}

} // verus!
