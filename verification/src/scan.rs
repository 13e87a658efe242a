//! Reading and writing the pieces that a telemetry line is made of: fixed
//! words, whole numbers, fixed-point numbers and quoted strings. A reader
//! takes its piece from the front of a text and hands back the rest; it
//! accepts the one form that the matching writer produces and no other.
use vstd::prelude::*;

use crate::decimal::{
    all_digits, digit_run, digits_to_u64, digits_value, lemma_digit_run_is, scan_digits,
    signed_thousandths, thousandths,
};
use crate::text::{chars_of, decimal, digit_char, digit_value, is_digit, zero_padded, zeros};

verus! {

/// The text after `word`, where `s` starts with `word`.
pub open spec fn expect(s: Seq<char>, word: Seq<char>) -> Option<Seq<char>> {
    if word.is_prefix_of(s) {
        Some(s.skip(word.len() as int))
    } else {
        None
    }
}

/// A whole number at the front of `s`, with the text after it: one or more
/// digits, the first of which is zero only where it is the only one.
pub open spec fn read_number(s: Seq<char>) -> Option<(nat, Seq<char>)> {
    let run = digit_run(s) as int;
    if run == 0 || (run > 1 && s[0] == '0') {
        None
    } else {
        Some((digits_value(s.take(run)), s.skip(run)))
    }
}

/// Three digits at the front of `s`, as a number, with the text after them.
pub open spec fn read_fraction(s: Seq<char>) -> Option<(nat, Seq<char>)> {
    if s.len() >= 3 && is_digit(s[0]) && is_digit(s[1]) && is_digit(s[2]) {
        Some(
            (
                (digit_value(s[0]) * 100 + digit_value(s[1]) * 10 + digit_value(s[2])) as nat,
                s.skip(3),
            ),
        )
    } else {
        None
    }
}

/// A number of thousandths at the front of `s`, written as a whole number, a
/// point and three digits, with the text after it.
pub open spec fn read_thousandths(s: Seq<char>) -> Option<(nat, Seq<char>)> {
    match read_number(s) {
        Some((whole, after_whole)) => match expect(after_whole, seq!['.']) {
            Some(after_point) => match read_fraction(after_point) {
                Some((fraction, rest)) => Some((whole * 1000 + fraction, rest)),
                None => None,
            },
            None => None,
        },
        None => None,
    }
}

/// A signed number of thousandths at the front of `s`, with the text after
/// it. A minus sign stands before negative numbers only.
pub open spec fn read_signed_thousandths(s: Seq<char>) -> Option<(int, Seq<char>)> {
    if s.len() > 0 && s[0] == '-' {
        match read_thousandths(s.skip(1)) {
            Some((magnitude, rest)) => if magnitude > 0 {
                Some((-(magnitude as int), rest))
            } else {
                None
            },
            None => None,
        }
    } else {
        match read_thousandths(s) {
            Some((magnitude, rest)) => Some((magnitude as int, rest)),
            None => None,
        }
    }
}

/// True where `tail` is empty or starts with a character that is no digit.
pub open spec fn ends_number(tail: Seq<char>) -> bool {
    tail.len() == 0 || !is_digit(tail[0])
}

pub proof fn lemma_expect_prefix(word: Seq<char>, tail: Seq<char>)
    ensures
        expect(word + tail, word) == Some(tail),
{
    assert((word + tail).skip(word.len() as int) =~= tail);
    assert(word.is_prefix_of(word + tail)) by {
        assert((word + tail).subrange(0, word.len() as int) =~= word);
    }
}

/// The digit characters are digits, and each has the value it was made from.
pub proof fn lemma_digit_char(d: int)
    requires
        0 <= d <= 9,
    ensures
        is_digit(digit_char(d)),
        digit_value(digit_char(d)) == d,
        d != 0 ==> digit_char(d) != '0',
{
}

/// The decimal rendering of a number is made of digits, denotes the number,
/// and starts with zero only for the number zero.
pub proof fn lemma_decimal_digits(n: nat)
    ensures
        decimal(n).len() > 0,
        all_digits(decimal(n)),
        digits_value(decimal(n)) == n,
        n > 0 ==> decimal(n)[0] != '0',
        n < 10 ==> decimal(n).len() == 1,
        n >= 10 ==> decimal(n).len() > 1,
    decreases n,
{
    if n < 10 {
        lemma_digit_char(n as int);
        let s = decimal(n);
        assert(s.drop_last() =~= Seq::<char>::empty());
        assert(digits_value(s.drop_last()) == 0);
    } else {
        lemma_decimal_digits(n / 10);
        lemma_digit_char((n % 10) as int);
        let front = decimal(n / 10);
        let s = decimal(n);
        assert(s.drop_last() =~= front);
        assert(s[0] == front[0]);
    }
}

pub proof fn lemma_read_number(n: nat, tail: Seq<char>)
    requires
        ends_number(tail),
    ensures
        read_number(decimal(n) + tail) == Some((n, tail)),
{
    lemma_decimal_digits(n);
    let digits = decimal(n);
    let s = digits + tail;
    assert forall|i: int| 0 <= i < digits.len() implies is_digit(s[i]) by {
        assert(s[i] == digits[i]);
    }
    if digits.len() < s.len() {
        assert(s[digits.len() as int] == tail[0]);
    }
    lemma_digit_run_is(s, digits.len() as int);
    assert(s.take(digits.len() as int) =~= digits);
    assert(s.skip(digits.len() as int) =~= tail);
    assert(s[0] == digits[0]);
}

/// Three digits for a number below a thousand.
pub proof fn lemma_zero_padded_three(m: nat)
    requires
        m < 1000,
    ensures
        zero_padded(m, 3) == seq![
            digit_char((m / 100) as int),
            digit_char((m / 10 % 10) as int),
            digit_char((m % 10) as int),
        ],
{
    let expected = seq![
        digit_char((m / 100) as int),
        digit_char((m / 10 % 10) as int),
        digit_char((m % 10) as int),
    ];
    if m < 10 {
        assert(decimal(m) =~= seq![digit_char(m as int)]);
        assert(zeros(2) + decimal(m) =~= expected);
    } else if m < 100 {
        assert(decimal(m / 10) =~= seq![digit_char((m / 10) as int)]);
        assert(decimal(m) =~= seq![digit_char((m / 10) as int), digit_char((m % 10) as int)]);
        assert(zeros(1) + decimal(m) =~= expected);
    } else {
        assert(decimal(m / 100) =~= seq![digit_char((m / 100) as int)]);
        assert(decimal(m / 10) =~= seq![
            digit_char((m / 100) as int),
            digit_char((m / 10 % 10) as int),
        ]);
        assert(decimal(m) =~= expected);
    }
}

pub proof fn lemma_read_fraction(m: nat, tail: Seq<char>)
    requires
        m < 1000,
    ensures
        read_fraction(zero_padded(m, 3) + tail) == Some((m, tail)),
{
    lemma_zero_padded_three(m);
    lemma_digit_char((m / 100) as int);
    lemma_digit_char((m / 10 % 10) as int);
    lemma_digit_char((m % 10) as int);
    let s = zero_padded(m, 3) + tail;
    assert(s[0] == digit_char((m / 100) as int));
    assert(s[1] == digit_char((m / 10 % 10) as int));
    assert(s[2] == digit_char((m % 10) as int));
    assert(s.skip(3) =~= tail);
}

pub proof fn lemma_read_thousandths(magnitude: nat, tail: Seq<char>)
    ensures
        read_thousandths(thousandths(magnitude) + tail) == Some((magnitude, tail)),
{
    let whole = decimal(magnitude / 1000);
    let fraction = zero_padded(magnitude % 1000, 3);
    let after_whole = seq!['.'] + (fraction + tail);
    assert(thousandths(magnitude) + tail =~= whole + after_whole);
    assert(after_whole[0] == '.');
    lemma_read_number(magnitude / 1000, after_whole);
    lemma_expect_prefix(seq!['.'], fraction + tail);
    lemma_read_fraction(magnitude % 1000, tail);
}

pub proof fn lemma_read_signed_thousandths(value: int, tail: Seq<char>)
    ensures
        read_signed_thousandths(signed_thousandths(value) + tail) == Some((value, tail)),
{
    if value < 0 {
        let magnitude = (-value) as nat;
        let s = signed_thousandths(value) + tail;
        assert(s[0] == '-');
        assert(s.skip(1) =~= thousandths(magnitude) + tail);
        lemma_read_thousandths(magnitude, tail);
    } else {
        let digits = thousandths(value as nat);
        lemma_decimal_digits((value as nat) / 1000);
        let s = digits + tail;
        assert(s[0] == decimal((value as nat) / 1000)[0]);
        lemma_read_thousandths(value as nat, tail);
    }
}

/// A text being read, with the place that reading has reached.
pub struct Cursor {
    text: Vec<char>,
    at: usize,
}

impl Cursor {
    /// The place lies within the text or at its end.
    pub closed spec fn wf(&self) -> bool {
        self.at <= self.text.len()
    }

    /// The text that is still to be read.
    pub closed spec fn rest(&self) -> Seq<char> {
        self.text@.skip(self.at as int)
    }

    /// The whole text, read or not.
    pub closed spec fn source(&self) -> Seq<char> {
        self.text@
    }

    /// A cursor at the start of `s`.
    pub fn new(s: &str) -> (cursor: Self)
        ensures
            cursor.wf(),
            cursor.rest() == s@,
    {
        let cursor = Cursor { text: chars_of(s), at: 0 };
        assert(cursor.text@.skip(0) =~= s@);
        cursor
    }

    /// Tells whether everything has been read.
    pub fn at_end(&self) -> (done: bool)
        requires
            self.wf(),
        ensures
            done == (self.rest().len() == 0),
    {
        self.at == self.text.len()
    }

    /// Steps over `word` where the rest starts with it.
    pub fn take_word(&mut self, word: &str) -> (found: bool)
        requires
            old(self).wf(),
        ensures
            final(self).wf(),
            final(self).source() == old(self).source(),
            match expect(old(self).rest(), word@) {
                Some(rest) => found && final(self).rest() == rest,
                None => !found && final(self).rest() == old(self).rest(),
            },
    {
        let letters = chars_of(word);
        if letters.len() > self.text.len() - self.at {
            return false;
        }
        let mut i: usize = 0;
        while i < letters.len()
            invariant
                i <= letters.len(),
                self.wf(),
                self.at == old(self).at,
                self.text@ == old(self).text@,
                letters@ == word@,
                letters.len() <= self.text.len() - self.at,
                forall|k: int| 0 <= k < i ==> self.rest()[k] == letters@[k],
            decreases letters.len() - i,
        {
            if self.text[self.at + i] != letters[i] {
                assert(self.rest()[i as int] != word@[i as int]);
                return false;
            }
            i += 1;
        }
        proof {
            assert(self.rest().subrange(0, word@.len() as int) =~= word@);
            assert(self.rest().skip(word@.len() as int) =~= self.text@.skip(
                self.at + letters.len(),
            ));
        }
        self.at = self.at + letters.len();
        true
    }

    /// Steps over a whole number and returns it, where the rest starts with
    /// one that fits `u64`.
    pub fn take_number(&mut self) -> (number: Option<u64>)
        requires
            old(self).wf(),
        ensures
            final(self).wf(),
            final(self).source() == old(self).source(),
            match read_number(old(self).rest()) {
                Some((n, rest)) => if n <= u64::MAX {
                    number == Some(n as u64) && final(self).rest() == rest
                } else {
                    number is None
                },
                None => number is None,
            },
    {
        let end = scan_digits(&self.text, self.at);
        let ghost rest = self.rest();
        if end == self.at {
            return None;
        }
        if end - self.at > 1 && self.text[self.at] == '0' {
            return None;
        }
        proof {
            assert(rest.take(end - self.at) =~= self.text@.subrange(self.at as int, end as int));
            assert(rest.skip(end - self.at) =~= self.text@.skip(end as int));
        }
        match digits_to_u64(&self.text, self.at, end) {
            Some(value) => {
                self.at = end;
                Some(value)
            },
            None => None,
        }
    }

    /// Steps over three digits and returns their number, where the rest
    /// starts with three digits.
    pub fn take_fraction(&mut self) -> (number: Option<u64>)
        requires
            old(self).wf(),
        ensures
            final(self).wf(),
            final(self).source() == old(self).source(),
            match read_fraction(old(self).rest()) {
                Some((n, rest)) => number == Some(n as u64) && n <= 999 && final(self).rest()
                    == rest,
                None => number is None,
            },
    {
        if self.text.len() - self.at < 3 {
            return None;
        }
        let a = self.text[self.at];
        let b = self.text[self.at + 1];
        let c = self.text[self.at + 2];
        proof {
            assert(self.rest()[0] == a);
            assert(self.rest()[1] == b);
            assert(self.rest()[2] == c);
            assert(self.rest().skip(3) =~= self.text@.skip(self.at + 3));
        }
        if !(crate::decimal::is_digit_char(a) && crate::decimal::is_digit_char(b)
            && crate::decimal::is_digit_char(c)) {
            return None;
        }
        let value = crate::decimal::digit_value_of(a) * 100 + crate::decimal::digit_value_of(b)
            * 10 + crate::decimal::digit_value_of(c);
        self.at = self.at + 3;
        Some(value)
    }

    /// Steps over a number of thousandths and returns it, where the rest
    /// starts with one that fits `u64`.
    pub fn take_thousandths(&mut self) -> (number: Option<u64>)
        requires
            old(self).wf(),
        ensures
            final(self).wf(),
            final(self).source() == old(self).source(),
            match read_thousandths(old(self).rest()) {
                Some((n, rest)) => if n <= u64::MAX {
                    number == Some(n as u64) && final(self).rest() == rest
                } else {
                    number is None
                },
                None => number is None,
            },
    {
        let whole = match self.take_number() {
            Some(whole) => whole,
            None => {
                return None;
            },
        };
        if !self.take_word(".") {
            proof {
                reveal_strlit(".");
                assert("."@ =~= seq!['.']);
            }
            return None;
        }
        proof {
            reveal_strlit(".");
            assert("."@ =~= seq!['.']);
        }
        let fraction = match self.take_fraction() {
            Some(fraction) => fraction,
            None => {
                return None;
            },
        };
        if whole > (u64::MAX - fraction) / 1000 {
            return None;
        }
        Some(whole * 1000 + fraction)
    }

    /// Steps over a signed number of thousandths and returns it, where the
    /// rest starts with one that fits `i64`.
    pub fn take_signed_thousandths(&mut self) -> (number: Option<i64>)
        requires
            old(self).wf(),
        ensures
            final(self).wf(),
            final(self).source() == old(self).source(),
            match read_signed_thousandths(old(self).rest()) {
                Some((n, rest)) => if i64::MIN <= n <= i64::MAX {
                    number == Some(n as i64) && final(self).rest() == rest
                } else {
                    number is None
                },
                None => number is None,
            },
    {
        let negative = self.at < self.text.len() && self.text[self.at] == '-';
        if negative {
            proof {
                assert(self.rest()[0] == '-');
                assert(self.rest().skip(1) =~= self.text@.skip(self.at + 1));
            }
            self.at = self.at + 1;
        } else {
            proof {
                if self.rest().len() > 0 {
                    assert(self.rest()[0] == self.text@[self.at as int]);
                }
            }
        }
        let magnitude = match self.take_thousandths() {
            Some(magnitude) => magnitude,
            None => {
                return None;
            },
        };
        if negative {
            if magnitude == 0 || magnitude > 9223372036854775808u64 {
                None
            } else if magnitude == 9223372036854775808u64 {
                Some(i64::MIN)
            } else {
                Some(-(magnitude as i64))
            }
        } else if magnitude > 9223372036854775807u64 {
            None
        } else {
            Some(magnitude as i64)
        }
    }
}

/// The lower-case hexadecimal digit for `d`, for `0 <= d <= 15`.
pub open spec fn hex_char(d: int) -> char {
    if d < 10 {
        digit_char(d)
    } else if d == 10 {
        'a'
    } else if d == 11 {
        'b'
    } else if d == 12 {
        'c'
    } else if d == 13 {
        'd'
    } else if d == 14 {
        'e'
    } else {
        'f'
    }
}

/// The value of a lower-case hexadecimal digit.
pub open spec fn hex_value(c: char) -> Option<int> {
    if is_digit(c) {
        Some(digit_value(c))
    } else if c == 'a' {
        Some(10)
    } else if c == 'b' {
        Some(11)
    } else if c == 'c' {
        Some(12)
    } else if c == 'd' {
        Some(13)
    } else if c == 'e' {
        Some(14)
    } else if c == 'f' {
        Some(15)
    } else {
        None
    }
}

/// The letter that stands behind the backslash for a character with a short
/// escape: the quote, the backslash, and five control characters.
pub open spec fn short_escape(c: char) -> Option<char> {
    let code = c as u32;
    if c == '"' {
        Some('"')
    } else if c == '\\' {
        Some('\\')
    } else if code == 0x0A {
        Some('n')
    } else if code == 0x0D {
        Some('r')
    } else if code == 0x09 {
        Some('t')
    } else if code == 0x08 {
        Some('b')
    } else if code == 0x0C {
        Some('f')
    } else {
        None
    }
}

/// The character that a letter behind a backslash stands for.
pub open spec fn short_escape_of(letter: char) -> Option<char> {
    if letter == '"' {
        Some('"')
    } else if letter == '\\' {
        Some('\\')
    } else if letter == 'n' {
        Some(0x0Au8 as char)
    } else if letter == 'r' {
        Some(0x0Du8 as char)
    } else if letter == 't' {
        Some(0x09u8 as char)
    } else if letter == 'b' {
        Some(0x08u8 as char)
    } else if letter == 'f' {
        Some(0x0Cu8 as char)
    } else {
        None
    }
}

/// How one character stands inside a quoted string: with a short escape
/// where it has one; as `\u00` and two hexadecimal digits where it is
/// another control character; as itself otherwise.
pub open spec fn escape_char(c: char) -> Seq<char> {
    let code = c as u32;
    match short_escape(c) {
        Some(letter) => seq!['\\', letter],
        None => if code < 0x20 {
            seq!['\\', 'u', '0', '0', hex_char((code / 16) as int), hex_char((code % 16) as int)]
        } else {
            seq![c]
        },
    }
}

/// How a text stands inside a quoted string.
pub open spec fn escape(text: Seq<char>) -> Seq<char>
    decreases text.len(),
{
    if text.len() == 0 {
        Seq::empty()
    } else {
        escape_char(text[0]) + escape(text.skip(1))
    }
}

/// A text as a quoted string.
pub open spec fn quoted(text: Seq<char>) -> Seq<char> {
    seq!['"'] + escape(text) + seq!['"']
}

/// One character at the front of the inside of a quoted string, with the
/// number of characters that stand for it.
pub open spec fn read_escaped_char(s: Seq<char>) -> Option<(char, int)> {
    if s.len() == 0 {
        None
    } else if s[0] == '\\' {
        if s.len() < 2 {
            None
        } else if s[1] == 'u' {
            if s.len() >= 6 && s[2] == '0' && s[3] == '0' && (s[4] == '0' || s[4] == '1')
                && hex_value(s[5]) is Some {
                let code = digit_value(s[4]) * 16 + hex_value(s[5])->0;
                if short_escape(code as char) is Some {
                    None
                } else {
                    Some((code as char, 6))
                }
            } else {
                None
            }
        } else {
            match short_escape_of(s[1]) {
                Some(c) => Some((c, 2)),
                None => None,
            }
        }
    } else if s[0] == '"' || (s[0] as u32) < 0x20 {
        None
    } else {
        Some((s[0], 1))
    }
}

/// The text of a quoted string whose opening quote has been read, with the
/// text after its closing quote.
pub open spec fn read_string_body(s: Seq<char>) -> Option<(Seq<char>, Seq<char>)>
    decreases s.len(),
{
    if s.len() == 0 {
        None
    } else if s[0] == '"' {
        Some((Seq::empty(), s.skip(1)))
    } else {
        match read_escaped_char(s) {
            Some((c, width)) => {
                if 0 < width <= s.len() {
                    match read_string_body(s.skip(width)) {
                        Some((text, rest)) => Some((seq![c] + text, rest)),
                        None => None,
                    }
                } else {
                    None
                }
            },
            None => None,
        }
    }
}

/// A quoted string at the front of `s`, with the text after it.
pub open spec fn read_string(s: Seq<char>) -> Option<(Seq<char>, Seq<char>)> {
    if s.len() > 0 && s[0] == '"' {
        read_string_body(s.skip(1))
    } else {
        None
    }
}

pub proof fn lemma_hex_char(d: int)
    requires
        0 <= d <= 15,
    ensures
        hex_value(hex_char(d)) == Some(d),
        d < 10 ==> is_digit(hex_char(d)) && digit_value(hex_char(d)) == d,
        d == 0 ==> hex_char(d) == '0',
        d == 1 ==> hex_char(d) == '1',
{
    if d < 10 {
        lemma_digit_char(d);
    }
}

/// Reading what stands for one character gives the character back.
pub proof fn lemma_read_escaped_char(c: char, tail: Seq<char>)
    ensures
        read_escaped_char(escape_char(c) + tail) == Some((c, escape_char(c).len() as int)),
        escape_char(c).len() > 0,
        (escape_char(c) + tail)[0] != '"',
{
    let code = c as u32;
    let s = escape_char(c) + tail;
    match short_escape(c) {
        Some(letter) => {
            assert(s[0] == '\\');
            assert(s[1] == letter);
            assert(short_escape_of(letter) == Some(c));
            assert(letter != 'u');
        },
        None => {
            if code < 0x20 {
                lemma_hex_char((code / 16) as int);
                lemma_hex_char((code % 16) as int);
                assert(s[0] == '\\');
                assert(s[1] == 'u');
                assert(s[2] == '0');
                assert(s[3] == '0');
                assert(s[4] == hex_char((code / 16) as int));
                assert(s[5] == hex_char((code % 16) as int));
                assert(digit_value(s[4]) * 16 + hex_value(s[5])->0 == code);
                assert((code as int) as char == c);
            } else {
                assert(s[0] == c);
            }
        },
    }
}

pub proof fn lemma_read_string_body(text: Seq<char>, tail: Seq<char>)
    ensures
        read_string_body(escape(text) + seq!['"'] + tail) == Some((text, tail)),
    decreases text.len(),
{
    let s = escape(text) + seq!['"'] + tail;
    if text.len() == 0 {
        assert(s[0] == '"');
        assert(s.skip(1) =~= tail);
    } else {
        let c = text[0];
        let after = escape(text.skip(1)) + seq!['"'] + tail;
        assert(s =~= escape_char(c) + after);
        lemma_read_escaped_char(c, after);
        let width = escape_char(c).len() as int;
        assert(s.skip(width) =~= after);
        lemma_read_string_body(text.skip(1), tail);
        assert(seq![c] + text.skip(1) =~= text);
    }
}

pub proof fn lemma_read_string(text: Seq<char>, tail: Seq<char>)
    ensures
        read_string(quoted(text) + tail) == Some((text, tail)),
        (quoted(text) + tail)[0] == '"',
{
    let s = quoted(text) + tail;
    assert(s[0] == '"');
    assert(s.skip(1) =~= escape(text) + seq!['"'] + tail);
    lemma_read_string_body(text, tail);
}

/// Escaping a text with one more character at its end.
pub proof fn lemma_escape_push(text: Seq<char>, c: char)
    ensures
        escape(text.push(c)) == escape(text) + escape_char(c),
    decreases text.len(),
{
    if text.len() == 0 {
        assert(text.push(c).skip(1) =~= Seq::<char>::empty());
        assert(escape(text.push(c)) =~= escape_char(c) + escape(Seq::<char>::empty()));
        assert(escape(text) + escape_char(c) =~= escape_char(c));
        assert(escape_char(c) + Seq::<char>::empty() =~= escape_char(c));
    } else {
        assert(text.push(c).skip(1) =~= text.skip(1).push(c));
        lemma_escape_push(text.skip(1), c);
        assert(escape(text.push(c)) =~= escape(text) + escape_char(c));
    }
}

/// The lower-case hexadecimal digit for `d`.
fn hex_digit_of(d: u32) -> (c: char)
    requires
        d <= 15,
    ensures
        c == hex_char(d as int),
{
    if d < 10 {
        crate::text::digit_of(d as u8)
    } else if d == 10 {
        'a'
    } else if d == 11 {
        'b'
    } else if d == 12 {
        'c'
    } else if d == 13 {
        'd'
    } else if d == 14 {
        'e'
    } else {
        'f'
    }
}

/// The value of a lower-case hexadecimal digit.
fn hex_value_of(c: char) -> (value: Option<u8>)
    ensures
        match value {
            Some(v) => hex_value(c) == Some(v as int) && v <= 15,
            None => hex_value(c) is None,
        },
{
    if crate::decimal::is_digit_char(c) {
        Some(crate::decimal::digit_value_of(c) as u8)
    } else if c == 'a' {
        Some(10)
    } else if c == 'b' {
        Some(11)
    } else if c == 'c' {
        Some(12)
    } else if c == 'd' {
        Some(13)
    } else if c == 'e' {
        Some(14)
    } else if c == 'f' {
        Some(15)
    } else {
        None
    }
}

/// The letter of the short escape of `c`, if it has one.
fn short_escape_letter(c: char) -> (letter: Option<char>)
    ensures
        letter == short_escape(c),
{
    let code: u32 = c as u32;
    if c == '"' {
        Some('"')
    } else if c == '\\' {
        Some('\\')
    } else if code == 0x0A {
        Some('n')
    } else if code == 0x0D {
        Some('r')
    } else if code == 0x09 {
        Some('t')
    } else if code == 0x08 {
        Some('b')
    } else if code == 0x0C {
        Some('f')
    } else {
        None
    }
}

/// The character that a letter behind a backslash stands for, if any.
fn short_escape_target(letter: char) -> (c: Option<char>)
    ensures
        c == short_escape_of(letter),
{
    if letter == '"' {
        Some('"')
    } else if letter == '\\' {
        Some('\\')
    } else if letter == 'n' {
        Some(0x0Au8 as char)
    } else if letter == 'r' {
        Some(0x0Du8 as char)
    } else if letter == 't' {
        Some(0x09u8 as char)
    } else if letter == 'b' {
        Some(0x08u8 as char)
    } else if letter == 'f' {
        Some(0x0Cu8 as char)
    } else {
        None
    }
}

/// Appends what stands for `c` inside a quoted string.
fn push_escaped_char(out: &mut String, c: char)
    ensures
        final(out)@ == old(out)@ + escape_char(c),
{
    let code: u32 = c as u32;
    match short_escape_letter(c) {
        Some(letter) => {
            out.push('\\');
            out.push(letter);
            assert(out@ =~= old(out)@ + seq!['\\', letter]);
        },
        None => {
            if code < 0x20 {
                out.push('\\');
                out.push('u');
                out.push('0');
                out.push('0');
                out.push(hex_digit_of(code / 16));
                out.push(hex_digit_of(code % 16));
                assert(out@ =~= old(out)@ + seq![
                    '\\',
                    'u',
                    '0',
                    '0',
                    hex_char((code / 16) as int),
                    hex_char((code % 16) as int),
                ]);
            } else {
                out.push(c);
                assert(out@ =~= old(out)@ + seq![c]);
            }
        },
    }
}

/// Appends `text` as a quoted string.
pub fn push_quoted(out: &mut String, text: &str)
    ensures
        final(out)@ == old(out)@ + quoted(text@),
{
    let letters = chars_of(text);
    out.push('"');
    let ghost opened = out@;
    let mut i: usize = 0;
    proof {
        assert(letters@.take(0) =~= Seq::<char>::empty());
        assert(opened + escape(Seq::<char>::empty()) =~= opened);
    }
    while i < letters.len()
        invariant
            i <= letters.len(),
            letters@ == text@,
            out@ == opened + escape(letters@.take(i as int)),
        decreases letters.len() - i,
    {
        push_escaped_char(out, letters[i]);
        proof {
            lemma_escape_push(letters@.take(i as int), letters@[i as int]);
            assert(letters@.take(i as int).push(letters@[i as int]) =~= letters@.take(i + 1));
            assert(out@ =~= opened + escape(letters@.take(i + 1)));
        }
        i += 1;
    }
    out.push('"');
    proof {
        assert(letters@.take(letters.len() as int) =~= letters@);
        assert(out@ =~= old(out)@ + quoted(text@));
    }
}

impl Cursor {
    /// Steps over what stands for one character inside a quoted string and
    /// returns the character.
    fn take_escaped_char(&mut self) -> (c: Option<char>)
        requires
            old(self).wf(),
        ensures
            final(self).wf(),
            final(self).source() == old(self).source(),
            match read_escaped_char(old(self).rest()) {
                Some((expected, width)) => c == Some(expected) && 0 < width
                    && final(self).at == old(self).at + width,
                None => c is None,
            },
    {
        let left = self.text.len() - self.at;
        if left == 0 {
            return None;
        }
        let ghost rest = self.rest();
        let first = self.text[self.at];
        assert(rest[0] == first);
        if first == '\\' {
            if left < 2 {
                return None;
            }
            let second = self.text[self.at + 1];
            assert(rest[1] == second);
            if second == 'u' {
                if left < 6 {
                    return None;
                }
                let c2 = self.text[self.at + 2];
                let c3 = self.text[self.at + 3];
                let c4 = self.text[self.at + 4];
                let c5 = self.text[self.at + 5];
                proof {
                    assert(rest[2] == c2);
                    assert(rest[3] == c3);
                    assert(rest[4] == c4);
                    assert(rest[5] == c5);
                }
                if !(c2 == '0' && c3 == '0' && (c4 == '0' || c4 == '1')) {
                    return None;
                }
                let low = match hex_value_of(c5) {
                    Some(low) => low,
                    None => {
                        return None;
                    },
                };
                let high: u8 = if c4 == '1' {
                    1
                } else {
                    0
                };
                let code: u8 = high * 16 + low;
                let decoded = code as char;
                if short_escape_letter(decoded).is_some() {
                    return None;
                }
                self.at = self.at + 6;
                Some(decoded)
            } else {
                match short_escape_target(second) {
                    Some(c) => {
                        self.at = self.at + 2;
                        Some(c)
                    },
                    None => None,
                }
            }
        } else if first == '"' || (first as u32) < 0x20 {
            None
        } else {
            self.at = self.at + 1;
            Some(first)
        }
    }

    /// Steps over a quoted string and returns its text, where the rest
    /// starts with one.
    pub fn take_string(&mut self) -> (text: Option<String>)
        requires
            old(self).wf(),
        ensures
            final(self).wf(),
            final(self).source() == old(self).source(),
            match read_string(old(self).rest()) {
                Some((expected, rest)) => text is Some && text->0@ == expected
                    && final(self).rest() == rest,
                None => text is None,
            },
    {
        if self.at == self.text.len() || self.text[self.at] != '"' {
            proof {
                if self.rest().len() > 0 {
                    assert(self.rest()[0] == self.text@[self.at as int]);
                }
            }
            return None;
        }
        proof {
            assert(self.rest()[0] == '"');
            assert(self.rest().skip(1) =~= self.text@.skip(self.at + 1));
        }
        self.at = self.at + 1;
        let ghost body = self.rest();
        let mut out = String::new();
        proof {
            match read_string_body(body) {
                Some((text, rest)) => {
                    assert(out@ + text =~= text);
                },
                None => {},
            }
        }
        loop
            invariant
                self.wf(),
                self.text@ == old(self).text@,
                read_string(old(self).rest()) == read_string_body(body),
                match read_string_body(self.rest()) {
                    Some((text, rest)) => read_string_body(body) == Some((out@ + text, rest)),
                    None => read_string_body(body) is None,
                },
            decreases self.text.len() - self.at,
        {
            if self.at == self.text.len() {
                return None;
            }
            let ghost here = self.rest();
            if self.text[self.at] == '"' {
                proof {
                    assert(here[0] == '"');
                    assert(here.skip(1) =~= self.text@.skip(self.at + 1));
                    assert(out@ + Seq::<char>::empty() =~= out@);
                }
                self.at = self.at + 1;
                return Some(out);
            }
            assert(here[0] == self.text@[self.at as int]);
            let ghost before = out@;
            match self.take_escaped_char() {
                Some(c) => {
                    out.push(c);
                    proof {
                        match read_escaped_char(here) {
                            Some((_, width)) => {
                                assert(self.rest() =~= here.skip(width));
                            },
                            None => {},
                        }
                        match read_string_body(self.rest()) {
                            Some((text, rest)) => {
                                assert(out@ + text =~= before + (seq![c] + text));
                            },
                            None => {},
                        }
                    }
                },
                None => {
                    return None;
                },
            }
        }
    }
}

/// A text that was read as starting with `word` is `word` and the rest.
pub proof fn lemma_expect_only(s: Seq<char>, word: Seq<char>)
    requires
        expect(s, word) is Some,
    ensures
        s == word + expect(s, word)->0,
{
    assert(s =~= s.subrange(0, word.len() as int) + s.skip(word.len() as int));
}

/// Each digit is the digit character of its value.
pub proof fn lemma_digit_of_value(c: char)
    requires
        is_digit(c),
    ensures
        0 <= digit_value(c) <= 9,
        digit_char(digit_value(c)) == c,
        hex_char(digit_value(c)) == c,
{
}

/// A digit string that starts with zero only where it is one digit long is
/// the decimal rendering of the number it denotes.
pub proof fn lemma_decimal_of_digits(s: Seq<char>)
    requires
        s.len() > 0,
        all_digits(s),
        s.len() == 1 || s[0] != '0',
    ensures
        decimal(digits_value(s)) == s,
        s[0] != '0' ==> digits_value(s) > 0,
    decreases s.len(),
{
    let front = s.drop_last();
    let last = s.last();
    assert(is_digit(last));
    lemma_digit_of_value(last);
    if front.len() == 0 {
        assert(digits_value(front) == 0);
        assert(digits_value(s) == digit_value(last));
        assert(decimal(digits_value(s)) =~= s);
    } else {
        assert(front[0] == s[0]);
        assert forall|i: int| 0 <= i < front.len() implies is_digit(#[trigger] front[i]) by {
            assert(front[i] == s[i]);
        }
        lemma_decimal_of_digits(front);
        let n = digits_value(s);
        assert(n == digits_value(front) * 10 + digit_value(last));
        assert(n / 10 == digits_value(front));
        assert(n % 10 == digit_value(last));
        assert(decimal(n) =~= front.push(last));
        assert(front.push(last) =~= s);
    }
}

/// The digits at the front of a text are digits.
pub proof fn lemma_digit_run_digits(s: Seq<char>)
    ensures
        digit_run(s) <= s.len(),
        all_digits(s.take(digit_run(s) as int)),
    decreases s.len(),
{
    if s.len() > 0 && is_digit(s[0]) {
        let tail = s.skip(1);
        lemma_digit_run_digits(tail);
        let run = digit_run(s) as int;
        assert forall|i: int| 0 <= i < s.take(run).len() implies is_digit(
            #[trigger] s.take(run)[i],
        ) by {
            if i > 0 {
                assert(s.take(run)[i] == tail.take(run - 1)[i - 1]);
            }
        }
    }
}

/// A text that was read as starting with a number is the number's decimal
/// rendering and the rest.
pub proof fn lemma_read_number_only(s: Seq<char>)
    requires
        read_number(s) is Some,
    ensures
        s == decimal((read_number(s)->0).0) + (read_number(s)->0).1,
{
    let run = digit_run(s) as int;
    lemma_digit_run_digits(s);
    let digits = s.take(run);
    assert(digits[0] == s[0]);
    lemma_decimal_of_digits(digits);
    assert(s =~= digits + s.skip(run));
}

/// A text that was read as starting with three digits is the three digits
/// of the number and the rest.
pub proof fn lemma_read_fraction_only(s: Seq<char>)
    requires
        read_fraction(s) is Some,
    ensures
        (read_fraction(s)->0).0 < 1000,
        s == zero_padded((read_fraction(s)->0).0, 3) + (read_fraction(s)->0).1,
{
    let m = (read_fraction(s)->0).0;
    lemma_digit_of_value(s[0]);
    lemma_digit_of_value(s[1]);
    lemma_digit_of_value(s[2]);
    assert(m / 100 == digit_value(s[0]));
    assert(m / 10 % 10 == digit_value(s[1]));
    assert(m % 10 == digit_value(s[2]));
    lemma_zero_padded_three(m);
    assert(s =~= seq![s[0], s[1], s[2]] + s.skip(3));
}

/// A text that was read as starting with a number of thousandths is the
/// number's rendering and the rest.
pub proof fn lemma_read_thousandths_only(s: Seq<char>)
    requires
        read_thousandths(s) is Some,
    ensures
        s == thousandths((read_thousandths(s)->0).0) + (read_thousandths(s)->0).1,
{
    let (whole, after_whole) = read_number(s)->0;
    lemma_read_number_only(s);
    let after_point = expect(after_whole, seq!['.'])->0;
    lemma_expect_only(after_whole, seq!['.']);
    let (fraction, rest) = read_fraction(after_point)->0;
    lemma_read_fraction_only(after_point);
    let value = whole * 1000 + fraction;
    assert(value / 1000 == whole);
    assert(value % 1000 == fraction);
    assert(s =~= thousandths(value) + rest);
}

/// A text that was read as starting with a signed number of thousandths is
/// the number's rendering and the rest.
pub proof fn lemma_read_signed_thousandths_only(s: Seq<char>)
    requires
        read_signed_thousandths(s) is Some,
    ensures
        s == signed_thousandths((read_signed_thousandths(s)->0).0) + (read_signed_thousandths(
            s,
        )->0).1,
{
    if s.len() > 0 && s[0] == '-' {
        lemma_read_thousandths_only(s.skip(1));
        assert(s =~= seq!['-'] + s.skip(1));
    } else {
        lemma_read_thousandths_only(s);
    }
}

/// Each lower-case hexadecimal digit is the digit of its value.
pub proof fn lemma_hex_of_value(c: char)
    requires
        hex_value(c) is Some,
    ensures
        0 <= hex_value(c)->0 <= 15,
        hex_char(hex_value(c)->0) == c,
{
    if is_digit(c) {
        lemma_digit_of_value(c);
    }
}

/// What was read as standing for a character is what the character is
/// written as.
pub proof fn lemma_read_escaped_char_only(s: Seq<char>)
    requires
        read_escaped_char(s) is Some,
    ensures
        0 < (read_escaped_char(s)->0).1 <= s.len(),
        s.take((read_escaped_char(s)->0).1) == escape_char((read_escaped_char(s)->0).0),
{
    let (c, width) = read_escaped_char(s)->0;
    if s[0] == '\\' {
        if s[1] == 'u' {
            lemma_hex_of_value(s[5]);
            lemma_digit_of_value(s[4]);
            let code = digit_value(s[4]) * 16 + hex_value(s[5])->0;
            assert(0 <= code < 0x20);
            assert((c as u32) == code);
            assert(code / 16 == digit_value(s[4]));
            assert(code % 16 == hex_value(s[5])->0);
            assert(s.take(6) =~= escape_char(c));
        } else {
            assert(short_escape(c) == Some(s[1]));
            assert(s.take(2) =~= seq!['\\', s[1]]);
        }
    } else {
        assert(short_escape(c) is None);
        assert(s.take(1) =~= seq![c]);
    }
}

/// A text that was read as the inside of a quoted string, up to its closing
/// quote, is what the string's text is written as, the quote and the rest.
pub proof fn lemma_read_string_body_only(s: Seq<char>)
    requires
        read_string_body(s) is Some,
    ensures
        s == escape((read_string_body(s)->0).0) + seq!['"'] + (read_string_body(s)->0).1,
    decreases s.len(),
{
    let (text, rest) = read_string_body(s)->0;
    if s[0] == '"' {
        assert(text =~= Seq::<char>::empty());
        assert(s =~= escape(text) + seq!['"'] + rest);
    } else {
        let (c, width) = read_escaped_char(s)->0;
        lemma_read_escaped_char_only(s);
        let after = s.skip(width);
        lemma_read_string_body_only(after);
        let tail_text = (read_string_body(after)->0).0;
        assert(text == seq![c] + tail_text);
        assert(text[0] == c);
        assert(text.skip(1) =~= tail_text);
        assert(s =~= s.take(width) + after);
        assert(s =~= escape(text) + seq!['"'] + rest);
    }
}

/// A text that was read as starting with a quoted string is the quoted
/// string and the rest.
pub proof fn lemma_read_string_only(s: Seq<char>)
    requires
        read_string(s) is Some,
    ensures
        s == quoted((read_string(s)->0).0) + (read_string(s)->0).1,
{
    lemma_read_string_body_only(s.skip(1));
    assert(s =~= seq!['"'] + s.skip(1));
}

} // verus!
