//! Text helpers shared by the dialogue modules: whitespace trimming, ASCII
//! case folding, decimal rendering and line joining, each with a model over
//! `Seq<char>`.
use vstd::prelude::*;

verus! {

/// `String::push`: appends one character to the end of the string.
pub assume_specification[ String::push ](s: &mut String, c: char)
    ensures
        final(s)@ == old(s)@.push(c),
;

/// Characters with the Unicode `White_Space` property.
pub open spec fn is_whitespace(c: char) -> bool {
    let code = c as u32;
    ||| (0x09 <= code && code <= 0x0D)
    ||| code == 0x20
    ||| code == 0x85
    ||| code == 0xA0
    ||| code == 0x1680
    ||| (0x2000 <= code && code <= 0x200A)
    ||| code == 0x2028
    ||| code == 0x2029
    ||| code == 0x202F
    ||| code == 0x205F
    ||| code == 0x3000
}

/// `s` without its leading whitespace.
pub open spec fn trim_start(s: Seq<char>) -> Seq<char>
    decreases s.len(),
{
    if s.len() > 0 && is_whitespace(s[0]) {
        trim_start(s.skip(1))
    } else {
        s
    }
}

/// `s` without its trailing whitespace.
pub open spec fn trim_end(s: Seq<char>) -> Seq<char>
    decreases s.len(),
{
    if s.len() > 0 && is_whitespace(s.last()) {
        trim_end(s.drop_last())
    } else {
        s
    }
}

/// `s` without leading and trailing whitespace.
pub open spec fn trim(s: Seq<char>) -> Seq<char> {
    trim_end(trim_start(s))
}

/// True when `s` is empty or made of whitespace only.
pub open spec fn is_blank(s: Seq<char>) -> bool {
    trim(s).len() == 0
}

/// The code of `c` with ASCII upper-case letters mapped to lower case.
pub open spec fn ascii_fold(c: char) -> u32 {
    let code = c as u32;
    if 0x41 <= code && code <= 0x5A {
        (code + 0x20) as u32
    } else {
        code
    }
}

/// Equality of two texts up to the case of ASCII letters.
pub open spec fn eq_ignore_ascii_case(a: Seq<char>, b: Seq<char>) -> bool {
    &&& a.len() == b.len()
    &&& forall|i: int| 0 <= i < a.len() ==> ascii_fold(#[trigger] a[i]) == ascii_fold(b[i])
}

/// The decimal digit for `d`, for `0 <= d <= 9`.
pub open spec fn digit_char(d: int) -> char {
    if d == 0 {
        '0'
    } else if d == 1 {
        '1'
    } else if d == 2 {
        '2'
    } else if d == 3 {
        '3'
    } else if d == 4 {
        '4'
    } else if d == 5 {
        '5'
    } else if d == 6 {
        '6'
    } else if d == 7 {
        '7'
    } else if d == 8 {
        '8'
    } else {
        '9'
    }
}

/// True for the ten ASCII digits.
pub open spec fn is_digit(c: char) -> bool {
    '0' <= c && c <= '9'
}

/// The value of an ASCII digit.
pub open spec fn digit_value(c: char) -> int {
    (c as u32) as int - 0x30
}

/// The decimal rendering of `n`, without sign or leading zeros.
pub open spec fn decimal(n: nat) -> Seq<char>
    decreases n,
{
    if n < 10 {
        seq![digit_char(n as int)]
    } else {
        decimal(n / 10).push(digit_char((n % 10) as int))
    }
}

/// `count` copies of the digit zero.
pub open spec fn zeros(count: nat) -> Seq<char> {
    Seq::new(count, |i: int| '0')
}

/// The decimal rendering of `n`, padded with leading zeros to `width` digits.
pub open spec fn zero_padded(n: nat, width: nat) -> Seq<char> {
    let digits = decimal(n);
    if digits.len() < width {
        zeros((width - digits.len()) as nat) + digits
    } else {
        digits
    }
}

/// The texts of `parts` in order, with `separator` between neighbours.
pub open spec fn join(parts: Seq<Seq<char>>, separator: Seq<char>) -> Seq<char>
    decreases parts.len(),
{
    if parts.len() == 0 {
        Seq::empty()
    } else if parts.len() == 1 {
        parts[0]
    } else {
        join(parts.drop_last(), separator) + separator + parts.last()
    }
}

/// The views of the strings of `parts`, in order.
pub open spec fn views_of(parts: Seq<String>) -> Seq<Seq<char>> {
    Seq::new(parts.len(), |i: int| parts[i]@)
}

pub proof fn lemma_trim_start_skips(s: Seq<char>, n: int)
    requires
        0 <= n <= s.len(),
        forall|i: int| 0 <= i < n ==> is_whitespace(s[i]),
    ensures
        trim_start(s) == trim_start(s.skip(n)),
    decreases n,
{
    if n > 0 {
        assert(s.skip(1).skip(n - 1) =~= s.skip(n));
        lemma_trim_start_skips(s.skip(1), n - 1);
    } else {
        assert(s.skip(0) =~= s);
    }
}

pub proof fn lemma_trim_end_drops(s: Seq<char>, n: int)
    requires
        0 <= n <= s.len(),
        forall|i: int| n <= i < s.len() ==> is_whitespace(s[i]),
    ensures
        trim_end(s) == trim_end(s.take(n)),
    decreases s.len() - n,
{
    if n < s.len() {
        assert(s.drop_last().take(n) =~= s.take(n));
        lemma_trim_end_drops(s.drop_last(), n);
    } else {
        assert(s.take(n) =~= s);
    }
}

/// A text is blank exactly when each of its characters is whitespace.
pub proof fn lemma_blank_iff_all_whitespace(s: Seq<char>)
    ensures
        is_blank(s) <==> forall|i: int| 0 <= i < s.len() ==> is_whitespace(s[i]),
    decreases s.len(),
{
    if s.len() > 0 && is_whitespace(s[0]) {
        lemma_blank_iff_all_whitespace(s.skip(1));
        if forall|i: int| 0 <= i < s.len() ==> is_whitespace(s[i]) {
            assert forall|i: int| 0 <= i < s.skip(1).len() implies is_whitespace(s.skip(1)[i]) by {
                assert(s.skip(1)[i] == s[i + 1]);
            }
        }
        if forall|i: int| 0 <= i < s.skip(1).len() ==> is_whitespace(s.skip(1)[i]) {
            assert forall|i: int| 0 <= i < s.len() implies is_whitespace(s[i]) by {
                if i > 0 {
                    assert(s.skip(1)[i - 1] == s[i]);
                }
            }
        }
    } else if s.len() > 0 {
        lemma_trim_end_keeps_first(s);
    }
}

/// Trimming the end never removes a first character that is not whitespace.
pub proof fn lemma_trim_end_keeps_first(s: Seq<char>)
    requires
        s.len() > 0,
        !is_whitespace(s[0]),
    ensures
        trim_end(s).len() > 0,
        trim_end(s)[0] == s[0],
    decreases s.len(),
{
    if is_whitespace(s.last()) {
        lemma_trim_end_keeps_first(s.drop_last());
    }
}

/// The characters of `s`, in order.
pub fn chars_of(s: &str) -> (v: Vec<char>)
    ensures
        v@ == s@,
{
    let mut v: Vec<char> = Vec::new();
    for c in it: s.chars()
        invariant
            it.seq() == s@,
            v@ == s@.take(it.index() as int),
    {
        v.push(c);
    }
    v
}

/// The string made of the characters `v[from..to]`.
pub(crate) fn string_of_range(v: &Vec<char>, from: usize, to: usize) -> (s: String)
    requires
        from <= to <= v.len(),
    ensures
        s@ == v@.subrange(from as int, to as int),
{
    let mut s = String::new();
    let mut i: usize = from;
    while i < to
        invariant
            from <= i <= to <= v.len(),
            s@ == v@.subrange(from as int, i as int),
        decreases to - i,
    {
        s.push(v[i]);
        i += 1;
    }
    s
}

/// The string made of the characters of `v`, in order.
pub fn string_of(v: &Vec<char>) -> (s: String)
    ensures
        s@ == v@,
{
    let s = string_of_range(v, 0, v.len());
    assert(v@.subrange(0, v.len() as int) =~= v@);
    s
}

/// Tells whether `c` has the Unicode `White_Space` property.
pub fn is_whitespace_char(c: char) -> (b: bool)
    ensures
        b == is_whitespace(c),
{
    let code: u32 = c as u32;
    (0x09 <= code && code <= 0x0D) || code == 0x20 || code == 0x85 || code == 0xA0 || code
        == 0x1680 || (0x2000 <= code && code <= 0x200A) || code == 0x2028 || code == 0x2029
        || code == 0x202F || code == 0x205F || code == 0x3000
}

/// `s` without leading and trailing whitespace.
pub fn trimmed(s: &str) -> (t: String)
    ensures
        t@ == trim(s@),
{
    let v = chars_of(s);
    let mut start: usize = 0;
    while start < v.len() && is_whitespace_char(v[start])
        invariant
            start <= v.len(),
            forall|i: int| 0 <= i < start ==> is_whitespace(v@[i]),
        decreases v.len() - start,
    {
        start += 1;
    }
    let mut end: usize = v.len();
    while end > start && is_whitespace_char(v[end - 1])
        invariant
            start <= end <= v.len(),
            forall|i: int| end <= i < v.len() ==> is_whitespace(v@[i]),
        decreases end,
    {
        end -= 1;
    }
    proof {
        let rest = v@.skip(start as int);
        lemma_trim_start_skips(v@, start as int);
        assert(trim_start(rest) == rest);
        assert forall|i: int| end - start <= i < rest.len() implies is_whitespace(rest[i]) by {
            assert(rest[i] == v@[i + start]);
        }
        lemma_trim_end_drops(rest, end - start);
        let kept = rest.take(end - start);
        assert(kept =~= v@.subrange(start as int, end as int));
        assert(trim_end(kept) == kept);
    }
    string_of_range(&v, start, end)
}

/// Tells whether `s` is empty or made of whitespace only.
pub fn is_blank_text(s: &str) -> (b: bool)
    ensures
        b == is_blank(s@),
{
    let v = chars_of(s);
    let mut i: usize = 0;
    while i < v.len()
        invariant
            i <= v.len(),
            v@ == s@,
            forall|k: int| 0 <= k < i ==> is_whitespace(v@[k]),
        decreases v.len() - i,
    {
        if !is_whitespace_char(v[i]) {
            proof {
                lemma_blank_iff_all_whitespace(s@);
            }
            return false;
        }
        i += 1;
    }
    proof {
        lemma_blank_iff_all_whitespace(s@);
    }
    true
}

/// The code of `c` with ASCII upper-case letters mapped to lower case.
pub fn ascii_fold_char(c: char) -> (code: u32)
    ensures
        code == ascii_fold(c),
{
    let code: u32 = c as u32;
    if 0x41 <= code && code <= 0x5A {
        code + 0x20
    } else {
        code
    }
}

/// Compares two texts, ignoring the case of ASCII letters.
pub fn equals_ignoring_ascii_case(a: &str, b: &str) -> (same: bool)
    ensures
        same == eq_ignore_ascii_case(a@, b@),
{
    let left = chars_of(a);
    let right = chars_of(b);
    if left.len() != right.len() {
        return false;
    }
    let mut i: usize = 0;
    while i < left.len()
        invariant
            i <= left.len(),
            left.len() == right.len(),
            left@ == a@,
            right@ == b@,
            forall|k: int| 0 <= k < i ==> ascii_fold(#[trigger] left@[k]) == ascii_fold(right@[k]),
        decreases left.len() - i,
    {
        if ascii_fold_char(left[i]) != ascii_fold_char(right[i]) {
            return false;
        }
        i += 1;
    }
    true
}

/// Compares two texts character by character.
pub fn text_equals(a: &str, b: &str) -> (same: bool)
    ensures
        same == (a@ == b@),
{
    let left = chars_of(a);
    let right = chars_of(b);
    if left.len() != right.len() {
        return false;
    }
    let mut i: usize = 0;
    while i < left.len()
        invariant
            i <= left.len(),
            left.len() == right.len(),
            left@ == a@,
            right@ == b@,
            forall|k: int| 0 <= k < i ==> left@[k] == right@[k],
        decreases left.len() - i,
    {
        if left[i] != right[i] {
            return false;
        }
        i += 1;
    }
    assert(a@ =~= b@);
    true
}

/// The decimal digit for `d`.
pub(crate) fn digit_of(d: u8) -> (c: char)
    requires
        d < 10,
    ensures
        c == digit_char(d as int),
        is_digit(c),
        digit_value(c) == d,
{
    if d == 0 {
        '0'
    } else if d == 1 {
        '1'
    } else if d == 2 {
        '2'
    } else if d == 3 {
        '3'
    } else if d == 4 {
        '4'
    } else if d == 5 {
        '5'
    } else if d == 6 {
        '6'
    } else if d == 7 {
        '7'
    } else if d == 8 {
        '8'
    } else {
        '9'
    }
}

/// The characters of the decimal rendering of `n`.
pub(crate) fn decimal_chars(n: u64) -> (v: Vec<char>)
    ensures
        v@ == decimal(n as nat),
    decreases n,
{
    if n < 10 {
        let mut v: Vec<char> = Vec::new();
        v.push(digit_of(n as u8));
        v
    } else {
        let mut v = decimal_chars(n / 10);
        v.push(digit_of((n % 10) as u8));
        v
    }
}

/// The decimal rendering of `n`, without sign or leading zeros.
pub fn decimal_text(n: u64) -> (s: String)
    ensures
        s@ == decimal(n as nat),
{
    let v = decimal_chars(n);
    string_of(&v)
}

/// The decimal rendering of `n`, padded with leading zeros to `width` digits.
pub fn zero_padded_text(n: u64, width: usize) -> (s: String)
    ensures
        s@ == zero_padded(n as nat, width as nat),
{
    let digits = decimal_chars(n);
    let mut s = String::new();
    if digits.len() < width {
        let missing: usize = width - digits.len();
        let mut i: usize = 0;
        while i < missing
            invariant
                i <= missing,
                s@ == zeros(i as nat),
            decreases missing - i,
        {
            s.push('0');
            assert(zeros(i as nat).push('0') =~= zeros((i + 1) as nat));
            i += 1;
        }
    } else {
        assert(s@ =~= Seq::<char>::empty());
    }
    let ghost pad = s@;
    let mut k: usize = 0;
    while k < digits.len()
        invariant
            k <= digits.len(),
            s@ == pad + digits@.take(k as int),
        decreases digits.len() - k,
    {
        s.push(digits[k]);
        assert(pad + digits@.take(k + 1) =~= (pad + digits@.take(k as int)).push(digits@[k as int]));
        k += 1;
    }
    assert(digits@.take(digits.len() as int) =~= digits@);
    assert(Seq::<char>::empty() + digits@ =~= digits@);
    s
}

/// The texts of `parts` in order, with `separator` between neighbours.
pub fn join_texts(parts: &Vec<String>, separator: &str) -> (s: String)
    ensures
        s@ == join(views_of(parts@), separator@),
{
    let mut s = String::new();
    let mut i: usize = 0;
    while i < parts.len()
        invariant
            i <= parts.len(),
            s@ == join(views_of(parts@).take(i as int), separator@),
        decreases parts.len() - i,
    {
        let ghost before = views_of(parts@).take(i as int);
        let ghost after = views_of(parts@).take(i + 1);
        proof {
            assert(after.drop_last() =~= before);
            assert(after.last() == parts@[i as int]@);
        }
        if i > 0 {
            s.append(separator);
        } else {
            proof {
                assert(before.len() == 0);
                assert(s@ =~= Seq::<char>::empty());
                assert(Seq::<char>::empty() + parts@[i as int]@ =~= parts@[i as int]@);
            }
        }
        s.append(parts[i].as_str());
        i += 1;
    }
    assert(views_of(parts@).take(parts.len() as int) =~= views_of(parts@));
    s
}

} // verus!
