//! Inference of a column's data type from the text of its first data cell.

use vstd::prelude::*;
use crate::text::{
    char_is_numeric, chars_have, is_numeric, str_chars, trim_chars, trimmed,
};

verus! {

/// A decimal digit.
pub open spec fn is_digit(c: char) -> bool {
    '0' <= c <= '9'
}

/// A plus or minus sign.
pub open spec fn is_sign(c: char) -> bool {
    c == '+' || c == '-'
}

/// The lowercase form of an ASCII capital letter, any other character as it is.
pub open spec fn ascii_lower(c: char) -> char {
    if 'A' <= c <= 'Z' {
        ((c as u8) + 32) as u8 as char
    } else {
        c
    }
}

/// How many digits follow one another in `s` from position `at` on.
pub open spec fn digits_from(s: Seq<char>, at: int) -> int
    decreases s.len() - at,
{
    if 0 <= at < s.len() && is_digit(s[at]) {
        1 + digits_from(s, at + 1)
    } else {
        0
    }
}

/// From position `at` on, `s` is `word`, letter case aside.
pub open spec fn is_word_from(s: Seq<char>, at: int, word: Seq<char>) -> bool {
    &&& s.len() - at == word.len()
    &&& forall|i: int| 0 <= i < word.len() ==> ascii_lower(#[trigger] s[at + i]) == word[i]
}

/// From position `at` on, `s` spells infinity or not-a-number.
pub open spec fn is_special_from(s: Seq<char>, at: int) -> bool {
    ||| is_word_from(s, at, seq!['i', 'n', 'f'])
    ||| is_word_from(s, at, seq!['i', 'n', 'f', 'i', 'n', 'i', 't', 'y'])
    ||| is_word_from(s, at, seq!['n', 'a', 'n'])
}

/// From position `at` on, `s` is an exponent: `e`, an optional sign, digits.
pub open spec fn is_exponent_from(s: Seq<char>, at: int) -> bool {
    &&& at + 2 <= s.len()
    &&& (s[at] == 'e' || s[at] == 'E')
    &&& {
        let from = if is_sign(s[at + 1]) {
            at + 2
        } else {
            at + 1
        };
        from < s.len() && digits_from(s, from) == s.len() - from
    }
}

/// From position `at` on, `s` is a decimal number: digits with at most one
/// point among them, at least one digit, and an optional exponent.
pub open spec fn is_decimal_from(s: Seq<char>, at: int) -> bool {
    let whole = digits_from(s, at);
    let point = at + whole < s.len() && s[at + whole] == '.';
    let fraction = if point {
        digits_from(s, at + whole + 1)
    } else {
        0
    };
    let end = if point {
        at + whole + 1 + fraction
    } else {
        at + whole
    };
    whole + fraction >= 1 && (end == s.len() || is_exponent_from(s, end))
}

/// `s` is written as a real number: an optional sign, then a decimal number,
/// infinity or not-a-number.
pub open spec fn is_real_literal(s: Seq<char>) -> bool {
    let at = if s.len() > 0 && is_sign(s[0]) {
        1int
    } else {
        0int
    };
    is_special_from(s, at) || is_decimal_from(s, at)
}

/// `s` has a point and otherwise only numeric characters, points and commas.
pub open spec fn is_grouped_number(s: Seq<char>) -> bool {
    &&& s.contains('.')
    &&& forall|i: int|
        0 <= i < s.len() ==> (#[trigger] s[i]) == ',' || s[i] == '.' || char_is_numeric(s[i])
}

/// How many decimal digits `s` holds.
pub open spec fn digit_count(s: Seq<char>) -> nat
    decreases s.len(),
{
    if s.len() == 0 {
        0
    } else if is_digit(s.last()) {
        digit_count(s.drop_last()) + 1
    } else {
        digit_count(s.drop_last())
    }
}

/// `s` has a slash or a hyphen and at least four digits.
pub open spec fn is_date_like(s: Seq<char>) -> bool {
    (s.contains('/') || s.contains('-')) && digit_count(s) >= 4
}

/// The data type that a cell text suggests: `number`, `date` or `text`.
pub open spec fn data_type_of(value: Seq<char>) -> Seq<char> {
    let v = trimmed(value);
    if v.len() == 0 {
        "text"@
    } else if is_real_literal(v) || is_grouped_number(v) {
        "number"@
    } else if is_date_like(v) {
        "date"@
    } else {
        "text"@
    }
}

fn digit(c: char) -> (b: bool)
    ensures
        b == is_digit(c),
{
    '0' <= c && c <= '9'
}

fn sign(c: char) -> (b: bool)
    ensures
        b == is_sign(c),
{
    c == '+' || c == '-'
}

fn lower(c: char) -> (r: char)
    ensures
        r == ascii_lower(c),
{
    if 'A' <= c && c <= 'Z' {
        ((c as u8) + 32) as char
    } else {
        c
    }
}

/// Counts the digits that follow one another from `at` on.
fn count_digits(v: &Vec<char>, at: usize) -> (n: usize)
    requires
        at <= v.len(),
    ensures
        n == digits_from(v@, at as int),
        at + n <= v.len(),
{
    let mut i: usize = at;
    while i < v.len() && digit(v[i])
        invariant
            at <= i <= v.len(),
            digits_from(v@, at as int) == (i - at) + digits_from(v@, i as int),
        decreases v.len() - i,
    {
        i += 1;
    }
    i - at
}

/// Whether `v` from `at` on is one of the three special words.
fn special_from(v: &Vec<char>, at: usize) -> (b: bool)
    requires
        at <= v.len(),
    ensures
        b == is_special_from(v@, at as int),
{
    let n = v.len() - at;
    if n == 3 {
        let a = lower(v[at]);
        let b = lower(v[at + 1]);
        let c = lower(v[at + 2]);
        let inf = a == 'i' && b == 'n' && c == 'f';
        let nan = a == 'n' && b == 'a' && c == 'n';
        proof {
            let w1 = seq!['i', 'n', 'f'];
            let w3 = seq!['n', 'a', 'n'];
            assert(is_word_from(v@, at as int, w1) == inf) by {
                if is_word_from(v@, at as int, w1) {
                    assert(ascii_lower(v@[at + 0]) == w1[0]);
                    assert(ascii_lower(v@[at + 1]) == w1[1]);
                    assert(ascii_lower(v@[at + 2]) == w1[2]);
                }
            }
            assert(is_word_from(v@, at as int, w3) == nan) by {
                if is_word_from(v@, at as int, w3) {
                    assert(ascii_lower(v@[at + 0]) == w3[0]);
                    assert(ascii_lower(v@[at + 1]) == w3[1]);
                    assert(ascii_lower(v@[at + 2]) == w3[2]);
                }
            }
        }
        inf || nan
    } else if n == 8 {
        let r = lower(v[at]) == 'i' && lower(v[at + 1]) == 'n' && lower(v[at + 2]) == 'f' && lower(
            v[at + 3],
        ) == 'i' && lower(v[at + 4]) == 'n' && lower(v[at + 5]) == 'i' && lower(v[at + 6]) == 't'
            && lower(v[at + 7]) == 'y';
        proof {
            let w = seq!['i', 'n', 'f', 'i', 'n', 'i', 't', 'y'];
            assert(is_word_from(v@, at as int, w) == r) by {
                if is_word_from(v@, at as int, w) {
                    assert(ascii_lower(v@[at + 0]) == w[0]);
                    assert(ascii_lower(v@[at + 1]) == w[1]);
                    assert(ascii_lower(v@[at + 2]) == w[2]);
                    assert(ascii_lower(v@[at + 3]) == w[3]);
                    assert(ascii_lower(v@[at + 4]) == w[4]);
                    assert(ascii_lower(v@[at + 5]) == w[5]);
                    assert(ascii_lower(v@[at + 6]) == w[6]);
                    assert(ascii_lower(v@[at + 7]) == w[7]);
                }
            }
        }
        r
    } else {
        false
    }
}

/// Whether `v` from `at` on is an exponent.
fn exponent_from(v: &Vec<char>, at: usize) -> (b: bool)
    requires
        at <= v.len(),
    ensures
        b == is_exponent_from(v@, at as int),
{
    let n = v.len();
    if n - at < 2 {
        return false;
    }
    if !(v[at] == 'e' || v[at] == 'E') {
        return false;
    }
    let from: usize = if sign(v[at + 1]) {
        at + 2
    } else {
        at + 1
    };
    if from >= n {
        return false;
    }
    count_digits(v, from) == n - from
}

/// Whether `v` from `at` on is a decimal number.
fn decimal_from(v: &Vec<char>, at: usize) -> (b: bool)
    requires
        at <= v.len(),
    ensures
        b == is_decimal_from(v@, at as int),
{
    let n = v.len();
    let whole = count_digits(v, at);
    let point = at + whole < n && v[at + whole] == '.';
    let fraction: usize = if point {
        count_digits(v, at + whole + 1)
    } else {
        0
    };
    let end: usize = if point {
        at + whole + 1 + fraction
    } else {
        at + whole
    };
    if whole == 0 && fraction == 0 {
        return false;
    }
    end == n || exponent_from(v, end)
}

/// Whether a text is written as a real number.
pub fn parses_as_real(v: &Vec<char>) -> (b: bool)
    ensures
        b == is_real_literal(v@),
{
    let at: usize = if v.len() > 0 && sign(v[0]) {
        1
    } else {
        0
    };
    special_from(v, at) || decimal_from(v, at)
}

/// Whether a text has a point and otherwise only numeric characters, points
/// and commas.
fn grouped_number(v: &Vec<char>) -> (b: bool)
    ensures
        b == is_grouped_number(v@),
{
    if !chars_have(v, '.') {
        return false;
    }
    let mut i: usize = 0;
    while i < v.len()
        invariant
            i <= v.len(),
            forall|k: int|
                0 <= k < i ==> (#[trigger] v@[k]) == ',' || v@[k] == '.' || char_is_numeric(v@[k]),
        decreases v.len() - i,
    {
        let c = v[i];
        if !(c == ',' || c == '.' || is_numeric(c)) {
            return false;
        }
        i += 1;
    }
    true
}

/// Counts the decimal digits of a text.
fn count_all_digits(v: &Vec<char>) -> (n: usize)
    ensures
        n == digit_count(v@),
{
    let mut n: usize = 0;
    let mut i: usize = 0;
    while i < v.len()
        invariant
            i <= v.len(),
            n <= i,
            n == digit_count(v@.subrange(0, i as int)),
        decreases v.len() - i,
    {
        assert(v@.subrange(0, i + 1).drop_last() =~= v@.subrange(0, i as int));
        if digit(v[i]) {
            n += 1;
        }
        i += 1;
    }
    assert(v@.subrange(0, v.len() as int) =~= v@);
    n
}

/// Infers the data type of a column from the text of its first data cell:
/// `number` where the trimmed text is written as a real number, or has a
/// point and otherwise only numeric characters, points and commas; `date`
/// where it has a slash or hyphen and at least four digits; `text` otherwise
/// and for a blank cell.
pub fn detect_data_type(value: &str) -> (r: String)
    ensures
        r@ == data_type_of(value@),
{
    let chars = str_chars(value);
    let v = trim_chars(&chars);
    if v.len() == 0 {
        return "text".to_owned();
    }
    if parses_as_real(&v) {
        return "number".to_owned();
    }
    if grouped_number(&v) {
        return "number".to_owned();
    }
    if (chars_have(&v, '/') || chars_have(&v, '-')) && count_all_digits(&v) >= 4 {
        return "date".to_owned();
    }
    "text".to_owned()
}

} // verus!
