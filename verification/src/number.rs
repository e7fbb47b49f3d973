//! Numbers as text: which texts are decimal integers and which are decimal
//! fractions, what value an integer text has, and how an integer is written.

use vstd::prelude::*;
use vstd::string::StringExecFns;
use crate::text::chars_of;

verus! {

pub open spec fn is_digit(c: char) -> bool {
    '0' <= c <= '9'
}

pub open spec fn is_sign(c: char) -> bool {
    c == '+' || c == '-'
}

/// The value of a digit.
pub open spec fn digit_value(c: char) -> nat {
    (c as u32 - '0' as u32) as nat
}

/// The digit of a value below ten.
pub open spec fn digit_char(value: nat) -> char {
    if value == 0 {
        '0'
    } else if value == 1 {
        '1'
    } else if value == 2 {
        '2'
    } else if value == 3 {
        '3'
    } else if value == 4 {
        '4'
    } else if value == 5 {
        '5'
    } else if value == 6 {
        '6'
    } else if value == 7 {
        '7'
    } else if value == 8 {
        '8'
    } else {
        '9'
    }
}

pub open spec fn all_digits(text: Seq<char>) -> bool {
    forall|i: int| 0 <= i < text.len() ==> is_digit(#[trigger] text[i])
}

/// The number that a sequence of digits writes in base ten.
pub open spec fn digits_value(text: Seq<char>) -> nat
    decreases text.len(),
{
    if text.len() == 0 {
        0
    } else {
        digits_value(text.drop_last()) * 10 + digit_value(text.last())
    }
}

/// The digits of a decimal integer: the text without its sign.
pub open spec fn unsigned_part(text: Seq<char>) -> Seq<char> {
    if text.len() > 0 && is_sign(text[0]) {
        text.skip(1)
    } else {
        text
    }
}

/// A decimal integer: an optional `+` or `-`, then one or more digits and
/// nothing else.
pub open spec fn is_decimal(text: Seq<char>) -> bool {
    unsigned_part(text).len() > 0 && all_digits(unsigned_part(text))
}

/// The value of a decimal integer.
pub open spec fn decimal_value(text: Seq<char>) -> int {
    if text.len() > 0 && text[0] == '-' {
        -(digits_value(unsigned_part(text)) as int)
    } else {
        digits_value(unsigned_part(text)) as int
    }
}

/// The value of a text read as a decimal integer between two bounds, or
/// nothing where the text is no decimal integer or its value is out of them.
pub open spec fn integer_between(text: Seq<char>, low: int, high: int) -> Option<int> {
    if is_decimal(text) && low <= decimal_value(text) <= high {
        Some(decimal_value(text))
    } else {
        None
    }
}

/// `str::parse::<i64>`: the text is read as an optional sign followed by
/// decimal digits only; anything else, and a value that does not fit, is an
/// error.
#[verifier::external_body]
pub(crate) fn parse_i64(text: &str) -> (parsed: Option<i64>)
    ensures
        match parsed {
            Some(value) => integer_between(text@, i64::MIN as int, i64::MAX as int) == Some(
                value as int,
            ),
            None => integer_between(text@, i64::MIN as int, i64::MAX as int) is None,
        },
{
    text.parse::<i64>().ok()
}

/// `str::parse::<i32>`: as for `i64`, with the bounds of `i32`.
#[verifier::external_body]
pub(crate) fn parse_i32(text: &str) -> (parsed: Option<i32>)
    ensures
        match parsed {
            Some(value) => integer_between(text@, i32::MIN as int, i32::MAX as int) == Some(
                value as int,
            ),
            None => integer_between(text@, i32::MIN as int, i32::MAX as int) is None,
        },
{
    text.parse::<i32>().ok()
}

/// The digits that write a number in base ten, without leading zeros.
pub open spec fn digits_of(value: nat) -> Seq<char>
    decreases value,
{
    if value < 10 {
        seq![digit_char(value)]
    } else {
        digits_of(value / 10).push(digit_char(value % 10))
    }
}

/// How an integer is written in base ten: a `-` where it is negative, then
/// its digits.
pub open spec fn decimal_text(value: int) -> Seq<char> {
    if value < 0 {
        seq!['-'] + digits_of((-value) as nat)
    } else {
        digits_of(value as nat)
    }
}

fn digit_text(value: u8) -> (text: &'static str)
    requires
        value < 10,
    ensures
        text@ == seq![digit_char(value as nat)],
{
    proof {
        reveal_strlit("0");
        reveal_strlit("1");
        reveal_strlit("2");
        reveal_strlit("3");
        reveal_strlit("4");
        reveal_strlit("5");
        reveal_strlit("6");
        reveal_strlit("7");
        reveal_strlit("8");
        reveal_strlit("9");
    }
    let text = if value == 0 {
        "0"
    } else if value == 1 {
        "1"
    } else if value == 2 {
        "2"
    } else if value == 3 {
        "3"
    } else if value == 4 {
        "4"
    } else if value == 5 {
        "5"
    } else if value == 6 {
        "6"
    } else if value == 7 {
        "7"
    } else if value == 8 {
        "8"
    } else {
        "9"
    };
    assert(text@ =~= seq![digit_char(value as nat)]);
    text
}

fn push_digits(text: &mut String, value: u128)
    ensures
        final(text)@ == old(text)@ + digits_of(value as nat),
    decreases value,
{
    if value < 10 {
        text.append(digit_text(value as u8));
    } else {
        push_digits(text, value / 10);
        text.append(digit_text((value % 10) as u8));
        assert(old(text)@ + digits_of(value as nat) =~= (old(text)@ + digits_of(
            (value / 10) as nat,
        )) + seq![digit_char((value % 10) as nat)]);
    }
}

/// Writes an integer in base ten.
pub fn integer_text(value: i128) -> (text: String)
    ensures
        text@ == decimal_text(value as int),
{
    let mut text = String::new();
    if value < 0 {
        proof {
            reveal_strlit("-");
        }
        text.append("-");
        assert(text@ =~= seq!['-']);
        let magnitude: u128 = if value == i128::MIN {
            0x8000_0000_0000_0000_0000_0000_0000_0000u128
        } else {
            (-value) as u128
        };
        push_digits(&mut text, magnitude);
    } else {
        push_digits(&mut text, value as u128);
        assert(Seq::<char>::empty() + digits_of(value as nat) =~= digits_of(value as nat));
    }
    text
}

/// The end of the longest run of digits that starts at `from`.
pub open spec fn digits_end(text: Seq<char>, from: int) -> int
    decreases text.len() - from,
{
    if 0 <= from < text.len() && is_digit(text[from]) {
        digits_end(text, from + 1)
    } else {
        from
    }
}

pub open spec fn lower(c: char) -> char {
    if 'A' <= c <= 'Z' {
        ((c as u32 + 32) as u8) as char
    } else {
        c
    }
}

/// Whether `text` is `word` where upper and lower case count as the same;
/// `word` is in lower case.
pub open spec fn is_word(text: Seq<char>, word: Seq<char>) -> bool {
    text.len() == word.len() && forall|i: int| 0 <= i < text.len() ==> lower(#[trigger] text[i])
        == word[i]
}

/// An unsigned decimal fraction: digits with at most one `.` among them and
/// at least one digit in all, then optionally an exponent, which is `e` or
/// `E`, an optional sign, and one or more digits.
pub open spec fn is_unsigned_fraction(text: Seq<char>) -> bool {
    let whole = digits_end(text, 0);
    let dotted = whole < text.len() && text[whole] == '.';
    let mantissa = if dotted {
        digits_end(text, whole + 1)
    } else {
        whole
    };
    let digits = if dotted {
        mantissa - 1
    } else {
        mantissa
    };
    &&& digits >= 1
    &&& mantissa == text.len() || {
        let start = if mantissa + 1 < text.len() && is_sign(text[mantissa + 1]) {
            mantissa + 2
        } else {
            mantissa + 1
        };
        &&& lower(text[mantissa]) == 'e'
        &&& digits_end(text, start) > start
        &&& digits_end(text, start) == text.len()
    }
}

/// A text that reads as a floating-point number: an optional sign, then
/// `inf`, `infinity` or `nan` in any case, or a decimal fraction.
pub open spec fn is_float_literal(text: Seq<char>) -> bool {
    let body = unsigned_part(text);
    is_word(body, seq!['i', 'n', 'f']) || is_word(
        body,
        seq!['i', 'n', 'f', 'i', 'n', 'i', 't', 'y'],
    ) || is_word(body, seq!['n', 'a', 'n']) || is_unsigned_fraction(body)
}

fn skip_digits(chars: &Vec<char>, from: usize, Ghost(base): Ghost<int>) -> (end: usize)
    requires
        0 <= base <= from <= chars@.len(),
    ensures
        from <= end <= chars@.len(),
        end - base == digits_end(chars@.skip(base), from - base),
    decreases chars@.len() - from,
{
    let ghost text = chars@.skip(base);
    if from < chars.len() {
        let c = chars[from];
        assert(text[from - base] == c);
        if c >= '0' && c <= '9' {
            return skip_digits(chars, from + 1, Ghost(base));
        }
    }
    from
}

fn lower_char(c: char) -> (r: char)
    ensures
        r == lower(c),
{
    if c >= 'A' && c <= 'Z' {
        ((c as u32 + 32) as u8) as char
    } else {
        c
    }
}

fn matches_word(chars: &Vec<char>, from: usize, word: &str) -> (r: bool)
    requires
        from <= chars@.len(),
    ensures
        r == is_word(chars@.skip(from as int), word@),
{
    let letters = chars_of(word);
    if chars.len() - from != letters.len() {
        return false;
    }
    let ghost text = chars@.skip(from as int);
    let mut i: usize = 0;
    while i < letters.len()
        invariant
            chars@.len() <= usize::MAX,
            letters@ == word@,
            from + letters@.len() == chars@.len(),
            text == chars@.skip(from as int),
            i <= letters@.len(),
            forall|j: int| 0 <= j < i ==> lower(#[trigger] text[j]) == letters@[j],
        decreases letters@.len() - i,
    {
        assert(text[i as int] == chars@[from + i]);
        if lower_char(chars[from + i]) != letters[i] {
            return false;
        }
        i += 1;
    }
    true
}

/// Whether a text reads as a floating-point number.
pub fn reads_as_float(text: &str) -> (r: bool)
    ensures
        r == is_float_literal(text@),
{
    let chars = chars_of(text);
    let first: usize = if chars.len() > 0 && (chars[0] == '+' || chars[0] == '-') {
        1
    } else {
        0
    };
    let ghost body = unsigned_part(text@);
    assert(body == chars@.skip(first as int));
    proof {
        reveal_strlit("inf");
        reveal_strlit("infinity");
        reveal_strlit("nan");
        assert("inf"@ =~= seq!['i', 'n', 'f']);
        assert("infinity"@ =~= seq!['i', 'n', 'f', 'i', 'n', 'i', 't', 'y']);
        assert("nan"@ =~= seq!['n', 'a', 'n']);
    }
    if matches_word(&chars, first, "inf") || matches_word(&chars, first, "infinity")
        || matches_word(&chars, first, "nan") {
        return true;
    }
    let n = chars.len();
    let whole = skip_digits(&chars, first, Ghost(first as int));
    let dotted = whole < n && chars[whole] == '.';
    let mantissa = if dotted {
        skip_digits(&chars, whole + 1, Ghost(first as int))
    } else {
        whole
    };
    let digits = if dotted {
        mantissa - first - 1
    } else {
        mantissa - first
    };
    assert(dotted == (whole - first < body.len() && body[whole - first] == '.'));
    if digits < 1 {
        return false;
    }
    if mantissa == n {
        return true;
    }
    assert(body[mantissa - first] == chars@[mantissa as int]);
    if lower_char(chars[mantissa]) != 'e' {
        return false;
    }
    let start = if mantissa + 1 < n && (chars[mantissa + 1] == '+' || chars[mantissa + 1] == '-') {
        mantissa + 2
    } else {
        mantissa + 1
    };
    assert(mantissa + 1 < n ==> body[mantissa + 1 - first] == chars@[mantissa + 1]);
    let end = skip_digits(&chars, start, Ghost(first as int));
    end > start && end == n
}

} // verus!
