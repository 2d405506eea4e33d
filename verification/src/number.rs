//! The grammar of number literals: integers in a base from 2 to 36, and
//! decimal floating-point literals. These are the texts that Rust's standard
//! library reads as an `i64` in a given base, and as a 64-bit float.

use vstd::prelude::*;
use crate::text::{ascii_bytes, chars_of};

verus! {

pub const DIGIT_0: u8 = 0x30;

pub const DIGIT_9: u8 = 0x39;

pub const UPPER_A: u8 = 0x41;

pub const UPPER_Z: u8 = 0x5a;

pub const LOWER_A: u8 = 0x61;

pub const LOWER_Z: u8 = 0x7a;

pub const PLUS: u8 = 0x2b;

pub const MINUS: u8 = 0x2d;

pub const POINT: u8 = 0x2e;

pub const UPPER_E: u8 = 0x45;

pub const LOWER_E: u8 = 0x65;

pub const LOWER_O: u8 = 0x6f;

pub const LOWER_X: u8 = 0x78;

/// The value of `c` as a digit in base `radix`: `0`-`9`, then the letters in
/// either case from ten on. `None` where `c` is no digit of that base.
pub open spec fn digit_of(c: char, radix: int) -> Option<int> {
    let v: int = if '0' <= c <= '9' {
        c as int - '0' as int
    } else if 'a' <= c <= 'z' {
        c as int - 'a' as int + 10
    } else if 'A' <= c <= 'Z' {
        c as int - 'A' as int + 10
    } else {
        radix
    };
    if v < radix {
        Some(v)
    } else {
        None
    }
}

/// Every character of `s` is a digit in base `radix`.
pub open spec fn all_digits(s: Seq<char>, radix: int) -> bool {
    forall|i: int| 0 <= i < s.len() ==> (#[trigger] digit_of(s[i], radix)) is Some
}

/// The number that the digits `s` write in base `radix`, the first digit
/// weighing most.
pub open spec fn magnitude(s: Seq<char>, radix: int) -> int
    decreases s.len(),
{
    if s.len() == 0 {
        0
    } else {
        let d = match digit_of(s.last(), radix) {
            Some(v) => v,
            None => 0,
        };
        magnitude(s.drop_last(), radix) * radix + d
    }
}

/// `s` begins with `+` or `-`.
pub open spec fn has_sign(s: Seq<char>) -> bool {
    s.len() > 0 && (s[0] == '+' || s[0] == '-')
}

/// `s` without its sign, if it has one.
pub open spec fn unsigned_part(s: Seq<char>) -> Seq<char> {
    if has_sign(s) {
        s.skip(1)
    } else {
        s
    }
}

/// The integer that `s` writes in base `radix`: an optional sign, then one or
/// more digits of that base and nothing else, with a value that an `i64`
/// holds. `None` for any other text.
pub open spec fn int_of(s: Seq<char>, radix: int) -> Option<i64> {
    let digits = unsigned_part(s);
    let m = magnitude(digits, radix);
    let v = if has_sign(s) && s[0] == '-' {
        -m
    } else {
        m
    };
    if digits.len() > 0 && all_digits(digits, radix) && i64::MIN <= v <= i64::MAX {
        Some(v as i64)
    } else {
        None
    }
}

/// Appending a digit multiplies by the base and adds the digit.
pub proof fn lemma_magnitude_push(s: Seq<char>, c: char, radix: int)
    ensures
        magnitude(s.push(c), radix) == magnitude(s, radix) * radix + match digit_of(c, radix) {
            Some(v) => v,
            None => 0,
        },
{
    assert(s.push(c).drop_last() =~= s);
    assert(s.push(c).last() == c);
}

/// Digits never write a negative number, and a longer text of digits writes
/// no smaller number than its beginning does.
pub proof fn lemma_magnitude_grows(s: Seq<char>, n: int, radix: int)
    requires
        radix >= 1,
        0 <= n <= s.len(),
    ensures
        0 <= magnitude(s.take(n), radix) <= magnitude(s, radix),
    decreases s.len() - n,
{
    if n == 0 {
        assert(s.take(0).len() == 0);
        lemma_magnitude_nonnegative(s, radix);
    } else {
        lemma_magnitude_nonnegative(s.take(n), radix);
        if n < s.len() {
            lemma_magnitude_grows(s, n + 1, radix);
            assert(s.take(n + 1).drop_last() =~= s.take(n));
            let m = magnitude(s.take(n), radix);
            assert(m * radix >= m) by (nonlinear_arith)
                requires
                    m >= 0,
                    radix >= 1,
            ;
        } else {
            assert(s.take(n) =~= s);
        }
    }
}

/// Digits never write a negative number.
pub proof fn lemma_magnitude_nonnegative(s: Seq<char>, radix: int)
    requires
        radix >= 1,
    ensures
        0 <= magnitude(s, radix),
    decreases s.len(),
{
    if s.len() > 0 {
        lemma_magnitude_nonnegative(s.drop_last(), radix);
        let m = magnitude(s.drop_last(), radix);
        assert(m * radix >= 0) by (nonlinear_arith)
            requires
                m >= 0,
                radix >= 1,
        ;
    }
}

/// A text that writes an integer is ASCII throughout.
pub proof fn lemma_int_is_ascii(s: Seq<char>, radix: int)
    requires
        int_of(s, radix) is Some,
    ensures
        vstd::utf8::is_ascii_chars(s),
{
    let digits = unsigned_part(s);
    assert forall|i: int| 0 <= i < s.len() implies '\0' <= #[trigger] s[i] <= '\u{7f}' by {
        if has_sign(s) {
            if i > 0 {
                assert(digits[i - 1] == s[i]);
                assert(digit_of(digits[i - 1], radix) is Some);
            }
        } else {
            assert(digit_of(digits[i], radix) is Some);
        }
    }
}

/// The value of the byte `b` as a digit in base `radix`.
fn digit_value(b: u8, radix: u32) -> (r: Option<u32>)
    requires
        2 <= radix <= 36,
    ensures
        match r {
            Some(v) => digit_of(b as char, radix as int) == Some(v as int),
            None => digit_of(b as char, radix as int) is None,
        },
{
    let v: u32 = if DIGIT_0 <= b && b <= DIGIT_9 {
        (b - DIGIT_0) as u32
    } else if LOWER_A <= b && b <= LOWER_Z {
        (b - LOWER_A) as u32 + 10
    } else if UPPER_A <= b && b <= UPPER_Z {
        (b - UPPER_A) as u32 + 10
    } else {
        radix
    };
    if v < radix {
        Some(v)
    } else {
        None
    }
}

/// The integer that the bytes from `from` on write in base `radix`.
pub fn int_in_ascii(bytes: &[u8], from: usize, radix: u32) -> (r: Option<i64>)
    requires
        from <= bytes@.len(),
        2 <= radix <= 36,
    ensures
        r == int_of(chars_of(bytes@).skip(from as int), radix as int),
{
    let ghost s = chars_of(bytes@).skip(from as int);
    let ghost digits = unsigned_part(s);
    let len = bytes.len();
    if from == len {
        return None;
    }
    let first = bytes[from];
    assert(s[0] == first as char);
    let negative = first == MINUS;
    let start: usize = if first == PLUS || first == MINUS {
        from + 1
    } else {
        from
    };
    assert(digits =~= chars_of(bytes@).skip(start as int));
    if start == len {
        return None;
    }
    let mut acc: u128 = 0;
    let mut i: usize = start;
    while i < len
        invariant
            start <= i <= len,
            len == bytes@.len(),
            2 <= radix <= 36,
            s == chars_of(bytes@).skip(from as int),
            digits == unsigned_part(s),
            digits == chars_of(bytes@).skip(start as int),
            negative == (has_sign(s) && s[0] == '-'),
            all_digits(digits.take(i - start), radix as int),
            acc == magnitude(digits.take(i - start), radix as int),
            acc <= 0x8000_0000_0000_0000,
        decreases len - i,
    {
        let ghost c = digits[i - start];
        assert(c == bytes@[i as int] as char);
        proof {
            assert(digits.take(i - start + 1) =~= digits.take(i - start).push(c));
            lemma_magnitude_push(digits.take(i - start), c, radix as int);
        }
        match digit_value(bytes[i], radix) {
            None => {
                assert(!all_digits(digits, radix as int));
                return None;
            },
            Some(d) => {
                assert(acc * radix + d <= 0x8000_0000_0000_0000 * 36 + 35) by (nonlinear_arith)
                    requires
                        acc <= 0x8000_0000_0000_0000,
                        radix <= 36,
                        d < 36,
                ;
                acc = acc * (radix as u128) + (d as u128);
                if acc > 0x8000_0000_0000_0000 {
                    proof {
                        if all_digits(digits, radix as int) {
                            lemma_magnitude_grows(digits, i - start + 1, radix as int);
                        }
                    }
                    return None;
                }
            },
        }
        i = i + 1;
    }
    assert(digits.take(i - start) =~= digits);
    if negative {
        if acc == 0x8000_0000_0000_0000 {
            Some(i64::MIN)
        } else {
            Some(-(acc as i64))
        }
    } else if acc == 0x8000_0000_0000_0000 {
        None
    } else {
        Some(acc as i64)
    }
}

/// The integer that `text` writes in base `radix`.
pub fn parse_int(text: &str, radix: u32) -> (r: Option<i64>)
    requires
        2 <= radix <= 36,
    ensures
        r == int_of(text@, radix as int),
{
    match ascii_bytes(text) {
        Some(bytes) => {
            assert(chars_of(bytes@).skip(0) =~= text@);
            int_in_ascii(bytes, 0, radix)
        },
        None => {
            proof {
                if int_of(text@, radix as int) is Some {
                    lemma_int_is_ascii(text@, radix as int);
                }
            }
            None
        },
    }
}

/// `c` is one of the ten decimal digits.
pub open spec fn is_decimal(c: char) -> bool {
    '0' <= c <= '9'
}

/// Where the run of decimal digits that begins at `from` ends: the place of
/// the first character at or after `from` that is no decimal digit, or the
/// length of `s`.
pub open spec fn digits_end(s: Seq<char>, from: int) -> int
    decreases s.len() - from,
{
    if 0 <= from < s.len() && is_decimal(s[from]) {
        digits_end(s, from + 1)
    } else {
        from
    }
}

/// `c` with an ASCII capital letter made small.
pub open spec fn lower(c: char) -> char {
    if 'A' <= c <= 'Z' {
        ((c as u8 + 32) as u8) as char
    } else {
        c
    }
}

/// `s` is `word`, capital and small ASCII letters of `s` taken alike.
pub open spec fn is_word(s: Seq<char>, word: Seq<char>) -> bool {
    &&& s.len() == word.len()
    &&& forall|i: int| 0 <= i < s.len() ==> lower(#[trigger] s[i]) == word[i]
}

/// `s` names an infinity or a not-a-number, in any mix of cases.
pub open spec fn is_special(s: Seq<char>) -> bool {
    is_word(s, "inf"@) || is_word(s, "infinity"@) || is_word(s, "nan"@)
}

/// From `at` to its end `s` is an exponent: `e` or `E`, an optional sign, one
/// or more decimal digits.
pub open spec fn is_exponent_at(s: Seq<char>, at: int) -> bool {
    let digits = if at + 1 < s.len() && (s[at + 1] == '+' || s[at + 1] == '-') {
        at + 2
    } else {
        at + 1
    };
    &&& 0 <= at < s.len()
    &&& (s[at] == 'e' || s[at] == 'E')
    &&& digits_end(s, digits) > digits
    &&& digits_end(s, digits) == s.len()
}

/// From `from` to its end `s` is a decimal number: digits, optionally a point
/// and more digits, with at least one digit before or after the point, then
/// optionally an exponent.
pub open spec fn is_number_from(s: Seq<char>, from: int) -> bool {
    let whole = digits_end(s, from);
    let mantissa = if whole < s.len() && s[whole] == '.' {
        digits_end(s, whole + 1)
    } else {
        whole
    };
    let count = if mantissa > whole {
        mantissa - 1 - from
    } else {
        whole - from
    };
    &&& count >= 1
    &&& (mantissa == s.len() || is_exponent_at(s, mantissa))
}

/// `s` is a floating-point literal: an optional sign, then the name of an
/// infinity or of a not-a-number, or a decimal number.
pub open spec fn is_float(s: Seq<char>) -> bool {
    if has_sign(s) {
        is_special(s.skip(1)) || is_number_from(s, 1)
    } else {
        is_special(s) || is_number_from(s, 0)
    }
}

/// A run of digits lies inside the text, holds decimal digits only, and stops
/// at the end or before a character that is none.
pub proof fn lemma_digits_end(s: Seq<char>, from: int)
    requires
        0 <= from <= s.len(),
    ensures
        from <= digits_end(s, from) <= s.len(),
        forall|i: int| from <= i < digits_end(s, from) ==> is_decimal(#[trigger] s[i]),
        digits_end(s, from) < s.len() ==> !is_decimal(s[digits_end(s, from)]),
    decreases s.len() - from,
{
    if from < s.len() && is_decimal(s[from]) {
        lemma_digits_end(s, from + 1);
    }
}

/// A run of digits ends where a run that starts inside it ends.
pub proof fn lemma_digits_end_within(s: Seq<char>, from: int, at: int)
    requires
        0 <= from <= at <= s.len(),
        forall|i: int| from <= i < at ==> is_decimal(#[trigger] s[i]),
    ensures
        digits_end(s, from) == digits_end(s, at),
    decreases at - from,
{
    if from < at {
        lemma_digits_end_within(s, from + 1, at);
    }
}

/// A floating-point literal is ASCII throughout.
pub proof fn lemma_float_is_ascii(s: Seq<char>)
    requires
        is_float(s),
    ensures
        vstd::utf8::is_ascii_chars(s),
{
    reveal_strlit("inf");
    reveal_strlit("infinity");
    reveal_strlit("nan");
    let from: int = if has_sign(s) {
        1
    } else {
        0
    };
    let body = s.skip(from);
    assert forall|i: int| 0 <= i < s.len() implies '\0' <= #[trigger] s[i] <= '\u{7f}' by {
        if i >= from {
            if is_special(body) {
                assert(body[i - from] == s[i]);
                let c = lower(body[i - from]);
                assert(c == "inf"@[i - from] || c == "infinity"@[i - from] || c == "nan"@[i
                    - from]);
            } else {
                let whole = digits_end(s, from);
                lemma_digits_end(s, from);
                if whole < s.len() && s[whole] == '.' {
                    lemma_digits_end(s, whole + 1);
                }
                let mantissa = if whole < s.len() && s[whole] == '.' {
                    digits_end(s, whole + 1)
                } else {
                    whole
                };
                if mantissa < s.len() {
                    let digits = if mantissa + 1 < s.len() && (s[mantissa + 1] == '+' || s[mantissa
                        + 1] == '-') {
                        mantissa + 2
                    } else {
                        mantissa + 1
                    };
                    lemma_digits_end(s, digits);
                }
            }
        }
    }
}

/// Where the run of decimal digits that begins at `from` ends.
fn digit_run(bytes: &[u8], from: usize) -> (end: usize)
    requires
        from <= bytes@.len(),
    ensures
        end == digits_end(chars_of(bytes@), from as int),
        from <= end <= bytes@.len(),
{
    let mut i: usize = from;
    while i < bytes.len() && DIGIT_0 <= bytes[i] && bytes[i] <= DIGIT_9
        invariant
            from <= i <= bytes@.len(),
            forall|j: int| from <= j < i ==> is_decimal(#[trigger] chars_of(bytes@)[j]),
        decreases bytes@.len() - i,
    {
        i = i + 1;
    }
    proof {
        lemma_digits_end_within(chars_of(bytes@), from as int, i as int);
    }
    i
}

/// Whether the bytes from `from` on are `word`, capital and small letters
/// taken alike.
fn word_in_ascii(bytes: &[u8], from: usize, word: &str) -> (r: bool)
    requires
        from <= bytes@.len(),
        vstd::utf8::is_ascii_chars(word@),
    ensures
        r == is_word(chars_of(bytes@).skip(from as int), word@),
{
    let ghost s = chars_of(bytes@).skip(from as int);
    match ascii_bytes(word) {
        None => false,
        Some(w) => {
            let len = bytes.len();
            if len - from != w.len() {
                return false;
            }
            let mut i: usize = 0;
            while i < w.len()
                invariant
                    i <= w@.len(),
                    len == bytes@.len(),
                    from <= bytes@.len(),
                    bytes@.len() - from == w@.len(),
                    s == chars_of(bytes@).skip(from as int),
                    chars_of(w@) == word@,
                    forall|j: int| 0 <= j < i ==> lower(#[trigger] s[j]) == word@[j],
                decreases w@.len() - i,
            {
                let b = bytes[from + i];
                let small: u8 = if UPPER_A <= b && b <= UPPER_Z {
                    b + 32
                } else {
                    b
                };
                assert(s[i as int] == b as char);
                assert(word@[i as int] == w@[i as int] as char);
                if small != w[i] {
                    assert(lower(s[i as int]) != word@[i as int]);
                    return false;
                }
                i = i + 1;
            }
            true
        },
    }
}

/// Whether the bytes, each taken as one character, are a floating-point
/// literal.
pub fn float_in_ascii(bytes: &[u8]) -> (r: bool)
    ensures
        r == is_float(chars_of(bytes@)),
{
    let ghost s = chars_of(bytes@);
    let len = bytes.len();
    let from: usize = if len > 0 && (bytes[0] == PLUS || bytes[0] == MINUS) {
        1
    } else {
        0
    };
    assert(has_sign(s) <==> from == 1);
    proof {
        reveal_strlit("inf");
        reveal_strlit("infinity");
        reveal_strlit("nan");
        assert(s.skip(0) =~= s);
    }
    if word_in_ascii(bytes, from, "inf") || word_in_ascii(bytes, from, "infinity") || word_in_ascii(
        bytes,
        from,
        "nan",
    ) {
        return true;
    }
    let whole = digit_run(bytes, from);
    let mantissa = if whole < len && bytes[whole] == POINT {
        digit_run(bytes, whole + 1)
    } else {
        whole
    };
    let count = if mantissa > whole {
        mantissa - 1 - from
    } else {
        whole - from
    };
    if count < 1 {
        return false;
    }
    if mantissa == len {
        return true;
    }
    if bytes[mantissa] != LOWER_E && bytes[mantissa] != UPPER_E {
        return false;
    }
    let digits = if mantissa + 1 < len && (bytes[mantissa + 1] == PLUS || bytes[mantissa + 1]
        == MINUS) {
        mantissa + 2
    } else {
        mantissa + 1
    };
    let end = digit_run(bytes, digits);
    end > digits && end == len
}

/// Whether `text` is a floating-point literal.
pub fn parses_as_float(text: &str) -> (r: bool)
    ensures
        r == is_float(text@),
{
    match ascii_bytes(text) {
        Some(bytes) => float_in_ascii(bytes),
        None => {
            proof {
                if is_float(text@) {
                    lemma_float_is_ascii(text@);
                }
            }
            false
        },
    }
}

} // verus!
