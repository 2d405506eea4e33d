//! What a scalar is: null, a boolean, an integer, a floating-point number or
//! a string, by its tag where it has one and by its text where it has none.

use vstd::prelude::*;
use crate::error::{Error, ErrorKind, Expected, Unexpected};
use crate::event::{ScalarStyle, Token};
use crate::number::{
    float_in_ascii, int_in_ascii, int_of, is_float, lemma_float_is_ascii, lemma_int_is_ascii,
    parse_int, parses_as_float, DIGIT_0, LOWER_O, LOWER_X, PLUS,
};
use crate::text::{ascii_bytes, chars_of, str_eq};

verus! {

/// The kind of a scalar, with its value where that is a boolean or an
/// integer. Of a float and of a string the value is the scalar's text.
#[derive(Clone, Copy, Debug, PartialEq, Eq)]
pub enum Scalar {
    Null,
    Bool(bool),
    Int(i64),
    Float,
    Str,
}

/// The two ways to write null.
pub open spec fn is_null_text(s: Seq<char>) -> bool {
    s == "~"@ || s == "null"@
}

/// `s` begins with `prefix`.
pub open spec fn starts_with(s: Seq<char>, prefix: Seq<char>) -> bool {
    prefix.len() <= s.len() && s.take(prefix.len() as int) == prefix
}

/// What an untagged plain scalar with the text `s` is. The rules are tried in
/// this order and the first that fits decides: null; a boolean; an integer
/// in base 16 after `0x`; one in base 8 after `0o`; one in base 10 after `+`;
/// one in base 10; a float; else a string.
pub open spec fn inferred(s: Seq<char>) -> Scalar {
    if is_null_text(s) {
        Scalar::Null
    } else if s == "true"@ {
        Scalar::Bool(true)
    } else if s == "false"@ {
        Scalar::Bool(false)
    } else if starts_with(s, "0x"@) && int_of(s.skip(2), 16) is Some {
        Scalar::Int(int_of(s.skip(2), 16)->0)
    } else if starts_with(s, "0o"@) && int_of(s.skip(2), 8) is Some {
        Scalar::Int(int_of(s.skip(2), 8)->0)
    } else if starts_with(s, "+"@) && int_of(s.skip(1), 10) is Some {
        Scalar::Int(int_of(s.skip(1), 10)->0)
    } else if int_of(s, 10) is Some {
        Scalar::Int(int_of(s, 10)->0)
    } else if is_float(s) {
        Scalar::Float
    } else {
        Scalar::Str
    }
}

/// The failure of a scalar whose text is not what its tag names.
pub open spec fn mismatch(text: String, expected: Expected) -> Error {
    Error::of(ErrorKind::InvalidValue(Unexpected::Str(text), expected))
}

/// The failure of a scalar whose text is not what its tag names.
pub fn refuse(text: &String, expected: Expected) -> (e: Error)
    ensures
        e == mismatch(*text, expected),
{
    Error::new(ErrorKind::InvalidValue(Unexpected::Str(text.clone()), expected))
}

/// What a plain scalar is whose tag has the handle `!!` and the given suffix:
/// exactly what the suffix names, or a failure that names it. A suffix other
/// than `bool`, `int`, `float` and `null` makes it a string.
pub open spec fn tagged(text: String, suffix: Seq<char>) -> Result<Scalar, Error> {
    if suffix == "bool"@ {
        if text@ == "true"@ {
            Ok(Scalar::Bool(true))
        } else if text@ == "false"@ {
            Ok(Scalar::Bool(false))
        } else {
            Err(mismatch(text, Expected::Boolean))
        }
    } else if suffix == "int"@ {
        match int_of(text@, 10) {
            Some(n) => Ok(Scalar::Int(n)),
            None => Err(mismatch(text, Expected::Integer)),
        }
    } else if suffix == "float"@ {
        if is_float(text@) {
            Ok(Scalar::Float)
        } else {
            Err(mismatch(text, Expected::Float))
        }
    } else if suffix == "null"@ {
        if is_null_text(text@) {
            Ok(Scalar::Null)
        } else {
            Err(mismatch(text, Expected::Null))
        }
    } else {
        Ok(Scalar::Str)
    }
}

/// What a scalar is. One that is not plain is a string. A plain one with a
/// tag is what `tagged` says if the handle is `!!`, else a string. A plain one
/// without a tag is what its text looks like.
pub open spec fn resolved(text: String, style: ScalarStyle, tag: Option<Token>) -> Result<
    Scalar,
    Error,
> {
    if style != ScalarStyle::Plain {
        Ok(Scalar::Str)
    } else {
        match tag {
            Some(Token::Tag(handle, suffix)) => if handle@ == "!!"@ {
                tagged(text, suffix@)
            } else {
                Ok(Scalar::Str)
            },
            _ => Ok(inferred(text@)),
        }
    }
}

/// A text begins with a prefix when it is as long and has the same characters
/// in the same places.
pub proof fn lemma_starts_with(s: Seq<char>, prefix: Seq<char>)
    ensures
        starts_with(s, prefix) <==> (prefix.len() <= s.len() && forall|i: int|
            0 <= i < prefix.len() ==> s[i] == prefix[i]),
{
    if prefix.len() <= s.len() {
        let head = s.take(prefix.len() as int);
        if head == prefix {
            assert forall|i: int| 0 <= i < prefix.len() implies s[i] == prefix[i] by {
                assert(head[i] == s[i]);
            }
        }
        if forall|i: int| 0 <= i < prefix.len() ==> s[i] == prefix[i] {
            assert(head =~= prefix);
        }
    }
}

/// A text that writes an integer behind an ASCII prefix is ASCII
/// throughout.
pub proof fn lemma_number_is_ascii(s: Seq<char>, prefix: Seq<char>, radix: int)
    requires
        vstd::utf8::is_ascii_chars(prefix),
    ensures
        starts_with(s, prefix) && int_of(s.skip(prefix.len() as int), radix) is Some
            ==> vstd::utf8::is_ascii_chars(s),
{
    let k = prefix.len() as int;
    if starts_with(s, prefix) && int_of(s.skip(k), radix) is Some {
        lemma_int_is_ascii(s.skip(k), radix);
        assert forall|i: int| 0 <= i < s.len() implies '\0' <= #[trigger] s[i] <= '\u{7f}' by {
            if i >= k {
                assert(s.skip(k)[i - k] == s[i]);
            } else {
                assert(s.take(k)[i] == s[i]);
                assert(prefix[i] == s[i]);
            }
        }
    }
}

/// Whether the bytes begin with the two given ones.
fn begins_with(bytes: &[u8], first: u8, second: u8) -> (r: bool)
    ensures
        r == (bytes@.len() >= 2 && bytes@[0] == first && bytes@[1] == second),
{
    bytes.len() >= 2 && bytes[0] == first && bytes[1] == second
}

/// What an untagged plain scalar with the text `v` is.
pub fn visit_untagged_str(v: &str) -> (r: Scalar)
    ensures
        r == inferred(v@),
{
    if str_eq(v, "~") || str_eq(v, "null") {
        return Scalar::Null;
    }
    if str_eq(v, "true") {
        return Scalar::Bool(true);
    }
    if str_eq(v, "false") {
        return Scalar::Bool(false);
    }
    proof {
        reveal_strlit("0x");
        reveal_strlit("0o");
        reveal_strlit("+");
        lemma_starts_with(v@, "0x"@);
        lemma_starts_with(v@, "0o"@);
        lemma_starts_with(v@, "+"@);
    }
    match ascii_bytes(v) {
        None => {
            proof {
                lemma_number_is_ascii(v@, "0x"@, 16);
                lemma_number_is_ascii(v@, "0o"@, 8);
                lemma_number_is_ascii(v@, "+"@, 10);
                if int_of(v@, 10) is Some {
                    lemma_int_is_ascii(v@, 10);
                }
                if is_float(v@) {
                    lemma_float_is_ascii(v@);
                }
            }
            Scalar::Str
        },
        Some(bytes) => {
            assert(v@.skip(0) =~= v@);
            if begins_with(bytes, DIGIT_0, LOWER_X) {
                if let Some(n) = int_in_ascii(bytes, 2, 16) {
                    return Scalar::Int(n);
                }
            }
            if begins_with(bytes, DIGIT_0, LOWER_O) {
                if let Some(n) = int_in_ascii(bytes, 2, 8) {
                    return Scalar::Int(n);
                }
            }
            if bytes.len() >= 1 && bytes[0] == PLUS {
                if let Some(n) = int_in_ascii(bytes, 1, 10) {
                    return Scalar::Int(n);
                }
            }
            if let Some(n) = int_in_ascii(bytes, 0, 10) {
                return Scalar::Int(n);
            }
            if float_in_ascii(bytes) {
                return Scalar::Float;
            }
            Scalar::Str
        },
    }
}

/// What a plain scalar with the text `text` is whose tag has the handle `!!`
/// and the suffix `suffix`.
pub fn visit_tagged_str(text: &String, suffix: &str) -> (r: Result<Scalar, Error>)
    ensures
        r == tagged(*text, suffix@),
{
    let v = text.as_str();
    if str_eq(suffix, "bool") {
        if str_eq(v, "true") {
            Ok(Scalar::Bool(true))
        } else if str_eq(v, "false") {
            Ok(Scalar::Bool(false))
        } else {
            Err(refuse(text, Expected::Boolean))
        }
    } else if str_eq(suffix, "int") {
        match parse_int(v, 10) {
            Some(n) => Ok(Scalar::Int(n)),
            None => Err(refuse(text, Expected::Integer)),
        }
    } else if str_eq(suffix, "float") {
        if parses_as_float(v) {
            Ok(Scalar::Float)
        } else {
            Err(refuse(text, Expected::Float))
        }
    } else if str_eq(suffix, "null") {
        if str_eq(v, "~") || str_eq(v, "null") {
            Ok(Scalar::Null)
        } else {
            Err(refuse(text, Expected::Null))
        }
    } else {
        Ok(Scalar::Str)
    }
}

/// What the scalar with the given text, style and token is.
pub fn resolve(text: &String, style: ScalarStyle, tag: &Option<Token>) -> (r: Result<Scalar, Error>)
    ensures
        r == resolved(*text, style, *tag),
{
    match style {
        ScalarStyle::Plain => match tag {
            Some(Token::Tag(handle, suffix)) => {
                if str_eq(handle.as_str(), "!!") {
                    visit_tagged_str(text, suffix.as_str())
                } else {
                    Ok(Scalar::Str)
                }
            },
            _ => Ok(visit_untagged_str(text.as_str())),
        },
        _ => Ok(Scalar::Str),
    }
}

} // verus!
