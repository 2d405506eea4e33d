use serde_yaml::number::{parse_int, parses_as_float};
use serde_yaml::text::{str_eq, to_decimal};

const TEXTS: [&str; 86] = [
    "", "0", "1", "9", "10", "123", "-123", "+123", "+", "-", "--1", "++1", "+-1", "-+1", "007",
    "-0", "+0", "9223372036854775807", "9223372036854775808", "-9223372036854775808",
    "-9223372036854775809", "18446744073709551616", "99999999999999999999999999", "1_000", " 1",
    "1 ", "1a", "a1", "ff", "FF", "7f", "zz", "ZZ", "1A", "17", "18", "8", "0x10", "0o10", "١٢٣",
    "é", "1é", "12é3", "1.", ".1", ".", "1.5", "-1.5", "+1.5", "1e5", "1E5", "1e+5", "1e-5", "1e",
    "1e+", "e5", ".e5", "1.e5", ".5e5", "1.5e10", "1.5e1.0", "1..5", "1.5.", "inf", "-inf", "+inf",
    "INF", "Infinity", "infinity", "-Infinity", "infinit", "infinityy", "nan", "NaN", "NAN", "-nan",
    "+NaN", "na", "nann", ".inf", ".nan", "0x1p3", "1f", "1d", "١.٥", "İnf",
];

#[test]
fn integers_as_std_reads_them() {
    for text in TEXTS.iter() {
        for radix in [2u32, 8, 10, 16, 36] {
            assert_eq!(
                parse_int(text, radix),
                i64::from_str_radix(text, radix).ok(),
                "{:?} in base {}",
                text,
                radix
            );
        }
    }
}

#[test]
fn floats_as_std_reads_them() {
    for text in TEXTS.iter() {
        assert_eq!(parses_as_float(text), text.parse::<f64>().is_ok(), "{:?}", text);
    }
}

#[test]
fn integer_values() {
    assert_eq!(parse_int("123", 10), Some(123));
    assert_eq!(parse_int("1A", 16), Some(26));
    assert_eq!(parse_int("1a", 16), Some(26));
    assert_eq!(parse_int("17", 8), Some(15));
    assert_eq!(parse_int("18", 8), None);
    assert_eq!(parse_int("-9223372036854775808", 10), Some(i64::MIN));
    assert_eq!(parse_int("9223372036854775807", 10), Some(i64::MAX));
    assert_eq!(parse_int("9223372036854775808", 10), None);
    assert_eq!(parse_int("-8000000000000000", 16), Some(i64::MIN));
    assert_eq!(parse_int("7fffffffffffffff", 16), Some(i64::MAX));
    assert_eq!(parse_int("8000000000000000", 16), None);
    assert_eq!(parse_int("", 10), None);
    assert_eq!(parse_int("+", 10), None);
    assert_eq!(parse_int("-", 10), None);
    assert_eq!(parse_int("zz", 36), Some(35 * 36 + 35));
}

#[test]
fn long_runs_of_digits() {
    let zeros = "0".repeat(100_000);
    assert_eq!(parse_int(&zeros, 10), Some(0));
    let ones = "1".repeat(100_000);
    assert_eq!(parse_int(&ones, 10), None);
    assert!(parses_as_float(&ones));
    let padded = format!("{}42", zeros);
    assert_eq!(parse_int(&padded, 10), Some(42));
}

#[test]
fn equal_texts() {
    assert!(str_eq("", ""));
    assert!(str_eq("null", "null"));
    assert!(!str_eq("null", "nul"));
    assert!(!str_eq("null", "nulL"));
    assert!(str_eq("é~", "é~"));
    assert!(!str_eq("é", "e"));
}

#[test]
fn decimal_texts() {
    assert_eq!(to_decimal(0), "0");
    assert_eq!(to_decimal(7), "7");
    assert_eq!(to_decimal(10), "10");
    assert_eq!(to_decimal(1234567890), "1234567890");
    assert_eq!(to_decimal(usize::MAX), usize::MAX.to_string());
}

fn texts_over(alphabet: &[char], longest: usize) -> Vec<String> {
    let mut all = vec![String::new()];
    let mut last = vec![String::new()];
    for _ in 0..longest {
        let mut next = Vec::new();
        for text in last.iter() {
            for c in alphabet.iter() {
                let mut longer = text.clone();
                longer.push(*c);
                next.push(longer);
            }
        }
        all.extend(next.iter().cloned());
        last = next;
    }
    all
}

#[test]
fn every_short_text_as_a_float() {
    let alphabet = ['0', '1', '9', '+', '-', '.', 'e', 'E', 'i', 'n', 'f', 'a', 'N', '_', ' ', 'é'];
    let texts = texts_over(&alphabet, 4);
    assert_eq!(texts.len(), 1 + 16 + 256 + 4096 + 65536);
    for text in texts.iter() {
        assert_eq!(parses_as_float(text), text.parse::<f64>().is_ok(), "{:?}", text);
    }
}

#[test]
fn every_short_text_as_an_integer() {
    let alphabet = ['0', '1', '7', '8', '9', '+', '-', 'a', 'F', 'g', 'z', 'Z', '_', ' ', 'é'];
    let texts = texts_over(&alphabet, 4);
    for text in texts.iter() {
        for radix in [2u32, 8, 10, 16, 17, 36] {
            assert_eq!(
                parse_int(text, radix),
                i64::from_str_radix(text, radix).ok(),
                "{:?} in base {}",
                text,
                radix
            );
        }
    }
}

#[test]
fn every_short_text_as_a_scalar() {
    let alphabet = ['0', '1', 'x', 'o', '+', '-', '.', 'e', 'f', '~'];
    for text in texts_over(&alphabet, 4).iter() {
        let expected = if text == "~" {
            serde_yaml::scalar::Scalar::Null
        } else if text.starts_with("0x") && i64::from_str_radix(&text[2..], 16).is_ok() {
            serde_yaml::scalar::Scalar::Int(i64::from_str_radix(&text[2..], 16).unwrap())
        } else if text.starts_with("0o") && i64::from_str_radix(&text[2..], 8).is_ok() {
            serde_yaml::scalar::Scalar::Int(i64::from_str_radix(&text[2..], 8).unwrap())
        } else if text.starts_with('+') && text[1..].parse::<i64>().is_ok() {
            serde_yaml::scalar::Scalar::Int(text[1..].parse().unwrap())
        } else if let Ok(n) = text.parse::<i64>() {
            serde_yaml::scalar::Scalar::Int(n)
        } else if text.parse::<f64>().is_ok() {
            serde_yaml::scalar::Scalar::Float
        } else {
            serde_yaml::scalar::Scalar::Str
        };
        assert_eq!(serde_yaml::scalar::visit_untagged_str(text), expected, "{:?}", text);
    }
}
