use remap_lang::conversion::{parse_bool, parse_i64, Conversion, ConversionError};
use remap_lang::text::{contains, i64_to_string, u64_to_string};
use remap_lang::value::Value;

#[test]
fn parse_i64_reads_what_the_standard_library_reads() {
    let cases = [
        "0",
        "7",
        "-7",
        "+7",
        "007",
        "-0",
        "9223372036854775807",
        "9223372036854775808",
        "-9223372036854775808",
        "-9223372036854775809",
        "00000000000000000000000000009223372036854775807",
        "99999999999999999999999999",
        "",
        "-",
        "+",
        "--1",
        "+-1",
        "1 ",
        " 1",
        "1_000",
        "12a",
        "a12",
        "١٢",
        "1.0",
    ];
    for text in cases {
        assert_eq!(parse_i64(text), text.parse::<i64>().ok(), "{:?}", text);
    }
}

#[test]
fn parse_i64_reads_the_bounds() {
    assert_eq!(parse_i64("9223372036854775807"), Some(i64::MAX));
    assert_eq!(parse_i64("-9223372036854775808"), Some(i64::MIN));
    assert_eq!(parse_i64("9223372036854775808"), None);
}

#[test]
fn parse_bool_reads_words_and_numbers() {
    for text in ["true", "t", "yes", "y", "TRUE", "Yes", "T", "1", "-3", "+2"] {
        assert_eq!(parse_bool(text), Some(true), "{:?}", text);
    }
    for text in ["false", "f", "no", "n", "FALSE", "No", "N", "0", "-0", "000"] {
        assert_eq!(parse_bool(text), Some(false), "{:?}", text);
    }
    for text in ["", "maybe", "tru", "yess", "1.5", "on", "Tr\u{0075}\u{0301}e", "\u{0054}\u{0052}ue "] {
        assert_eq!(parse_bool(text), None, "{:?}", text);
    }
}

#[test]
fn parse_bool_takes_capitals_only_for_their_own_letters() {
    // '4' and 'T' differ from 't' by 0x40 and 0x20: only the capital counts
    assert_eq!(parse_bool("True"), Some(true));
    assert_eq!(parse_bool("4rue"), None);
    assert_eq!(parse_bool("\u{14}rue"), None);
    assert_eq!(parse_bool("Y"), Some(true));
    assert_eq!(parse_bool("NO"), Some(false));
    assert_eq!(parse_bool("N0"), None);
}

#[test]
fn conversion_names() {
    assert_eq!(Conversion::parse("asis"), Ok(Conversion::Bytes));
    assert_eq!(Conversion::parse("bytes"), Ok(Conversion::Bytes));
    assert_eq!(Conversion::parse("string"), Ok(Conversion::Bytes));
    assert_eq!(Conversion::parse("int"), Ok(Conversion::Integer));
    assert_eq!(Conversion::parse("integer"), Ok(Conversion::Integer));
    assert_eq!(Conversion::parse("bool"), Ok(Conversion::Boolean));
    assert_eq!(Conversion::parse("boolean"), Ok(Conversion::Boolean));
    assert_eq!(Conversion::parse("Integer"), Err(ConversionError::UnknownConversion));
    assert_eq!(Conversion::parse(""), Err(ConversionError::UnknownConversion));
    assert_eq!(Conversion::parse("float"), Err(ConversionError::UnknownConversion));
}

#[test]
fn conversion_results_and_errors() {
    assert_eq!(
        Conversion::Bytes.convert("héllo"),
        Ok(Value::Bytes("héllo".as_bytes().to_vec()))
    );
    assert_eq!(Conversion::Integer.convert("-42"), Ok(Value::Integer(-42)));
    assert_eq!(
        Conversion::Integer.convert("4 2"),
        Err(ConversionError::InvalidInteger)
    );
    assert_eq!(Conversion::Boolean.convert("no"), Ok(Value::Boolean(false)));
    assert_eq!(
        Conversion::Boolean.convert("perhaps"),
        Err(ConversionError::InvalidBoolean)
    );
}

#[test]
fn decimal_numerals() {
    for n in [0u64, 1, 9, 10, 11, 99, 100, 101, 1234567890, u64::MAX] {
        assert_eq!(u64_to_string(n), n.to_string());
    }
    for n in [0i64, 1, -1, 10, -10, 42, -1234, i64::MAX, i64::MIN, i64::MIN + 1] {
        assert_eq!(i64_to_string(n), n.to_string());
    }
    assert_eq!(u64_to_string(18446744073709551615), "18446744073709551615");
    assert_eq!(i64_to_string(i64::MIN), "-9223372036854775808");
}

#[test]
fn contains_finds_what_the_standard_library_finds() {
    let cases = [
        ("", ""),
        ("abc", ""),
        ("", "a"),
        ("abc", "abc"),
        ("abc", "abcd"),
        ("abc", "bc"),
        ("abc", "c"),
        ("abc", "ac"),
        ("aab", "ab"),
        ("i am important", "important"),
        ("nananana", "na"),
        ("héllo", "é"),
    ];
    for (text, needle) in cases {
        assert_eq!(contains(text, needle), text.contains(needle), "{:?}", (text, needle));
    }
}
