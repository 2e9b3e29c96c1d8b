use catalog::number::{parse_i64, NumberError};
use catalog::text::{char_count, contains_pattern, is_whitespace, str_equals, trim_str};

#[test]
fn whitespace_matches_std_for_every_char() {
    for code in 0u32..=0x10FFFF {
        if let Some(c) = char::from_u32(code) {
            assert_eq!(is_whitespace(c), c.is_whitespace(), "char U+{:04X}", code);
        }
    }
}

#[test]
fn trim_matches_std() {
    let samples = [
        "",
        " ",
        "   \t\n",
        "abc",
        "  abc",
        "abc  ",
        "  a b c  ",
        "\u{3000}مرحبا\u{a0}",
        "\u{2028}x\u{2029}",
        "\u{200b}zero width is not space\u{200b}",
        "\u{85}\u{1680}y\u{205f}",
    ];
    for s in samples {
        assert_eq!(trim_str(s), s.trim(), "input {:?}", s);
    }
}

#[test]
fn char_count_counts_characters_not_bytes() {
    assert_eq!(char_count("abc"), 3);
    assert_eq!(char_count("براند"), 5);
    assert_eq!(char_count(""), 0);
}

#[test]
fn str_equals_compares_text() {
    assert!(str_equals("created", "created"));
    assert!(!str_equals("created", "create"));
    assert!(!str_equals("a", "b"));
    assert!(str_equals("", ""));
}

#[test]
fn contains_pattern_wraps_in_percent_signs() {
    assert_eq!(contains_pattern("nike"), "%nike%");
    assert_eq!(contains_pattern(""), "%%");
}

#[test]
fn parse_matches_std_on_samples() {
    let samples = [
        "0",
        "7",
        "-7",
        "+7",
        "+",
        "-",
        "",
        "12a",
        "a12",
        " 12",
        "9223372036854775807",
        "9223372036854775808",
        "-9223372036854775808",
        "-9223372036854775809",
        "99999999999999999999x",
        "-99999999999999999999x",
        "00000000000000000000000042",
        "--1",
        "+-1",
        "١٢",
    ];
    for s in samples {
        let ours = parse_i64(s);
        let std = s.parse::<i64>();
        match (ours, std) {
            (Ok(a), Ok(b)) => assert_eq!(a, b, "input {:?}", s),
            (Err(e), Err(f)) => assert_eq!(e.message(), f.to_string(), "input {:?}", s),
            (a, b) => panic!("input {:?}: {:?} vs {:?}", s, a, b),
        }
    }
}

#[test]
fn parse_reports_each_error_kind() {
    assert_eq!(parse_i64(""), Err(NumberError::Empty));
    assert_eq!(parse_i64("x"), Err(NumberError::InvalidDigit));
    assert_eq!(parse_i64("9223372036854775808"), Err(NumberError::PosOverflow));
    assert_eq!(parse_i64("-9223372036854775809"), Err(NumberError::NegOverflow));
    assert_eq!(parse_i64("-9223372036854775808"), Ok(i64::MIN));
    assert_eq!(parse_i64("+42"), Ok(42));
}
