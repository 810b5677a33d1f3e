use legacy_ping::text::{parse_i16, parse_u16, split_char, IntParseError};

fn chars(s: &str) -> Vec<char> {
    s.chars().collect()
}

#[test]
fn parse_u16_values() {
    assert_eq!(parse_u16(&chars("0")), Ok(0));
    assert_eq!(parse_u16(&chars("20")), Ok(20));
    assert_eq!(parse_u16(&chars("127")), Ok(127));
    assert_eq!(parse_u16(&chars("65535")), Ok(65535));
    assert_eq!(parse_u16(&chars("+42")), Ok(42));
    assert_eq!(parse_u16(&chars("007")), Ok(7));
}

#[test]
fn parse_u16_errors() {
    assert_eq!(parse_u16(&chars("")), Err(IntParseError::Empty));
    assert_eq!(parse_u16(&chars("+")), Err(IntParseError::InvalidDigit));
    assert_eq!(parse_u16(&chars("-1")), Err(IntParseError::InvalidDigit));
    assert_eq!(parse_u16(&chars("1.8")), Err(IntParseError::InvalidDigit));
    assert_eq!(parse_u16(&chars("1a")), Err(IntParseError::InvalidDigit));
    assert_eq!(parse_u16(&chars("65536")), Err(IntParseError::PosOverflow));
    // overflow is noticed where it happens, before a later bad character
    assert_eq!(parse_u16(&chars("99999x")), Err(IntParseError::PosOverflow));
}

#[test]
fn parse_i16_values() {
    assert_eq!(parse_i16(&chars("0")), Ok(0));
    assert_eq!(parse_i16(&chars("127")), Ok(127));
    assert_eq!(parse_i16(&chars("-1")), Ok(-1));
    assert_eq!(parse_i16(&chars("+73")), Ok(73));
    assert_eq!(parse_i16(&chars("32767")), Ok(32767));
    assert_eq!(parse_i16(&chars("-32768")), Ok(-32768));
    assert_eq!(parse_i16(&chars("-0")), Ok(0));
}

#[test]
fn parse_i16_errors() {
    assert_eq!(parse_i16(&chars("")), Err(IntParseError::Empty));
    assert_eq!(parse_i16(&chars("-")), Err(IntParseError::InvalidDigit));
    assert_eq!(parse_i16(&chars("+")), Err(IntParseError::InvalidDigit));
    assert_eq!(parse_i16(&chars("12 ")), Err(IntParseError::InvalidDigit));
    assert_eq!(parse_i16(&chars("32768")), Err(IntParseError::PosOverflow));
    assert_eq!(parse_i16(&chars("-32769")), Err(IntParseError::NegOverflow));
}

#[test]
fn split_fields() {
    let f = split_char(&chars("a\u{0}bc\u{0}"), '\u{0}');
    let views: Vec<String> = f.iter().map(|v| v.iter().collect()).collect();
    assert_eq!(views, vec!["a".to_string(), "bc".to_string(), "".to_string()]);
}

#[test]
fn split_without_delimiter_is_one_field() {
    let f = split_char(&chars("abc"), '\u{0}');
    assert_eq!(f.len(), 1);
    let first: String = f[0].iter().collect();
    assert_eq!(first, "abc");
}

#[test]
fn split_empty_is_one_empty_field() {
    let f = split_char(&chars(""), '\u{a7}');
    assert_eq!(f.len(), 1);
    assert!(f[0].is_empty());
}

#[test]
fn split_only_delimiters() {
    let f = split_char(&chars("\u{a7}\u{a7}"), '\u{a7}');
    assert_eq!(f.len(), 3);
    assert!(f.iter().all(|v| v.is_empty()));
}
