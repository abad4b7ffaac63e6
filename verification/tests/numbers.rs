use tigo_exporter::field::{get_field_value, FieldError, Number};
use tigo_exporter::number::numeric;
use tigo_exporter::text::{blank, white_space};

fn agrees_with_std(text: &str) -> bool {
    numeric(text) == text.parse::<f64>().is_ok()
}

#[test]
fn numeric_accepts_plain_numbers() {
    for text in ["0", "12", "12.1", "-60", "+7", "150.0", "1700000000", ".5", "5.", "-.5", "+5."] {
        assert!(numeric(text), "{}", text);
    }
}

#[test]
fn numeric_accepts_exponents() {
    for text in ["1e5", "1E5", "1e+5", "1e-5", "2.5e10", ".5e1", "5.e1", "-1.25E-3"] {
        assert!(numeric(text), "{}", text);
    }
}

#[test]
fn numeric_accepts_special_words_in_any_case() {
    for text in ["inf", "INF", "Inf", "infinity", "Infinity", "INFINITY", "nan", "NaN", "-inf", "+nan"] {
        assert!(numeric(text), "{}", text);
    }
}

#[test]
fn numeric_rejects_what_is_no_number() {
    for text in [
        "", "abc", ".", "+", "-", "e5", "1e", "1e+", "1.2.3", "1,5", " 1", "1 ", "--1", "+-1",
        "0x10", "1_000", "12.1V", "infinit", "nanx", "in", "1e5.0", "1ee5", "e", ".e1", "+.", "१२",
    ] {
        assert!(!numeric(text), "{}", text);
    }
}

#[test]
fn numeric_agrees_with_the_standard_parser() {
    for text in [
        "", "0", "-0", "12.1", "35.2", "-60", "150.0", "11.9", ".5", "5.", ".", "+", "-", "1e5",
        "1e", "1e+", "1E-7", "e5", "inf", "-inf", "+infinity", "nan", "NAN", "iNf", "InFiNiTy",
        "infinit", "nanx", " 1", "1 ", "1.2.3", "abc", "0x10", "1_000", "+.5e-3", "5.e+2", "1e5.0",
        "٣", "1\u{a0}", "--1", "00012", "1e00012", "9999999999999999999999999", "1e400",
    ] {
        assert!(agrees_with_std(text), "{:?}", text);
    }
}

#[test]
fn blank_holds_white_space_only() {
    assert!(blank(""));
    assert!(blank(" "));
    assert!(blank(" \t\r\n"));
    assert!(blank("\u{a0}\u{2003}\u{3000}"));
    assert!(!blank("0"));
    assert!(!blank(" 0 "));
    assert!(!blank("\u{200b}"));
}

#[test]
fn white_space_agrees_with_the_standard_library() {
    let mut code: u32 = 0;
    while code <= 0x3100 {
        if let Some(c) = char::from_u32(code) {
            assert_eq!(white_space(c), c.is_whitespace(), "{:x}", code);
        }
        code += 1;
    }
}

#[test]
fn number_keeps_the_text_it_was_given() {
    let n = Number::parse("12.1").unwrap();
    assert_eq!(n.as_str(), "12.1");
    assert_eq!(n.clone().as_str(), "12.1");
    assert_eq!(n.as_str().parse::<f64>().unwrap(), 12.1);
    assert!(Number::parse("12.1V").is_none());
    assert!(Number::parse("").is_none());
}

#[test]
fn an_empty_field_is_absent_not_zero() {
    assert!(matches!(get_field_value(Some("")), Ok(None)));
    assert!(matches!(get_field_value(Some("   ")), Ok(None)));
}

#[test]
fn a_numeric_field_is_present() {
    match get_field_value(Some("-60")) {
        Ok(Some(n)) => assert_eq!(n.as_str(), "-60"),
        _ => panic!("the field holds a number"),
    }
    match get_field_value(Some("0")) {
        Ok(Some(n)) => assert_eq!(n.as_str(), "0"),
        _ => panic!("zero is a value"),
    }
}

#[test]
fn a_field_that_is_no_number_is_an_error() {
    assert!(matches!(get_field_value(Some("abc")), Err(FieldError::NotNumeric)));
    assert!(matches!(get_field_value(Some(" 12.1")), Err(FieldError::NotNumeric)));
}

#[test]
fn a_missing_field_is_an_error() {
    assert!(matches!(get_field_value(None), Err(FieldError::Missing)));
}
