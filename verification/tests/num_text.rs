use livid::num::{check_float_literal, i64_string, parse_i64, push_decimal};
use livid::text::{char_run, push_padded, push_padded_end, split_line, trim_ws};

#[test]
fn parse_plain_integers() {
    assert_eq!(parse_i64("0"), Some(0));
    assert_eq!(parse_i64("42"), Some(42));
    assert_eq!(parse_i64("007"), Some(7));
    assert_eq!(parse_i64("+7"), Some(7));
    assert_eq!(parse_i64("-13"), Some(-13));
}

#[test]
fn parse_integer_bounds() {
    assert_eq!(parse_i64("9223372036854775807"), Some(i64::MAX));
    assert_eq!(parse_i64("-9223372036854775808"), Some(i64::MIN));
    assert_eq!(parse_i64("9223372036854775808"), None);
    assert_eq!(parse_i64("-9223372036854775809"), None);
    assert_eq!(parse_i64("99999999999999999999999999"), None);
}

#[test]
fn parse_integer_rejects_malformed() {
    assert_eq!(parse_i64(""), None);
    assert_eq!(parse_i64("+"), None);
    assert_eq!(parse_i64("-"), None);
    assert_eq!(parse_i64("12a"), None);
    assert_eq!(parse_i64("a12"), None);
    assert_eq!(parse_i64(" 1"), None);
    assert_eq!(parse_i64("1 "), None);
    assert_eq!(parse_i64("1.5"), None);
    assert_eq!(parse_i64("--1"), None);
    assert_eq!(parse_i64("+-1"), None);
}

#[test]
fn parse_matches_platform_parser() {
    // the contract mirrors what the platform integer parser accepts
    for s in [
        "0", "42", "007", "+7", "-13", "", "+", "-", "12a", " 1", "1 ", "1.5",
        "9223372036854775807", "9223372036854775808", "-9223372036854775808",
        "-9223372036854775809",
    ] {
        assert_eq!(parse_i64(s), s.parse::<i64>().ok(), "on {:?}", s);
    }
}

#[test]
fn float_literal_accepts() {
    for s in [
        "0", "2.5", "-2.5", "+2.5", ".5", "1.", "1e5", "1E5", "1e+5", "1e-5", "1.5e-3", ".5e1",
        "inf", "-inf", "Infinity", "NaN", "nan", "INF",
    ] {
        assert!(check_float_literal(s), "expected accepted: {:?}", s);
    }
}

#[test]
fn float_literal_rejects() {
    for s in [
        "", "+", "-", ".", "e5", "1e", "1e+", "1.2.3", "2,5", " 2.5", "2.5 ", "0x1", "infx",
        "nanny", "--1",
    ] {
        assert!(!check_float_literal(s), "expected rejected: {:?}", s);
    }
}

#[test]
fn float_literal_matches_platform_parser() {
    // the grammar mirrors what the platform float parser accepts
    for s in [
        "0", "2.5", "-2.5", ".5", "1.", "1e5", "1e+5", "1.5e-3", "inf", "Infinity", "NaN", "",
        "+", ".", "e5", "1e", "1.2.3", " 2.5", "0x1", "infx", "1_000", "1.e5", "+.5", "-.5e2",
        "infinity", "iNfInItY", "nAn", "+inf", ".e5", "1e5.2", "5.", "00.00", "1e05", "-0",
    ] {
        assert_eq!(check_float_literal(s), s.parse::<f64>().is_ok(), "on {:?}", s);
    }
}

#[test]
fn decimal_rendering() {
    assert_eq!(i64_string(0), "0");
    assert_eq!(i64_string(7), "7");
    assert_eq!(i64_string(-7), "-7");
    assert_eq!(i64_string(1234567890), "1234567890");
    assert_eq!(i64_string(i64::MAX), "9223372036854775807");
    assert_eq!(i64_string(i64::MIN), "-9223372036854775808");
}

#[test]
fn decimal_push_appends() {
    let mut s = String::from("n=");
    push_decimal(&mut s, 305);
    assert_eq!(s, "n=305");
}

#[test]
fn trimming() {
    assert_eq!(trim_ws("  a b \n"), "a b");
    assert_eq!(trim_ws("a,b,c\n"), "a,b,c");
    assert_eq!(trim_ws(""), "");
    assert_eq!(trim_ws(" \t\r\n"), "");
    assert_eq!(trim_ws("x"), "x");
    assert_eq!(trim_ws("\u{a0}x\u{3000}"), "x");
}

#[test]
fn splitting() {
    assert_eq!(split_line("a,b,c", ','), vec!["a", "b", "c"]);
    assert_eq!(split_line("", ','), vec![""]);
    assert_eq!(split_line(",", ','), vec!["", ""]);
    assert_eq!(split_line("a,,c", ','), vec!["a", "", "c"]);
    assert_eq!(split_line("a;b", ','), vec!["a;b"]);
    assert_eq!(split_line("a;b", ';'), vec!["a", "b"]);
    assert_eq!(split_line("1,x,2.5", ','), vec!["1", "x", "2.5"]);
}

#[test]
fn padding() {
    let mut s = String::new();
    push_padded(&mut s, "ab", 5);
    assert_eq!(s, "   ab");
    let mut s2 = String::new();
    push_padded(&mut s2, "abcdef", 3);
    assert_eq!(s2, "abcdef");
    let mut s3 = String::new();
    push_padded_end(&mut s3, "ab", 5);
    assert_eq!(s3, "ab   ");
    assert_eq!(char_run('-', 4), "----");
    assert_eq!(char_run('x', 0), "");
}
