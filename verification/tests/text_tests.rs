use todo_server::json::push_json_string;
use todo_server::text::{i64_text, parse_i64, u64_text};

#[test]
fn i64_text_writes_decimal() {
    assert_eq!(i64_text(0), "0");
    assert_eq!(i64_text(42), "42");
    assert_eq!(i64_text(-7), "-7");
    assert_eq!(i64_text(1700000000), "1700000000");
    assert_eq!(i64_text(i64::MAX), "9223372036854775807");
    assert_eq!(i64_text(i64::MIN), "-9223372036854775808");
}

#[test]
fn i64_text_agrees_with_to_string() {
    for n in [0i64, 1, 9, 10, 99, 100, -1, -10, 123456789, -987654321, i64::MAX, i64::MIN] {
        assert_eq!(i64_text(n), n.to_string());
    }
}

#[test]
fn u64_text_writes_decimal() {
    assert_eq!(u64_text(0), "0");
    assert_eq!(u64_text(1000000000000), "1000000000000");
    assert_eq!(u64_text(u64::MAX), "18446744073709551615");
}

#[test]
fn parse_i64_reads_signed_decimals() {
    assert_eq!(parse_i64("123"), Some(123));
    assert_eq!(parse_i64("+5"), Some(5));
    assert_eq!(parse_i64("-0"), Some(0));
    assert_eq!(parse_i64("-42"), Some(-42));
    assert_eq!(parse_i64("007"), Some(7));
    assert_eq!(parse_i64("9223372036854775807"), Some(i64::MAX));
    assert_eq!(parse_i64("-9223372036854775808"), Some(i64::MIN));
}

#[test]
fn parse_i64_refuses_what_str_parse_refuses() {
    for s in ["", "-", "+", "12a", " 1", "1 ", "--1", "+-1", "9223372036854775808",
              "-9223372036854775809", "99999999999999999999999", "1.5", "٣"] {
        assert_eq!(parse_i64(s), None, "input {:?}", s);
        assert!(s.parse::<i64>().is_err());
    }
}

#[test]
fn parse_i64_agrees_with_str_parse() {
    for s in ["0", "+0", "-1", "18446744073709551616", "-00012", "4294967296", "1e3"] {
        assert_eq!(parse_i64(s), s.parse::<i64>().ok(), "input {:?}", s);
    }
}

#[test]
fn decimal_text_reads_back() {
    for n in [0i64, 5, -5, 1700000000, -1700000000, i64::MAX, i64::MIN, 10, -10] {
        assert_eq!(parse_i64(&i64_text(n)), Some(n));
    }
}

#[test]
fn json_string_escapes_like_serde_json() {
    for s in ["plain", "quote\"d", "back\\slash", "line\nbreak", "tab\tand\rcr",
              "\u{8}\u{c}", "\u{1}\u{1f}", "\u{7f}", "中文 ✓", ""] {
        let mut out = String::new();
        push_json_string(&mut out, s);
        assert_eq!(out, serde_json::to_string(s).unwrap(), "input {:?}", s);
    }
}

#[test]
fn json_string_exact_escapes() {
    let mut out = String::from("x=");
    push_json_string(&mut out, "a\"b\\c\n\u{1}");
    assert_eq!(out, "x=\"a\\\"b\\\\c\\n\\u0001\"");
}

#[test]
fn json_string_reads_back() {
    for s in ["a\"b", "\\\\", "\u{0}\u{1f}\n", "x\u{7f}y", "引号\"", ""] {
        let mut out = String::new();
        push_json_string(&mut out, s);
        let back: String = serde_json::from_str(&out).unwrap();
        assert_eq!(back, s);
    }
}
