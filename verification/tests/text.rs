use mtnc::text::{
    concat2, concat3, concat4, i64_without_underscores, same_text, show_i64, show_u64, show_usize,
    u64_or_zero,
};
use mtnc::token::{Delim, Keyword, Op, TokenKind};
use mtnc::types::names::{first_of, last_of, Names};
use mtnc::types::Ty;

#[test]
fn joining() {
    assert_eq!(concat2("a", "b"), "ab");
    assert_eq!(concat3("a", "", "c"), "ac");
    assert_eq!(concat4("w", "x", "y", "z"), "wxyz");
    assert!(same_text("é", "é"));
    assert!(!same_text("a", "A"));
}

#[test]
fn numbers_or_zero() {
    let cases = [
        ("0", 0),
        ("42", 42),
        ("007", 7),
        ("+7", 7),
        ("18446744073709551615", u64::MAX),
        ("18446744073709551616", 0),
        ("99999999999999999999999", 0),
        ("", 0),
        ("+", 0),
        ("-1", 0),
        ("1_000", 0),
        ("12x", 0),
    ];
    for (text, n) in cases {
        assert_eq!(u64_or_zero(text), n, "{}", text);
    }
}

#[test]
fn signed_numbers() {
    let cases = [
        ("0", Some(0)),
        ("1_000", Some(1000)),
        ("_4_2_", Some(42)),
        ("+5", Some(5)),
        ("-5", Some(-5)),
        ("9223372036854775807", Some(i64::MAX)),
        ("9223372036854775808", None),
        ("-9223372036854775808", Some(i64::MIN)),
        ("-9223372036854775809", None),
        ("", None),
        ("_", None),
        ("-", None),
        ("+-1", None),
        ("0x10", None),
    ];
    for (text, n) in cases {
        assert_eq!(i64_without_underscores(text), n, "{}", text);
    }
}

#[test]
fn numbers_in_decimal() {
    assert_eq!(show_u64(0), "0");
    assert_eq!(show_u64(9876543210), "9876543210");
    assert_eq!(show_u64(u64::MAX), "18446744073709551615");
    assert_eq!(show_usize(10), "10");
    assert_eq!(show_i64(-1), "-1");
    assert_eq!(show_i64(100), "100");
    assert_eq!(show_i64(i64::MIN), "-9223372036854775808");
}

#[test]
fn numbers_read_back() {
    for n in [0, 1, 9, 10, 99, 100, 12345, i64::MAX] {
        assert_eq!(i64_without_underscores(&show_i64(n)), Some(n));
        assert_eq!(i64_without_underscores(&show_i64(-n)), Some(-n));
        assert_eq!(u64_or_zero(&show_u64(n as u64)), n as u64);
    }
}

#[test]
fn words_as_they_are_written() {
    assert_eq!(Keyword::Fn.as_source_text(), "fn");
    assert_eq!(Keyword::SelfType.as_source_text(), "Self");
    assert_eq!(Keyword::SelfValue.as_source_text(), "self");
    assert_eq!(Keyword::Fn.variant_name(), "Fn");
    assert_eq!(Op::ColonColon.as_source_text(), "::");
    assert_eq!(Op::DotDotEq.as_source_text(), "..=");
    assert_eq!(Delim::LBrace.as_source_text(), "{");
    assert_eq!(Delim::Semi.variant_name(), "Semi");
}

#[test]
fn tokens_in_messages() {
    let cases = [
        (TokenKind::Ident("a\"b\n".to_string()), "Ident(\"a\\\"b\\n\")"),
        (TokenKind::Int("12".to_string()), "Int(\"12\")"),
        (TokenKind::Bool(true), "Bool(true)"),
        (TokenKind::Keyword(Keyword::Fn), "Keyword(Fn)"),
        (TokenKind::Op(Op::Plus), "Op(Plus)"),
        (TokenKind::Delim(Delim::RBrace), "Delim(RBrace)"),
        (TokenKind::Null, "Null"),
        (TokenKind::Eof, "Eof"),
    ];
    for (kind, text) in cases {
        assert_eq!(kind.show(), text);
        assert_eq!(kind.show(), format!("{:?}", kind));
    }
    assert_eq!(TokenKind::Str("x".to_string()).show_as("<x>"), "Str(<x>)");
    assert_eq!(TokenKind::Eof.show_as("unused"), "Eof");
}

#[test]
fn names_keep_their_places() {
    let mut names: Names<Ty> = Names::new();
    assert_eq!(names.len(), 0);
    names.insert("a".to_string(), Ty::I8);
    names.insert("b".to_string(), Ty::I16);
    names.insert("a".to_string(), Ty::I32);
    assert_eq!(names.len(), 2);
    assert_eq!(names.get("a"), Some(&Ty::I32));
    assert_eq!(names.get("b"), Some(&Ty::I16));
    assert_eq!(names.get("c"), None);
    assert!(names.contains_key("b"));
    assert!(!names.contains_key("c"));
    assert_eq!(names.at(0), (&"a".to_string(), &Ty::I32));
    assert_eq!(names.at(1), (&"b".to_string(), &Ty::I16));
}

#[test]
fn first_and_last_entries() {
    let list = vec![
        ("a".to_string(), Ty::I8),
        ("b".to_string(), Ty::Bool),
        ("a".to_string(), Ty::I16),
    ];
    assert_eq!(first_of(&list, "a"), Some(&Ty::I8));
    assert_eq!(last_of(&list, "a"), Some(&Ty::I16));
    assert_eq!(first_of(&list, "c"), None);
    assert_eq!(last_of(&list, "c"), None);
}
