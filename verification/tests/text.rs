use routekit::text::{chars_of, eq_ignore_case, format_decimal, parse_bounded, same_text};

#[test]
fn chars_of_keeps_order() {
    assert_eq!(chars_of("a/é"), vec!['a', '/', 'é']);
    assert_eq!(chars_of(""), Vec::<char>::new());
}

#[test]
fn same_text_compares_characters() {
    assert!(same_text("todos", "todos"));
    assert!(!same_text("todos", "Todos"));
    assert!(!same_text("todos", "todo"));
    assert!(same_text("", ""));
}

#[test]
fn parse_bounded_reads_decimal_numbers() {
    assert_eq!(parse_bounded("0", u64::MAX), Some(0));
    assert_eq!(parse_bounded("007", u64::MAX), Some(7));
    assert_eq!(parse_bounded("+42", u64::MAX), Some(42));
    assert_eq!(parse_bounded("18446744073709551615", u64::MAX), Some(u64::MAX));
}

#[test]
fn parse_bounded_rejects_what_is_no_number() {
    assert_eq!(parse_bounded("", u64::MAX), None);
    assert_eq!(parse_bounded("+", u64::MAX), None);
    assert_eq!(parse_bounded("-1", u64::MAX), None);
    assert_eq!(parse_bounded("++1", u64::MAX), None);
    assert_eq!(parse_bounded("1a", u64::MAX), None);
    assert_eq!(parse_bounded(" 1", u64::MAX), None);
    assert_eq!(parse_bounded("١", u64::MAX), None);
}

#[test]
fn parse_bounded_respects_the_bound() {
    assert_eq!(parse_bounded("5", 5), Some(5));
    assert_eq!(parse_bounded("6", 5), None);
    assert_eq!(parse_bounded("65535", 0xffff), Some(65535));
    assert_eq!(parse_bounded("65536", 0xffff), None);
    assert_eq!(parse_bounded("18446744073709551616", u64::MAX), None);
    assert_eq!(parse_bounded("99999999999999999999999", u64::MAX), None);
}

#[test]
fn parse_bounded_agrees_with_std() {
    for s in ["0", "12", "+3", "", "+", "-0", "1_000", "0x10", "18446744073709551615", "18446744073709551616"] {
        assert_eq!(parse_bounded(s, u64::MAX), s.parse::<u64>().ok(), "{:?}", s);
        assert_eq!(parse_bounded(s, 0xffff), s.parse::<u16>().ok().map(u64::from), "{:?}", s);
    }
}

#[test]
fn format_decimal_writes_digits() {
    assert_eq!(format_decimal(0), "0");
    assert_eq!(format_decimal(9), "9");
    assert_eq!(format_decimal(10), "10");
    assert_eq!(format_decimal(1234567890), "1234567890");
    assert_eq!(format_decimal(u64::MAX), "18446744073709551615");
}

#[test]
fn decimal_round_trip() {
    for n in [0u64, 1, 9, 10, 99, 100, 65535, 4294967296, u64::MAX] {
        assert_eq!(parse_bounded(&format_decimal(n), u64::MAX), Some(n));
    }
}

#[test]
fn eq_ignore_case_folds_ascii_letters_only() {
    assert!(eq_ignore_case("Authorization", "authorization"));
    assert!(eq_ignore_case("DIV-BY", "div-by"));
    assert!(!eq_ignore_case("div-by", "div_by"));
    assert!(!eq_ignore_case("a", "ab"));
    assert!(!eq_ignore_case("É", "é"));
    assert!(!eq_ignore_case("@", "`"));
    assert!(!eq_ignore_case("[", "{"));
}
