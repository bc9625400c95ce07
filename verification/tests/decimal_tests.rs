use reaction_jail::decimal::{i64_text, parse_u64, u64_text};

#[test]
fn u64_text_matches_to_string() {
    for n in [0u64, 7, 10, 99, 100, 1272597370902679604, u64::MAX] {
        assert_eq!(u64_text(n), n.to_string());
    }
}

#[test]
fn i64_text_matches_to_string() {
    for n in [0i64, -1, 42, -42, i64::MIN, i64::MAX, -1000] {
        assert_eq!(i64_text(n), n.to_string());
    }
}

#[test]
fn parse_u64_reads_plain_digits() {
    assert_eq!(parse_u64("0"), Some(0));
    assert_eq!(parse_u64("1277372356590829589"), Some(1277372356590829589));
    assert_eq!(parse_u64("007"), Some(7));
    assert_eq!(parse_u64("18446744073709551615"), Some(u64::MAX));
}

#[test]
fn parse_u64_allows_one_plus() {
    assert_eq!(parse_u64("+5"), Some(5));
    assert_eq!(parse_u64("++5"), None);
    assert_eq!(parse_u64("+"), None);
}

#[test]
fn parse_u64_refuses_what_std_refuses() {
    for s in ["", "-1", "-0", " 1", "1 ", "1a", "18446744073709551616", "99999999999999999999", "١"] {
        assert_eq!(parse_u64(s), s.parse::<u64>().ok(), "input {:?}", s);
        assert_eq!(parse_u64(s), None);
    }
}

#[test]
fn parse_reads_back_printed_numbers() {
    for n in [0u64, 1, 9, 10, 12345, u64::MAX - 1, u64::MAX] {
        assert_eq!(parse_u64(&u64_text(n)), Some(n));
    }
}
