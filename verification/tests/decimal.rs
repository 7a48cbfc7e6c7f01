use stream_operator::decimal::{decimal, parse_usize};

#[test]
fn decimal_matches_to_string() {
    for n in [0usize, 7, 9, 10, 99, 100, 305, 1234567890, usize::MAX] {
        assert_eq!(decimal(n), n.to_string());
    }
}

#[test]
fn parse_accepts_plain_and_plus_signed_digits() {
    assert_eq!(parse_usize("42"), Some(42));
    assert_eq!(parse_usize("+7"), Some(7));
    assert_eq!(parse_usize("007"), Some(7));
    assert_eq!(parse_usize("0"), Some(0));
    assert_eq!(parse_usize(&usize::MAX.to_string()), Some(usize::MAX));
}

#[test]
fn parse_rejects_everything_else() {
    for text in ["", "+", "-1", "-0", " 1", "1 ", "1_000", "++1", "1a", "٣", "18446744073709551616000"] {
        assert_eq!(parse_usize(text), None, "{:?}", text);
    }
}

#[test]
fn parse_agrees_with_std() {
    let overflow = format!("{}0", usize::MAX);
    for text in ["12", "+12", "-12", "", "+", "1.5", "0x10", &overflow, "99999"] {
        assert_eq!(parse_usize(text), text.parse::<usize>().ok(), "{:?}", text);
    }
}

#[test]
fn parse_reads_back_decimal() {
    for n in [0usize, 1, 65535, usize::MAX - 1] {
        assert_eq!(parse_usize(&decimal(n)), Some(n));
    }
}
