//! Numbers in decimal, alignment, prefixes and blank lines.

use dot_price::text::{
    blank, decimal_text, has_prefix, parse_u64, push_decimal, push_left_aligned,
    push_right_aligned, push_zero_padded, repeated, same, strip_prefixes, IntError,
};

#[test]
fn decimal_numbers() {
    for n in [0, 7, 9, 10, 99, 100, 12_345, 1_779_874_404, u64::MAX - 1, u64::MAX] {
        assert_eq!(decimal_text(n), n.to_string());
    }
    let mut out = "n=".to_string();
    push_decimal(&mut out, 307);
    assert_eq!(out, "n=307");
}

#[test]
fn numbers_read_back() {
    for n in [0, 1, 10, 86_400, 1_700_000_000, u64::MAX] {
        assert_eq!(parse_u64(&decimal_text(n)), Ok(n));
    }
}

#[test]
fn whole_numbers_as_std_reads_them() {
    for s in [
        "0", "00", "007", "+5", "+", "-", "-1", "", " 1", "1 ", "1_000", "0x1f", "++1", "+-1", "12a",
        "a12", "18446744073709551615", "18446744073709551616", "99999999999999999999999",
        "18446744073709551616x", "0000000000000000000000000000001", "١", "½",
    ] {
        let got = parse_u64(s);
        match s.parse::<u64>() {
            Ok(n) => assert_eq!(got, Ok(n), "{s:?}"),
            Err(_) => assert!(got.is_err(), "{s:?}"),
        }
    }
}

#[test]
fn whole_number_errors() {
    assert_eq!(parse_u64(""), Err(IntError::Empty));
    assert_eq!(parse_u64("12x"), Err(IntError::InvalidDigit));
    assert_eq!(parse_u64("+"), Err(IntError::InvalidDigit));
    assert_eq!(parse_u64("18446744073709551616"), Err(IntError::Overflow));
}

#[test]
fn alignment_as_std_does_it() {
    for s in ["", "a", "Crypto.com", "12345678901", "123456789012", "—", "größer"] {
        for width in [0, 1, 5, 11, 12, 20] {
            let mut left = "|".to_string();
            push_left_aligned(&mut left, s, width);
            assert_eq!(left, format!("|{s:<width$}"));
            let mut right = "|".to_string();
            push_right_aligned(&mut right, s, width);
            assert_eq!(right, format!("|{s:>width$}"));
        }
    }
}

#[test]
fn zero_padding() {
    for n in [0, 5, 10, 99, 2024, 12_345] {
        let mut out = String::new();
        push_zero_padded(&mut out, n, 4);
        assert_eq!(out, format!("{n:04}"));
    }
}

#[test]
fn repetition() {
    assert_eq!(repeated("-", 0), "");
    assert_eq!(repeated("#", 3), "###");
    assert_eq!(repeated("-", 56), "-".repeat(56));
}

#[test]
fn prefixes() {
    assert!(has_prefix("--from=1", "--from="));
    assert!(!has_prefix("--from", "--from="));
    assert!(same("--to", "--to"));
    assert!(!same("--to", "--t"));
    for (s, p) in [
        ("--to=5", "--to="),
        ("--to=--to=5", "--to="),
        ("--to=", "--to="),
        ("x--to=5", "--to="),
        ("", "--to="),
    ] {
        assert_eq!(strip_prefixes(s, p), s.trim_start_matches(p));
    }
}

#[test]
fn blank_lines() {
    assert!(blank(""));
    assert!(blank(" \t\r\u{a0}\u{3000}"));
    assert!(!blank(" x "));
    for c in (0..=0x10ffffu32).filter_map(char::from_u32) {
        assert_eq!(blank(&c.to_string()), c.is_whitespace(), "{:x}", c as u32);
    }
}
