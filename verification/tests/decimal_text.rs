use process_supervisor::decimal::{parse_unsigned, signed_text, unsigned_text};
use process_supervisor::ids::ProcessId;

#[test]
fn unsigned_text_of_zero() {
    assert_eq!(unsigned_text(0), "0");
}

#[test]
fn unsigned_text_of_single_digits() {
    assert_eq!(unsigned_text(7), "7");
    assert_eq!(unsigned_text(9), "9");
}

#[test]
fn unsigned_text_of_round_numbers() {
    assert_eq!(unsigned_text(10), "10");
    assert_eq!(unsigned_text(100), "100");
    assert_eq!(unsigned_text(1000000), "1000000");
}

#[test]
fn unsigned_text_of_largest_values() {
    assert_eq!(unsigned_text(4294967295), "4294967295");
    assert_eq!(unsigned_text(u64::MAX), "18446744073709551615");
}

#[test]
fn unsigned_text_agrees_with_std() {
    let mut n: u64 = 1;
    while n < 1_000_000_000_000 {
        assert_eq!(unsigned_text(n), n.to_string());
        assert_eq!(unsigned_text(n - 1), (n - 1).to_string());
        n *= 7;
    }
}

#[test]
fn signed_text_of_positive_and_zero() {
    assert_eq!(signed_text(0), "0");
    assert_eq!(signed_text(1), "1");
    assert_eq!(signed_text(137), "137");
    assert_eq!(signed_text(i32::MAX), "2147483647");
}

#[test]
fn signed_text_of_negative() {
    assert_eq!(signed_text(-1), "-1");
    assert_eq!(signed_text(-15), "-15");
    assert_eq!(signed_text(i32::MIN), "-2147483648");
}

#[test]
fn parse_reads_canonical_text() {
    assert_eq!(parse_unsigned("0"), Some(0));
    assert_eq!(parse_unsigned("7"), Some(7));
    assert_eq!(parse_unsigned("42"), Some(42));
    assert_eq!(parse_unsigned("1000"), Some(1000));
    assert_eq!(parse_unsigned("4294967295"), Some(4294967295));
}

#[test]
fn parse_refuses_empty_text() {
    assert_eq!(parse_unsigned(""), None);
}

#[test]
fn parse_refuses_leading_zero() {
    assert_eq!(parse_unsigned("007"), None);
    assert_eq!(parse_unsigned("00"), None);
    assert_eq!(parse_unsigned("01"), None);
}

#[test]
fn parse_refuses_sign_and_space() {
    assert_eq!(parse_unsigned("+7"), None);
    assert_eq!(parse_unsigned("-7"), None);
    assert_eq!(parse_unsigned(" 7"), None);
    assert_eq!(parse_unsigned("7 "), None);
}

#[test]
fn parse_refuses_other_characters() {
    assert_eq!(parse_unsigned("12a"), None);
    assert_eq!(parse_unsigned("a12"), None);
    assert_eq!(parse_unsigned("1.5"), None);
    assert_eq!(parse_unsigned("0x10"), None);
    assert_eq!(parse_unsigned("\u{663}"), None);
    assert_eq!(parse_unsigned("1\u{e9}"), None);
}

#[test]
fn parse_refuses_what_does_not_fit() {
    assert_eq!(parse_unsigned("4294967296"), None);
    assert_eq!(parse_unsigned("9999999999"), None);
    assert_eq!(parse_unsigned("12345678901"), None);
    assert_eq!(parse_unsigned("100000000000000000000000"), None);
}

#[test]
fn parse_reads_back_what_was_written() {
    let samples: Vec<u32> = vec![0, 1, 9, 10, 11, 99, 100, 12345, 65535, 65536, 4294967294, 4294967295];
    for n in samples {
        assert_eq!(parse_unsigned(&unsigned_text(n as u64)), Some(n));
    }
}

#[test]
fn process_id_text_round_trip() {
    let id = ProcessId(31337);
    assert_eq!(id.to_text(), "31337");
    assert_eq!(ProcessId::parse("31337"), Some(id));
    assert_eq!(ProcessId::parse(&ProcessId(0).to_text()), Some(ProcessId(0)));
    assert_eq!(ProcessId::parse(&ProcessId(u32::MAX).to_text()), Some(ProcessId(u32::MAX)));
}

#[test]
fn process_id_is_named_only_by_its_own_text() {
    assert_eq!(ProcessId::parse("031337"), None);
    assert_eq!(ProcessId::parse("31337\n"), None);
    assert_eq!(ProcessId::parse("pid"), None);
    assert_ne!(ProcessId(12).to_text(), ProcessId(21).to_text());
}
