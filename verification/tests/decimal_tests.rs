use stream_injector::decimal::format_u64;
use stream_injector::decimal::parse_i64;

#[test]
fn parse_i64_reads_plain_digits() {
    assert_eq!(parse_i64(b"0"), Some(0));
    assert_eq!(parse_i64(b"7"), Some(7));
    assert_eq!(parse_i64(b"10"), Some(10));
    assert_eq!(parse_i64(b"1700000000"), Some(1_700_000_000));
}

#[test]
fn parse_i64_reads_signs() {
    assert_eq!(parse_i64(b"+5"), Some(5));
    assert_eq!(parse_i64(b"-5"), Some(-5));
    assert_eq!(parse_i64(b"-0"), Some(0));
    assert_eq!(parse_i64(b"+0"), Some(0));
}

#[test]
fn parse_i64_accepts_leading_zeros() {
    assert_eq!(parse_i64(b"007"), Some(7));
    assert_eq!(parse_i64(b"-0000000000000000000000000042"), Some(-42));
    assert_eq!(parse_i64(b"00000000000000000000000009223372036854775807"), Some(i64::MAX));
}

#[test]
fn parse_i64_reads_the_ends_of_the_range() {
    assert_eq!(parse_i64(b"9223372036854775807"), Some(i64::MAX));
    assert_eq!(parse_i64(b"+9223372036854775807"), Some(i64::MAX));
    assert_eq!(parse_i64(b"-9223372036854775808"), Some(i64::MIN));
    assert_eq!(parse_i64(b"-9223372036854775807"), Some(i64::MIN + 1));
}

#[test]
fn parse_i64_refuses_what_no_i64_holds() {
    assert_eq!(parse_i64(b"9223372036854775808"), None);
    assert_eq!(parse_i64(b"-9223372036854775809"), None);
    assert_eq!(parse_i64(b"18446744073709551616"), None);
    assert_eq!(parse_i64(b"99999999999999999999999999999"), None);
    assert_eq!(parse_i64(b"-99999999999999999999999999999"), None);
}

#[test]
fn parse_i64_refuses_what_is_no_number() {
    assert_eq!(parse_i64(b""), None);
    assert_eq!(parse_i64(b"+"), None);
    assert_eq!(parse_i64(b"-"), None);
    assert_eq!(parse_i64(b"--1"), None);
    assert_eq!(parse_i64(b"+-1"), None);
    assert_eq!(parse_i64(b" 1"), None);
    assert_eq!(parse_i64(b"1 "), None);
    assert_eq!(parse_i64(b"1\r\n"), None);
    assert_eq!(parse_i64(b"12a"), None);
    assert_eq!(parse_i64(b"a12"), None);
    assert_eq!(parse_i64(b"1.5"), None);
    assert_eq!(parse_i64(b"0x10"), None);
    assert_eq!(parse_i64(b"1_000"), None);
    assert_eq!(parse_i64(&[0x31, 0xff]), None);
    assert_eq!(parse_i64(b"/"), None);
    assert_eq!(parse_i64(b":"), None);
}

#[test]
fn parse_i64_agrees_with_the_standard_parser() {
    let samples: Vec<&[u8]> = vec![
        b"0", b"-0", b"+0", b"1", b"-1", b"+1", b"", b"+", b"-", b"00", b"-00", b"12345",
        b"9223372036854775807", b"9223372036854775808", b"-9223372036854775808",
        b"-9223372036854775809", b"1e3", b" 7", b"7 ", b"++7", b"0007", b"abc",
    ];
    for sample in samples {
        let expected = std::str::from_utf8(sample).ok().and_then(|s| s.parse::<i64>().ok());
        assert_eq!(parse_i64(sample), expected);
    }
}

#[test]
fn format_u64_writes_shortest_decimal() {
    assert_eq!(format_u64(0), b"0".to_vec());
    assert_eq!(format_u64(7), b"7".to_vec());
    assert_eq!(format_u64(9), b"9".to_vec());
    assert_eq!(format_u64(10), b"10".to_vec());
    assert_eq!(format_u64(3600), b"3600".to_vec());
    assert_eq!(format_u64(1_000_000), b"1000000".to_vec());
    assert_eq!(format_u64(u64::MAX), b"18446744073709551615".to_vec());
}

#[test]
fn format_u64_agrees_with_the_standard_formatter() {
    let samples: Vec<u64> = vec![0, 1, 9, 10, 11, 99, 100, 101, 12345, 4294967295, 4294967296, u64::MAX];
    for n in samples {
        assert_eq!(format_u64(n), n.to_string().into_bytes());
    }
}

#[test]
fn formatted_numbers_read_back() {
    let samples: Vec<u64> = vec![0, 1, 10, 3600, 1_700_000_000, 9223372036854775807];
    for n in samples {
        assert_eq!(parse_i64(&format_u64(n)), Some(n as i64));
    }
    assert_eq!(parse_i64(&format_u64(9223372036854775808)), None);
}
