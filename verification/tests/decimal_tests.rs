use motion_desk::decimal::{parse_i64, parse_usize};

#[test]
fn i64_matches_std() {
    let cases: [&str; 16] = [
        "0", "42", "+42", "-42", "-0", "", "+", "-", "1,2", " 1", "1 ",
        "9223372036854775807", "9223372036854775808", "-9223372036854775808",
        "-9223372036854775809", "00012",
    ];
    for c in cases {
        assert_eq!(parse_i64(c.as_bytes()), c.parse::<i64>().ok(), "{:?}", c);
    }
}

#[test]
fn usize_matches_std() {
    let cases: [&str; 10] = ["0", "2", "+2", "-2", "", "+", "x", "18446744073709551615", "18446744073709551616", "2a"];
    for c in cases {
        assert_eq!(parse_usize(c.as_bytes()), c.parse::<usize>().ok(), "{:?}", c);
    }
}

#[test]
fn i64_values() {
    assert_eq!(parse_i64(b"1717000000"), Some(1_717_000_000));
    assert_eq!(parse_i64(b"-17"), Some(-17));
    assert_eq!(parse_i64(b"12a"), None);
}
