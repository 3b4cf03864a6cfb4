use gpx_kalman::numtext::{parse_decimal_nano, parse_u32};

#[test]
fn decimal_whole_and_fraction() {
    assert_eq!(parse_decimal_nano(b"44.4705880"), Some(44_470_588_000));
    assert_eq!(parse_decimal_nano(b"26.1146640"), Some(26_114_664_000));
    assert_eq!(parse_decimal_nano(b"76.1"), Some(76_100_000_000));
    assert_eq!(parse_decimal_nano(b"0"), Some(0));
    assert_eq!(parse_decimal_nano(b"7"), Some(7_000_000_000));
}

#[test]
fn decimal_signs() {
    assert_eq!(parse_decimal_nano(b"-12.5"), Some(-12_500_000_000));
    assert_eq!(parse_decimal_nano(b"+12.5"), Some(12_500_000_000));
    assert_eq!(parse_decimal_nano(b"-0.000000001"), Some(-1));
}

#[test]
fn decimal_bare_point_sides() {
    assert_eq!(parse_decimal_nano(b".5"), Some(500_000_000));
    assert_eq!(parse_decimal_nano(b"5."), Some(5_000_000_000));
    assert_eq!(parse_decimal_nano(b"."), None);
    assert_eq!(parse_decimal_nano(b"-."), None);
}

#[test]
fn decimal_ninth_digit_is_the_last_kept() {
    assert_eq!(parse_decimal_nano(b"0.1234567891"), Some(123_456_789));
    assert_eq!(parse_decimal_nano(b"999999999.999999999"), Some(999_999_999_999_999_999));
}

#[test]
fn decimal_rejects() {
    assert_eq!(parse_decimal_nano(b""), None);
    assert_eq!(parse_decimal_nano(b"-"), None);
    assert_eq!(parse_decimal_nano(b"+"), None);
    assert_eq!(parse_decimal_nano(b"12a.5"), None);
    assert_eq!(parse_decimal_nano(b"1.2.3"), None);
    assert_eq!(parse_decimal_nano(b"1e5"), None);
    assert_eq!(parse_decimal_nano(b" 1"), None);
    assert_eq!(parse_decimal_nano(b"1234567890"), None);
}

#[test]
fn unsigned_parse_matches_the_standard_grammar() {
    assert_eq!(parse_u32(b"93"), Some(93));
    assert_eq!(parse_u32(b"+49"), Some(49));
    assert_eq!(parse_u32(b"0"), Some(0));
    assert_eq!(parse_u32(b"0000000093"), Some(93));
    assert_eq!(parse_u32(b"4294967295"), Some(u32::MAX));
    assert_eq!(parse_u32(b"4294967296"), None);
    assert_eq!(parse_u32(b"184467440737095516150"), None);
    assert_eq!(parse_u32(b""), None);
    assert_eq!(parse_u32(b"+"), None);
    assert_eq!(parse_u32(b"-1"), None);
    assert_eq!(parse_u32(b"9 3"), None);
    assert_eq!(parse_u32(b"93."), None);
}

#[test]
fn unsigned_parse_agrees_with_std() {
    for s in ["93", "+49", "0", "4294967295", "4294967296", "", "-1", "1x"] {
        assert_eq!(parse_u32(s.as_bytes()), s.parse::<u32>().ok());
    }
}
