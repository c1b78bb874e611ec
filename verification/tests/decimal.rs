use plex_media_ingest::decimal::{format_i32, format_two_digits, format_u32, format_u64, parse_u32};

#[test]
fn numbers_are_written_without_leading_zeros() {
    assert_eq!(format_u32(0), "0");
    assert_eq!(format_u32(7), "7");
    assert_eq!(format_u32(603), "603");
    assert_eq!(format_u32(u32::MAX), "4294967295");
    assert_eq!(format_u64(u64::MAX), "18446744073709551615");
}

#[test]
fn signed_numbers_carry_their_sign() {
    assert_eq!(format_i32(1396), "1396");
    assert_eq!(format_i32(0), "0");
    assert_eq!(format_i32(-5), "-5");
    assert_eq!(format_i32(i32::MIN), "-2147483648");
    assert_eq!(format_i32(i32::MAX), "2147483647");
}

#[test]
fn two_digits_pad_with_zero() {
    assert_eq!(format_two_digits(0), "00");
    assert_eq!(format_two_digits(1), "01");
    assert_eq!(format_two_digits(9), "09");
    assert_eq!(format_two_digits(10), "10");
    assert_eq!(format_two_digits(99), "99");
    assert_eq!(format_two_digits(100), "100");
}

#[test]
fn digits_are_read_back() {
    assert_eq!(parse_u32("0"), Some(0));
    assert_eq!(parse_u32("01"), Some(1));
    assert_eq!(parse_u32("2008"), Some(2008));
    assert_eq!(parse_u32("4294967295"), Some(u32::MAX));
    assert_eq!(parse_u32("0000000000004294967295"), Some(u32::MAX));
}

#[test]
fn what_is_no_number_is_not_read() {
    assert_eq!(parse_u32(""), None);
    assert_eq!(parse_u32("12a"), None);
    assert_eq!(parse_u32("-1"), None);
    assert_eq!(parse_u32("+1"), None);
    assert_eq!(parse_u32(" 1"), None);
    assert_eq!(parse_u32("4294967296"), None);
    assert_eq!(parse_u32("99999999999999999999"), None);
    assert_eq!(parse_u32("42949672950"), None);
}

#[test]
fn writing_then_reading_gives_the_number() {
    for n in [0u32, 1, 9, 10, 11, 99, 100, 12345, u32::MAX] {
        assert_eq!(parse_u32(&format_u32(n)), Some(n));
    }
}
