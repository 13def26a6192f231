use mseq_tb::report::{crc_count_line, crc_line, tester_line};
use mseq_tb::send::message_count;
use mseq_tb::text::{decimal_digit_values, decimal_string, hex_string, parse_u32, parse_usize};

#[test]
fn decimal_rendering() {
    assert_eq!(decimal_string(0), "0");
    assert_eq!(decimal_string(9000), "9000");
    assert_eq!(decimal_string(u32::MAX), "4294967295");
    assert_eq!(decimal_digit_values(1203), vec![1, 2, 0, 3]);
}

#[test]
fn hex_rendering() {
    assert_eq!(hex_string(0xCBF4_3926), "0xCBF43926");
    assert_eq!(hex_string(0), "0x00000000");
    assert_eq!(hex_string(0xA), format!("{:#010X}", 0xA));
}

#[test]
fn result_lines() {
    assert_eq!(crc_count_line(0xCBF4_3926, 9000), "0xCBF43926 (9000 bytes)");
    assert_eq!(tester_line(0x1234_ABCD, 3), "CRC32: 0x1234ABCD (3 bytes)");
    assert_eq!(crc_line(0xFF), "0x000000FF");
}

#[test]
fn count_setting() {
    assert_eq!(message_count(None), Some(1000));
    assert_eq!(message_count(Some(b"3000")), Some(3000));
    assert_eq!(message_count(Some(b"4294967296")), None);
    assert_eq!(message_count(Some(b"12 ")), None);
    assert_eq!(message_count(Some(b"")), Some(0));
    assert_eq!(parse_u32(b""), 0);
    assert_eq!(parse_u32(b"4294967295"), u32::MAX);
    // bytes past '9' count for what they are worth
    assert_eq!(parse_u32(b"1:"), 20);
}

#[test]
fn usize_parsing_like_std() {
    for s in ["0", "12", "+7", "", "+", "-1", "1a", " 1", "18446744073709551616", "18446744073709551615", "++1"] {
        assert_eq!(parse_usize(s.as_bytes()), s.parse::<usize>().ok(), "{s:?}");
    }
}
