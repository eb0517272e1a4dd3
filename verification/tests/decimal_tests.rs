use cat_client::decimal::{decimal_string_bytes, hex_digit_of, i64_to_string, parse_u32, u64_to_string};
use cat_client::text::{ascii_to_string, bytes_eq, str_eq};
use cat_client::utils::get_ip_hex;

#[test]
fn decimal_text_of_integers() {
    assert_eq!(i64_to_string(0), "0");
    assert_eq!(i64_to_string(7), "7");
    assert_eq!(i64_to_string(-123), "-123");
    assert_eq!(i64_to_string(i64::MAX), i64::MAX.to_string());
    assert_eq!(i64_to_string(i64::MIN), i64::MIN.to_string());
    assert_eq!(u64_to_string(u64::MAX), u64::MAX.to_string());
    assert_eq!(decimal_string_bytes(-10), b"-10".to_vec());
}

#[test]
fn parse_u32_accepts_what_str_parse_accepts() {
    let cases: [&str; 12] =
        ["42", "+7", "", "+", "-1", "4294967295", "4294967296", "12a", "007", " 1", "99999999999999", "0"];
    for case in cases {
        assert_eq!(parse_u32(case.as_bytes()), case.parse::<u32>().ok(), "{}", case);
    }
}

#[test]
fn hex_digits_are_lowercase() {
    assert_eq!(hex_digit_of(0), b'0');
    assert_eq!(hex_digit_of(9), b'9');
    assert_eq!(hex_digit_of(10), b'a');
    assert_eq!(hex_digit_of(15), b'f');
}

#[test]
fn ip_hex_of_addresses() {
    assert_eq!(get_ip_hex("127.0.0.1".to_string()), "7f000001");
    assert_eq!(get_ip_hex("10.0.0.255".to_string()), "0a0000ff");
    assert_eq!(get_ip_hex("+1.256.0.0".to_string()), "01000000");
    assert_eq!(get_ip_hex("300".to_string()), "2c");
    assert_eq!(get_ip_hex("4294967295.16".to_string()), "ff10");
}

#[test]
fn text_helpers() {
    assert!(bytes_eq(b"ab", b"ab"));
    assert!(!bytes_eq(b"ab", b"abc"));
    assert!(!bytes_eq(b"ab", b"ac"));
    assert!(str_eq("x", "x"));
    assert!(!str_eq("x", "y"));
    assert_eq!(ascii_to_string(b"hi!".to_vec()), "hi!");
}
