use amdgpu_settings::decimal::{
    parse_i32, parse_u32, parse_u64, parse_u8, push_signed, push_unsigned,
};

#[test]
fn unsigned_numbers_are_read() {
    assert_eq!(parse_u8(b"0"), Some(0));
    assert_eq!(parse_u8(b"255"), Some(255));
    assert_eq!(parse_u8(b"+7"), Some(7));
    assert_eq!(parse_u8(b"0007"), Some(7));
    assert_eq!(parse_u32(b"4294967295"), Some(u32::MAX));
    assert_eq!(parse_u64(b"18446744073709551615"), Some(u64::MAX));
    assert_eq!(parse_u64(b"000000000000000000000000000000012"), Some(12));
}

#[test]
fn unsigned_numbers_out_of_range_are_refused() {
    assert_eq!(parse_u8(b"256"), None);
    assert_eq!(parse_u8(b"1000"), None);
    assert_eq!(parse_u32(b"4294967296"), None);
    assert_eq!(parse_u64(b"18446744073709551616"), None);
    assert_eq!(parse_u64(b"99999999999999999999999999"), None);
}

#[test]
fn malformed_unsigned_numbers_are_refused() {
    assert_eq!(parse_u8(b""), None);
    assert_eq!(parse_u8(b"+"), None);
    assert_eq!(parse_u8(b"-"), None);
    assert_eq!(parse_u8(b"-0"), None);
    assert_eq!(parse_u8(b"-1"), None);
    assert_eq!(parse_u8(b"++1"), None);
    assert_eq!(parse_u8(b" 1"), None);
    assert_eq!(parse_u8(b"1 "), None);
    assert_eq!(parse_u8(b"1x"), None);
    assert_eq!(parse_u8(b"0x10"), None);
    assert_eq!(parse_u32(b"1_000"), None);
    assert_eq!(parse_u64(b"12.5"), None);
    assert_eq!(parse_u64("\u{663}".as_bytes()), None);
}

#[test]
fn signed_numbers_are_read() {
    assert_eq!(parse_i32(b"0"), Some(0));
    assert_eq!(parse_i32(b"-0"), Some(0));
    assert_eq!(parse_i32(b"+0"), Some(0));
    assert_eq!(parse_i32(b"-150"), Some(-150));
    assert_eq!(parse_i32(b"+150"), Some(150));
    assert_eq!(parse_i32(b"2147483647"), Some(i32::MAX));
    assert_eq!(parse_i32(b"-2147483648"), Some(i32::MIN));
    assert_eq!(parse_i32(b"-0000000000000000000001"), Some(-1));
}

#[test]
fn signed_numbers_out_of_range_or_malformed_are_refused() {
    assert_eq!(parse_i32(b"2147483648"), None);
    assert_eq!(parse_i32(b"-2147483649"), None);
    assert_eq!(parse_i32(b""), None);
    assert_eq!(parse_i32(b"-"), None);
    assert_eq!(parse_i32(b"+"), None);
    assert_eq!(parse_i32(b"--1"), None);
    assert_eq!(parse_i32(b"-+1"), None);
    assert_eq!(parse_i32(b"+-1"), None);
    assert_eq!(parse_i32(b"1-"), None);
    assert_eq!(parse_i32(b"- 1"), None);
}

#[test]
fn readers_agree_with_the_standard_library() {
    let samples = [
        "", "0", "1", "9", "10", "99", "127", "128", "255", "256", "+1", "-1", "+", "-", "00",
        "-00", "+00", "65535", "65536", "2147483647", "2147483648", "-2147483648",
        "-2147483649", "4294967295", "4294967296", "18446744073709551615",
        "18446744073709551616", "1a", "a1", " 1", "1 ", "1\n", "١",
    ];
    for text in samples {
        assert_eq!(parse_u8(text.as_bytes()), text.parse::<u8>().ok(), "u8 {:?}", text);
        assert_eq!(parse_u32(text.as_bytes()), text.parse::<u32>().ok(), "u32 {:?}", text);
        assert_eq!(parse_u64(text.as_bytes()), text.parse::<u64>().ok(), "u64 {:?}", text);
        assert_eq!(parse_i32(text.as_bytes()), text.parse::<i32>().ok(), "i32 {:?}", text);
    }
}

#[test]
fn numbers_are_written_in_their_shortest_form() {
    let mut out = String::from("n=");
    push_unsigned(&mut out, 0);
    assert_eq!(out, "n=0");
    push_unsigned(&mut out, 10);
    assert_eq!(out, "n=010");
    let mut out = String::new();
    push_unsigned(&mut out, u64::MAX);
    assert_eq!(out, "18446744073709551615");
    let mut out = String::new();
    push_signed(&mut out, -1);
    push_signed(&mut out, 0);
    push_signed(&mut out, 25);
    assert_eq!(out, "-1025");
    let mut out = String::new();
    push_signed(&mut out, i64::MIN);
    assert_eq!(out, "-9223372036854775808");
    let mut out = String::new();
    push_signed(&mut out, i64::MAX);
    assert_eq!(out, "9223372036854775807");
}

#[test]
fn written_numbers_are_read_back() {
    for value in [0u64, 1, 9, 10, 11, 99, 100, 255, 4294967295, u64::MAX] {
        let mut out = String::new();
        push_unsigned(&mut out, value);
        assert_eq!(out, value.to_string());
        assert_eq!(parse_u64(out.as_bytes()), Some(value));
    }
    for value in [i32::MIN, -100, -10, -9, -1, 0, 1, 9, 10, i32::MAX] {
        let mut out = String::new();
        push_signed(&mut out, value as i64);
        assert_eq!(out, value.to_string());
        assert_eq!(parse_i32(out.as_bytes()), Some(value));
    }
}
