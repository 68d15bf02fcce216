use netsurvey::number::{parse_i32, parse_u32, parse_u8, push_decimal, push_signed_decimal};
use netsurvey::text::{
    char_is_whitespace, chars_of, find_field, has_char, join_fields, split_fields, starts_with,
    str_equal,
};

fn owned(parts: &[&str]) -> Vec<String> {
    parts.iter().map(|p| p.to_string()).collect()
}

#[test]
fn whitespace_matches_the_standard_library_on_every_char() {
    for n in 0u32..=0x10FFFF {
        if let Some(c) = char::from_u32(n) {
            assert_eq!(char_is_whitespace(c), c.is_whitespace(), "U+{:04X}", n);
        }
    }
}

#[test]
fn chars_of_lists_every_char() {
    assert_eq!(chars_of("a:é 日"), vec!['a', ':', 'é', ' ', '日']);
    assert_eq!(chars_of(""), Vec::<char>::new());
}

#[test]
fn split_fields_drops_all_whitespace() {
    assert_eq!(split_fields("  a  bb\tccc \n"), owned(&["a", "bb", "ccc"]));
    assert_eq!(split_fields(""), Vec::<String>::new());
    assert_eq!(split_fields(" \t\r\n"), Vec::<String>::new());
    assert_eq!(split_fields("one"), owned(&["one"]));
    assert_eq!(split_fields("x\u{3000}y\u{a0}z"), owned(&["x", "y", "z"]));
}

#[test]
fn split_fields_agrees_with_split_whitespace() {
    let lines = [
        "AA:BB:CC:DD:EE:01 -42 0 0 0 6 0 WPA2 0 My Network",
        " BSSID              PWR  Beacons    #Data, #/s  CH   MB   ENC CIPHER  AUTH ESSID",
        "é  ü\u{2003}ß \u{85}tail",
        "\u{feff}not whitespace",
        "a\u{200b}b",
        "",
    ];
    for line in lines {
        let expected: Vec<String> = line.split_whitespace().map(|p| p.to_string()).collect();
        assert_eq!(split_fields(line), expected, "{:?}", line);
    }
}

#[test]
fn join_fields_puts_single_spaces() {
    let parts = owned(&["a", "b", "c", "d"]);
    assert_eq!(join_fields(&parts, 0), "a b c d");
    assert_eq!(join_fields(&parts, 2), "c d");
    assert_eq!(join_fields(&parts, 3), "d");
    assert_eq!(join_fields(&parts, 4), "");
}

#[test]
fn str_equal_compares_contents() {
    assert!(str_equal("", ""));
    assert!(str_equal("Probe", "Probe"));
    assert!(!str_equal("Probe", "Probes"));
    assert!(!str_equal("Probe", "probe"));
}

#[test]
fn has_char_finds_a_colon() {
    assert!(has_char("aa:bb", ':'));
    assert!(!has_char("aabb", ':'));
    assert!(!has_char("", ':'));
}

#[test]
fn starts_with_tests_the_prefix() {
    assert!(starts_with("BSSID  PWR", "BSSID"));
    assert!(starts_with("BSSID", "BSSID"));
    assert!(starts_with("anything", ""));
    assert!(!starts_with(" BSSID", "BSSID"));
    assert!(!starts_with("BSS", "BSSID"));
}

#[test]
fn find_field_returns_the_first_match() {
    let parts = owned(&["x", "Probe", "y", "Probe"]);
    assert_eq!(find_field(&parts, "Probe"), Some(1));
    assert_eq!(find_field(&parts, "x"), Some(0));
    assert_eq!(find_field(&parts, "(AP)"), None);
    assert_eq!(find_field(&Vec::new(), "x"), None);
}

#[test]
fn parse_i32_accepts_what_the_standard_library_accepts() {
    let cases = [
        "0", "-0", "+0", "7", "-42", "+42", "007", "-007", "2147483647", "2147483648",
        "-2147483648", "-2147483649", "99999999999999999999999", "", "-", "+", "--1", "+-1",
        "1 ", " 1", "1_000", "12a", "a12", "1.5", "٣", "0x10", "-00000000000000000000002147483648",
    ];
    for text in cases {
        assert_eq!(parse_i32(text), text.parse::<i32>().ok(), "{:?}", text);
    }
    assert_eq!(parse_i32("-42"), Some(-42));
    assert_eq!(parse_i32("2147483647"), Some(i32::MAX));
    assert_eq!(parse_i32("-2147483648"), Some(i32::MIN));
    assert_eq!(parse_i32("2147483648"), None);
}

#[test]
fn parse_u8_accepts_what_the_standard_library_accepts() {
    let cases = [
        "0", "+0", "-0", "6", "+6", "-6", "255", "256", "0255", "000000000000000000000255", "",
        "+", "-", "1e1", "11", "٣",
    ];
    for text in cases {
        assert_eq!(parse_u8(text), text.parse::<u8>().ok(), "{:?}", text);
    }
    assert_eq!(parse_u8("6"), Some(6));
    assert_eq!(parse_u8("255"), Some(255));
    assert_eq!(parse_u8("256"), None);
    assert_eq!(parse_u8("-0"), None);
}

#[test]
fn parse_u32_accepts_what_the_standard_library_accepts() {
    let cases = ["0", "+17", "-17", "4294967295", "4294967296", "", "12 ", "1514"];
    for text in cases {
        assert_eq!(parse_u32(text), text.parse::<u32>().ok(), "{:?}", text);
    }
    assert_eq!(parse_u32("4294967295"), Some(u32::MAX));
}

#[test]
fn push_decimal_writes_the_digits() {
    for n in [0u64, 1, 9, 10, 11, 99, 100, 101, 12345, u64::MAX] {
        let mut out = String::from("n=");
        push_decimal(&mut out, n);
        assert_eq!(out, format!("n={}", n));
    }
}

#[test]
fn push_signed_decimal_writes_the_sign() {
    for n in [0i64, -1, 1, -42, 42, -70, i64::MIN, i64::MAX] {
        let mut out = String::new();
        push_signed_decimal(&mut out, n);
        assert_eq!(out, format!("{}", n));
    }
}
