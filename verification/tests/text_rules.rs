use medicine_tracker::decimal::{parse_u16, time_key, u16_to_text};
use medicine_tracker::text::{join2, str_lt};

#[test]
fn time_key_drops_the_colon() {
    assert_eq!(time_key("08:00"), 800);
    assert_eq!(time_key("12:30"), 1230);
    assert_eq!(time_key("23:59"), 2359);
    assert_eq!(time_key("00:00"), 0);
}

#[test]
fn time_key_of_malformed_text_is_zero() {
    assert_eq!(time_key(""), 0);
    assert_eq!(time_key(":"), 0);
    assert_eq!(time_key("noon"), 0);
    assert_eq!(time_key("08h00"), 0);
    assert_eq!(time_key("08:00 "), 0);
    assert_eq!(time_key("+"), 0);
    assert_eq!(time_key("-"), 0);
    assert_eq!(time_key("８:００"), 0);
}

#[test]
fn time_key_reads_signs_and_any_number_of_colons() {
    assert_eq!(time_key("+8:00"), 800);
    assert_eq!(time_key("-5:00"), -500);
    assert_eq!(time_key("1:2:3"), 123);
    assert_eq!(time_key("::7"), 7);
    assert_eq!(time_key("8:-0"), 0);
}

#[test]
fn time_key_stays_within_32_bits() {
    assert_eq!(time_key("2147483647"), 2147483647);
    assert_eq!(time_key("2147483648"), 0);
    assert_eq!(time_key("-2147483648"), -2147483648);
    assert_eq!(time_key("-2147483649"), 0);
    assert_eq!(time_key("99999999999999999999999999"), 0);
    assert_eq!(time_key("0000000000000000000000000800"), 800);
}

#[test]
fn time_key_agrees_with_the_standard_parser() {
    let samples = [
        "08:00", "8:00", "", "abc", "+12:00", "-1:30", "2147483647", "2147483648", "12:3a", ":",
        "+", "-", "+-1", "007", "1_000",
    ];
    for sample in samples {
        let expected = sample.replace(":", "").parse::<i32>().unwrap_or(0);
        assert_eq!(time_key(sample), expected, "for {:?}", sample);
    }
}

#[test]
fn parse_u16_reads_ports() {
    assert_eq!(parse_u16("8080"), Some(8080));
    assert_eq!(parse_u16("0"), Some(0));
    assert_eq!(parse_u16("65535"), Some(65535));
    assert_eq!(parse_u16("+6379"), Some(6379));
    assert_eq!(parse_u16("65536"), None);
    assert_eq!(parse_u16("-1"), None);
    assert_eq!(parse_u16("-0"), None);
    assert_eq!(parse_u16(""), None);
    assert_eq!(parse_u16("80:80"), None);
    assert_eq!(parse_u16(" 80"), None);
}

#[test]
fn parse_u16_agrees_with_the_standard_parser() {
    let samples = ["8080", "", "+", "-", "+1", "-1", "65535", "65536", "0x10", "00080", "8 0"];
    for sample in samples {
        assert_eq!(parse_u16(sample), sample.parse::<u16>().ok(), "for {:?}", sample);
    }
}

#[test]
fn u16_to_text_writes_decimal() {
    assert_eq!(u16_to_text(0), "0");
    assert_eq!(u16_to_text(7), "7");
    assert_eq!(u16_to_text(10), "10");
    assert_eq!(u16_to_text(6379), "6379");
    assert_eq!(u16_to_text(65535), "65535");
}

#[test]
fn u16_to_text_agrees_with_the_standard_formatter() {
    for n in [0u16, 1, 9, 10, 99, 100, 101, 1000, 8080, 40000, 65535] {
        assert_eq!(u16_to_text(n), n.to_string());
    }
}

#[test]
fn str_lt_is_the_order_of_the_standard_library() {
    let samples = ["", "a", "ab", "b", "A", "08:00", "8:00", "12:00", "é", "z", "日本", "zz"];
    for a in samples {
        for b in samples {
            assert_eq!(str_lt(a, b), a < b, "for {:?} and {:?}", a, b);
        }
    }
}

#[test]
fn str_lt_puts_a_prefix_first() {
    assert!(str_lt("08:0", "08:00"));
    assert!(!str_lt("08:00", "08:0"));
    assert!(!str_lt("08:00", "08:00"));
}

#[test]
fn join2_appends() {
    assert_eq!(join2("prod:medicine:", "abc"), "prod:medicine:abc");
    assert_eq!(join2("", ""), "");
}
