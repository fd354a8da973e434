use pdydns::ipv4::{ipv4_to_string, parse_ipv4, Ipv4Address};
use pdydns::number::{parse_decimal, NumberError};
use pdydns::public_ip::{public_ip_from_reply, PublicIpError};
use pdydns::sync::IpTracker;
use pdydns::text::{contains_char, ends_with, is_blank_str, is_whitespace, trim};

#[test]
fn parses_dotted_quads() {
    assert_eq!(parse_ipv4("203.0.113.7"), Some(Ipv4Address(203, 0, 113, 7)));
    assert_eq!(parse_ipv4("0.0.0.0"), Some(Ipv4Address(0, 0, 0, 0)));
    assert_eq!(parse_ipv4("255.255.255.255"), Some(Ipv4Address(255, 255, 255, 255)));
    for bad in [
        "", "1.2.3", "1.2.3.4.5", "256.1.1.1", "01.2.3.4", "1..3.4", "1.2.3.4 ", "a.b.c.d",
        "1.2.3.-4", "+1.2.3.4", "1.2.3.1000", ".1.2.3", "1.2.3.4.",
    ] {
        assert_eq!(parse_ipv4(bad), None, "{bad}");
    }
}

#[test]
fn writes_dotted_quads() {
    assert_eq!(ipv4_to_string(Ipv4Address(10, 0, 255, 99)), "10.0.255.99");
    assert_eq!(ipv4_to_string(Ipv4Address(100, 9, 0, 1)), "100.9.0.1");
}

#[test]
fn ipv4_round_trips() {
    for a in [0u8, 1, 9, 10, 42, 99, 100, 199, 200, 255] {
        for b in [0u8, 7, 64, 250] {
            let addr = Ipv4Address(a, b, 255 - a, b / 3);
            let text = ipv4_to_string(addr);
            assert_eq!(parse_ipv4(&text), Some(addr));
            assert_eq!(text, format!("{}.{}.{}.{}", addr.0, addr.1, addr.2, addr.3));
        }
    }
}

#[test]
fn decimal_numbers() {
    assert_eq!(parse_decimal("0", u64::MAX), Ok(0));
    assert_eq!(parse_decimal("+7", u64::MAX), Ok(7));
    assert_eq!(parse_decimal("4294967295", u32::MAX as u64), Ok(4294967295));
    assert_eq!(parse_decimal("4294967296", u32::MAX as u64), Err(NumberError::TooLarge));
    assert_eq!(parse_decimal("", u64::MAX), Err(NumberError::Empty));
    assert_eq!(parse_decimal("+", u64::MAX), Err(NumberError::InvalidDigit));
    assert_eq!(parse_decimal("-1", u64::MAX), Err(NumberError::InvalidDigit));
    assert_eq!(parse_decimal("99999999999999999999x", u64::MAX), Err(NumberError::TooLarge));
    assert_eq!(parse_decimal("1x99999999999999999999", u64::MAX), Err(NumberError::InvalidDigit));
    assert_eq!("99999999999999999999x".parse::<u64>().unwrap_err().to_string(), "number too large to fit in target type");
}

#[test]
fn text_helpers() {
    assert_eq!(trim("\u{2028} a b \n"), "a b");
    assert_eq!(trim("   "), "");
    assert!(is_whitespace('\u{85}'));
    assert!(!is_whitespace('\u{200b}'));
    assert!(ends_with("a.", '.'));
    assert!(!ends_with("", '.'));
    assert!(contains_char("a.b", '.'));
    assert!(!contains_char("ab", '.'));
    let once = trim(" \u{3000} x y \t");
    assert_eq!(trim(once), once);
    assert!(is_blank_str(" \t"));
    assert!(!is_blank_str(" x "));
}

#[test]
fn reply_in_json_or_plain_text() {
    assert_eq!(public_ip_from_reply(Some("198.51.100.4".to_string()), "{\"ip\":\"198.51.100.4\"}").unwrap(), "198.51.100.4");
    assert_eq!(public_ip_from_reply(None, " 198.51.100.4\n").unwrap(), "198.51.100.4");
    assert!(matches!(
        public_ip_from_reply(Some(" 1.2.3.4".to_string()), "{}"),
        Err(PublicIpError::NotIpv4(s)) if s == " 1.2.3.4"
    ));
    assert!(matches!(
        public_ip_from_reply(None, "2001:db8::1"),
        Err(PublicIpError::NotIpv4(s)) if s == "2001:db8::1"
    ));
}

#[test]
fn tracker_updates_on_change_only() {
    let mut t = IpTracker::new();
    assert!(t.observe("1.2.3.4"));
    assert!(!t.observe("1.2.3.4"));
    assert!(t.observe("1.2.3.5"));
    assert!(t.observe("1.2.3.4"));
    assert!(!t.observe("1.2.3.4"));
}
