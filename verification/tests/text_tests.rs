use udpfwd::decimal::{parse_i32, parse_u16, to_decimal_string};
use udpfwd::ipv4::parse_ipv4;
use udpfwd::target::{any_interface_address, parse_target, target_address};

#[test]
fn parse_target_splits_at_last_colon() {
    assert_eq!(parse_target("127.0.0.1:9001"), Some(("127.0.0.1".to_string(), 9001)));
    assert_eq!(parse_target("::1:80"), Some(("::1".to_string(), 80)));
    assert_eq!(parse_target(":80"), Some(("".to_string(), 80)));
    assert_eq!(parse_target("hôte:7"), Some(("hôte".to_string(), 7)));
}

#[test]
fn parse_target_rejects_bad_ports() {
    assert_eq!(parse_target("localhost"), None);
    assert_eq!(parse_target("localhost:"), None);
    assert_eq!(parse_target("localhost:65536"), None);
    assert_eq!(parse_target("localhost:-1"), None);
    assert_eq!(parse_target("localhost:80:x"), None);
    assert_eq!(parse_target("localhost: 80"), None);
}

#[test]
fn parse_target_accepts_plus_sign_and_zeros() {
    assert_eq!(parse_target("h:+80"), Some(("h".to_string(), 80)));
    assert_eq!(parse_target("h:0065535"), Some(("h".to_string(), 65535)));
}

#[test]
fn target_round_trip() {
    let text = target_address("fe80::1", 443);
    assert_eq!(text, "fe80::1:443");
    assert_eq!(parse_target(&text), Some(("fe80::1".to_string(), 443)));
}

#[test]
fn parse_u16_matches_std() {
    for s in ["0", "65535", "65536", "+", "", "+1", "-0", "12a", "007", "99999999999999999999"] {
        assert_eq!(parse_u16(s), s.parse::<u16>().ok(), "input {:?}", s);
    }
}

#[test]
fn parse_i32_matches_std() {
    for s in [
        "0", "-0", "+0", "-", "+", "", "2147483647", "2147483648", "-2147483648", "-2147483649",
        "65535", "1x", "--1", "+-1", "99999999999999999999",
    ] {
        assert_eq!(parse_i32(s), s.parse::<i32>().ok(), "input {:?}", s);
    }
}

#[test]
fn decimal_strings() {
    assert_eq!(to_decimal_string(0), "0");
    assert_eq!(to_decimal_string(9), "9");
    assert_eq!(to_decimal_string(10), "10");
    assert_eq!(to_decimal_string(u64::MAX), u64::MAX.to_string());
    assert_eq!(any_interface_address(0), "0.0.0.0:0");
    assert_eq!(any_interface_address(65535), "0.0.0.0:65535");
}

#[test]
fn parse_ipv4_cases() {
    assert_eq!(parse_ipv4("127.0.0.1"), Some((127, 0, 0, 1)));
    assert_eq!(parse_ipv4("0.0.0.0"), Some((0, 0, 0, 0)));
    assert_eq!(parse_ipv4("255.255.255.255"), Some((255, 255, 255, 255)));
    assert_eq!(parse_ipv4("10.0.0.255"), Some((10, 0, 0, 255)));
    assert_eq!(parse_ipv4("1.2.3.0"), Some((1, 2, 3, 0)));
    for s in [
        "256.0.0.1", "1.2.3", "1.2.3.4.5", "01.2.3.4", "1.2.3.04", "", "...", "1..2.3", "+1.2.3.4",
        "1.2.3.4 ", "1.2.3.-4", "1000.2.3.4", "localhost", "::1", "1.2.3.",
    ] {
        assert_eq!(parse_ipv4(s), None, "input {:?}", s);
    }
}
