use udpfwd::ipv4::{resolve_target, Ipv4Target, TargetError};
use udpfwd::config::{Config, InputError, StoredValues, DEFAULT_LOCAL_PORT, DEFAULT_TARGET_PORT};

#[test]
fn defaults() {
    let c = Config::default();
    assert_eq!(c.local_port, 9000);
    assert_eq!(c.target_ip, "127.0.0.1");
    assert_eq!(c.target_port, 9001);
    assert_eq!(DEFAULT_LOCAL_PORT, 9000);
    assert_eq!(DEFAULT_TARGET_PORT, 9001);
}

#[test]
fn missing_key_gives_defaults() {
    let c = Config::from_stored(None);
    assert_eq!((c.local_port, c.target_ip.as_str(), c.target_port), (9000, "127.0.0.1", 9001));
}

#[test]
fn missing_values_give_defaults() {
    let c = Config::from_stored(Some(StoredValues { local_port: None, target_ip: None, target_port: Some(5) }));
    assert_eq!((c.local_port, c.target_ip.as_str(), c.target_port), (9000, "127.0.0.1", 5));
}

#[test]
fn stored_ports_keep_low_bits() {
    let c = Config::from_stored(Some(StoredValues {
        local_port: Some(70000),
        target_ip: Some("10.0.0.1".to_string()),
        target_port: Some(65536),
    }));
    assert_eq!((c.local_port, c.target_ip.as_str(), c.target_port), (70000u32 as u16, "10.0.0.1", 0));
    assert_eq!(c.local_port, 4464);
}

#[test]
fn store_and_read_back() {
    let c = Config { local_port: 1234, target_ip: "example.org".to_string(), target_port: 65535 };
    let w = c.to_registry();
    assert_eq!((w.local_port, w.target_ip.as_str(), w.target_port), (1234, "example.org", 65535));
    let back = Config::from_stored(Some(StoredValues {
        local_port: Some(w.local_port),
        target_ip: Some(w.target_ip),
        target_port: Some(w.target_port),
    }));
    assert_eq!((back.local_port, back.target_ip.as_str(), back.target_port), (1234, "example.org", 65535));
}

#[test]
fn cli_overrides() {
    let mut c = Config::default();
    c.apply_cli(Some(7000), Some("10.1.2.3:7001"));
    assert_eq!((c.local_port, c.target_ip.as_str(), c.target_port), (7000, "10.1.2.3", 7001));
    let mut d = Config::default();
    d.apply_cli(None, Some("no-port"));
    assert_eq!((d.local_port, d.target_ip.as_str(), d.target_port), (9000, "127.0.0.1", 9001));
    let mut e = Config::default();
    e.apply_cli(None, None);
    assert_eq!((e.local_port, e.target_ip.as_str(), e.target_port), (9000, "127.0.0.1", 9001));
}

#[test]
fn inputs_accepted() {
    let c = Config::from_inputs("9000", "127.0.0.1", "9001").unwrap();
    assert_eq!((c.local_port, c.target_ip.as_str(), c.target_port), (9000, "127.0.0.1", 9001));
    let c = Config::from_inputs("+1", "10.0.0.255", "65535").unwrap();
    assert_eq!((c.local_port, c.target_ip.as_str(), c.target_port), (1, "10.0.0.255", 65535));
}

#[test]
fn inputs_accept_any_non_empty_ip() {
    for ip in ["localhost", "300.1.1.1", "x"] {
        let c = Config::from_inputs("9000", ip, "9001").unwrap();
        assert_eq!((c.local_port, c.target_ip.as_str(), c.target_port), (9000, ip, 9001));
    }
}

#[test]
fn resolve_refuses_non_ipv4_with_its_own_message() {
    let t = resolve_target("192.168.0.7", 9001).unwrap();
    assert_eq!(t, Ipv4Target { octets: (192, 168, 0, 7), port: 9001 });
    for ip in ["localhost", "300.1.1.1", "x", "01.2.3.4", "1.2.3"] {
        let e = resolve_target(ip, 9001).unwrap_err();
        assert_eq!(e, TargetError::NotIpv4Address);
        assert_eq!(e.message(), "Error: target IP is not an IPv4 address");
    }
    assert_ne!(TargetError::NotIpv4Address.message(), InputError::InvalidPortOrIp.message());
}

#[test]
fn inputs_rejected() {
    for (l, ip, t) in [
        ("0", "127.0.0.1", "9001"),
        ("9000", "127.0.0.1", "65536"),
        ("9000", "", "9001"),
        ("abc", "127.0.0.1", "9001"),
        ("-5", "127.0.0.1", "9001"),
        ("", "127.0.0.1", "9001"),
        ("9000", "127.0.0.1", "99999999999"),
    ] {
        assert_eq!(Config::from_inputs(l, ip, t).err(), Some(InputError::InvalidPortOrIp), "{l} {ip} {t}");
    }
    assert_eq!(InputError::InvalidPortOrIp.message(), "Error: Invalid port or IP");
}
