use udpfwd::config::Config;
use udpfwd::forwarder::{ForwarderError, UdpForwarder, BUF_SIZE, READ_TIMEOUT_MS};

#[test]
fn test_forwarder_defaults() {
    let fwd = UdpForwarder::new();
    assert!(!fwd.is_running());
}

#[test]
fn test_forwarder_stop() {
    let mut fwd = UdpForwarder::new();
    fwd.stop();
    assert!(!fwd.is_running());
}

#[test]
fn test_valid_local_port_boundaries() {
    let cfg1 = Config {
        local_port: 1,
        target_ip: "127.0.0.1".to_string(),
        target_port: 9001,
    };
    assert_eq!(cfg1.local_port, 1);

    let cfg2 = Config {
        local_port: 65535,
        target_ip: "127.0.0.1".to_string(),
        target_port: 9001,
    };
    assert_eq!(cfg2.local_port, 65535);
}

#[test]
fn forwarder_default_matches_new() {
    let fwd = UdpForwarder::default();
    assert!(!fwd.is_running());
    assert_eq!(fwd.packet_count(), 0);
    assert!(!fwd.keep_forwarding(0));
}

#[test]
fn start_resets_count_and_runs() {
    let mut fwd = UdpForwarder::new();
    let g = fwd.start().unwrap();
    fwd.record_send(g, true);
    fwd.record_send(g, false);
    fwd.record_send(g, true);
    assert_eq!(fwd.packet_count(), 2);
    assert!(fwd.is_running());
    assert!(fwd.keep_forwarding(g));
    fwd.stop();
    assert!(!fwd.is_running());
    assert!(!fwd.keep_forwarding(g));
    assert_eq!(fwd.packet_count(), 2);
    let g2 = fwd.start().unwrap();
    assert_ne!(g, g2);
    assert_eq!(fwd.packet_count(), 0);
    assert!(fwd.keep_forwarding(g2));
    assert!(!fwd.keep_forwarding(g));
}

#[test]
fn second_start_is_refused() {
    let mut fwd = UdpForwarder::new();
    let g = fwd.start().unwrap();
    fwd.record_send(g, true);
    assert_eq!(fwd.start(), Err(ForwarderError::AlreadyRunning));
    assert!(fwd.keep_forwarding(g));
    assert_eq!(fwd.packet_count(), 1);
}

#[test]
fn stale_thread_is_not_counted() {
    let mut fwd = UdpForwarder::new();
    let g = fwd.start().unwrap();
    fwd.stop();
    let g2 = fwd.start().unwrap();
    fwd.record_send(g, true);
    assert_eq!(fwd.packet_count(), 0);
    fwd.record_send(g2, true);
    assert_eq!(fwd.packet_count(), 1);
}

#[test]
fn stop_twice_stays_stopped() {
    let mut fwd = UdpForwarder::new();
    fwd.start().unwrap();
    fwd.stop();
    fwd.stop();
    assert!(!fwd.is_running());
}

#[test]
fn socket_plan_addresses() {
    let plan = UdpForwarder::socket_plan(9000, "192.168.1.20", 9001);
    assert_eq!(plan.listen_addr, "0.0.0.0:9000");
    assert_eq!(plan.sender_addr, "0.0.0.0:0");
    assert_eq!(plan.target_addr, "192.168.1.20:9001");
    assert_eq!(plan.read_timeout_ms, READ_TIMEOUT_MS);
    assert_eq!(plan.buffer_size, BUF_SIZE);
    assert_eq!(BUF_SIZE, 65535);
}
