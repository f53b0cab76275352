use udpfwd::forwarder::ForwarderError;
use udpfwd::power::{
    is_resume_event, restart_on_power_event, stop_power_listener, ListenerStart, PowerListener,
    PBT_APMRESUMEAUTOMATIC, PBT_APMRESUMESUSPEND,
};
use udpfwd::session::{forwarding_status, Session, StartStop};

#[test]
fn status_text() {
    assert_eq!(forwarding_status(0, 0), "Forwarding: total 0 @ 0 pps");
    assert_eq!(forwarding_status(12345, 678), "Forwarding: total 12345 @ 678 pps");
}

#[test]
fn button_toggles() {
    let mut s = Session::new();
    assert_eq!(s.on_start_action(), StartStop::Start);
    let started = s.begin_forwarding().unwrap();
    assert_eq!(started.update.status, "Forwarding: total 0 @ 0 pps");
    assert_eq!(started.update.button, "Stop");
    assert!(s.keep_forwarding(started.generation));
    assert_eq!(s.begin_forwarding().err(), Some(ForwarderError::AlreadyRunning));
    assert!(s.is_running());
    assert_eq!(s.on_start_action(), StartStop::Stop);
    let u = s.stop_forwarding();
    assert_eq!(u.status, "Stopped");
    assert_eq!(u.button, "Start");
    assert!(!s.is_running());
    assert!(!s.keep_forwarding(started.generation));
}

#[test]
fn timer_reports_rate() {
    let mut s = Session::new();
    assert_eq!(s.on_timer(), None);
    let g = s.begin_forwarding().unwrap().generation;
    for _ in 0..5 {
        s.record_send(g, true);
    }
    s.record_send(g, false);
    assert_eq!(s.on_timer(), Some("Forwarding: total 5 @ 5 pps".to_string()));
    s.record_send(g, true);
    s.record_send(g, true);
    assert_eq!(s.on_timer(), Some("Forwarding: total 7 @ 2 pps".to_string()));
    assert_eq!(s.on_timer(), Some("Forwarding: total 7 @ 0 pps".to_string()));
    assert_eq!(s.packet_count(), 7);
    s.close();
    assert!(!s.is_running());
    assert_eq!(s.on_timer(), None);
}

#[test]
fn single_power_listener() {
    let mut l = PowerListener::new();
    assert!(!l.is_listening());
    assert_eq!(l.begin(None), ListenerStart::NoWindow);
    assert!(!l.is_listening());
    let g = match l.begin(Some(42)) {
        ListenerStart::Spawn { window, generation } => {
            assert_eq!(window, 42);
            generation
        }
        other => panic!("unexpected {:?}", other),
    };
    assert!(l.is_listening());
    assert!(l.keep_listening(g));
    assert_eq!(l.begin(Some(42)), ListenerStart::AlreadyListening);
    stop_power_listener(&mut l);
    assert!(!l.is_listening());
    assert!(!l.keep_listening(g));
    let g2 = match l.begin(Some(7)) {
        ListenerStart::Spawn { generation, .. } => generation,
        other => panic!("unexpected {:?}", other),
    };
    // The old thread is told to end, and its end leaves the new one running.
    assert!(!l.keep_listening(g));
    assert!(l.keep_listening(g2));
    l.listener_ended(g);
    assert!(l.is_listening());
    l.listener_ended(g2);
    assert!(!l.is_listening());
}

#[test]
fn resume_events() {
    assert_eq!(PBT_APMRESUMEAUTOMATIC, 0x12);
    assert_eq!(PBT_APMRESUMESUSPEND, 0x7);
    assert!(is_resume_event(0x12));
    assert!(is_resume_event(0x7));
    assert!(!is_resume_event(0x4));
    assert!(!is_resume_event(0x18));
    assert!(restart_on_power_event(0x12, true));
    assert!(restart_on_power_event(0x7, true));
    assert!(!restart_on_power_event(0x12, false));
    assert!(!restart_on_power_event(0x4, true));
}

#[test]
fn restart_keeps_forwarding_on() {
    let mut s = Session::new();
    let g = s.begin_forwarding().unwrap().generation;
    s.record_send(g, true);
    s.pause_for_restart();
    assert!(s.is_running());
    assert!(!s.keep_forwarding(g));
    // The sockets could not be reopened: forwarding stays shown as on.
    assert_eq!(s.resume_after_restart(false), None);
    assert!(s.is_running());
    assert!(!s.keep_forwarding(g));
    assert_eq!(s.on_timer(), Some("Forwarding: total 1 @ 1 pps".to_string()));
    assert_eq!(s.on_start_action(), StartStop::Stop);
    // A later restart that works runs a new generation from zero.
    s.pause_for_restart();
    let g2 = s.resume_after_restart(true).unwrap();
    assert_ne!(g, g2);
    assert!(s.keep_forwarding(g2));
    assert_eq!(s.packet_count(), 0);
    assert_eq!(s.on_timer(), Some("Forwarding: total 0 @ 0 pps".to_string()));
    // Restarting a running forwarder without pausing starts nothing.
    assert_eq!(s.resume_after_restart(true), None);
    let u = s.stop_forwarding();
    assert_eq!(u.button, "Start");
    assert!(!s.is_running());
}
