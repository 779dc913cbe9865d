use urc::protocol::BackendPreference;
use urc::supervisor::{
    backoff_secs, is_saturation_error, liveness_status, tunnel_backoff_secs, waiting_status, TunnelSupervisor,
    VncAction, VncEvent, VncSupervisor,
};

#[test]
fn vnc_backoff_doubles_from_five_and_caps() {
    let got: Vec<u64> = (0..10).map(backoff_secs).collect();
    assert_eq!(got, vec![5, 5, 10, 20, 40, 80, 160, 160, 160, 160]);
    assert_eq!(backoff_secs(u32::MAX), 160);
}

#[test]
fn vnc_backoff_is_monotone_and_bounded() {
    let mut prev = 0;
    for a in 0..100u32 {
        let p = backoff_secs(a);
        assert!(p >= prev);
        assert!((5..=300).contains(&p));
        prev = p;
    }
}

#[test]
fn tunnel_backoff_doubles_from_two() {
    let got: Vec<u64> = (0..6).map(tunnel_backoff_secs).collect();
    assert_eq!(got, vec![2, 2, 4, 8, 8, 8]);
}

#[test]
fn tunnel_supervisor_counts_exits() {
    let mut t = TunnelSupervisor::new();
    assert_eq!(t.after_exit(), 2);
    assert_eq!(t.after_exit(), 4);
    assert_eq!(t.after_exit(), 8);
    assert_eq!(t.after_exit(), 8);
    assert_eq!(t.attempt, 4);
}

#[test]
fn saturation_is_recognised() {
    assert!(is_saturation_error("x0vncserver: display saturated"));
    assert!(is_saturation_error("Maximum number of clients reached"));
    assert!(!is_saturation_error("connection refused"));
}

#[test]
fn vnc_supervisor_decisions() {
    let mut s = VncSupervisor::new();
    s.begin_attempt();
    assert_eq!(s.on_event(&VncEvent::BackendUnavailable), VncAction::Retry { pause_secs: 5 });
    s.begin_attempt();
    s.begin_attempt();
    let a = s.on_event(&VncEvent::StartFailed { message: "exit 1".to_string() });
    assert_eq!(a, VncAction::Retry { pause_secs: 20 });
    assert_eq!(s.attempt, 3);
    let a = s.on_event(&VncEvent::StartFailed { message: "display saturated".to_string() });
    assert_eq!(a, VncAction::Retry { pause_secs: 60 });
    assert_eq!(s.attempt, 1);
    assert_eq!(s.on_event(&VncEvent::Started), VncAction::Supervise);
    assert_eq!(s.attempt, 0);
    assert_eq!(s.on_event(&VncEvent::HealthLost), VncAction::Restart);
}

#[test]
fn liveness_reports() {
    let st = liveness_status(true, false, true, true, BackendPreference::Auto, 1234);
    assert!(st.healthy);
    assert_eq!(st.last_error.as_deref(), Some("vnc=down (serving unaffected)"));
    assert_eq!(st.backend.as_deref(), Some("Auto"));
    assert_eq!(st.updated_at_unix, 1234);
    let st = liveness_status(true, true, true, false, BackendPreference::X11, 1);
    assert!(!st.healthy);
    assert_eq!(st.last_error.as_deref(), Some("web=ok coordinator=down"));
    let st = liveness_status(false, true, false, false, BackendPreference::X11, 1);
    assert!(st.coordinator_connected);
    assert_eq!(st.last_error.as_deref(), Some("web=down coordinator=ok"));
    let st = liveness_status(true, true, false, false, BackendPreference::X11, 1);
    assert!(st.healthy && st.last_error.is_none());
}

#[test]
fn waiting_report() {
    let st = waiting_status("no session", 99);
    assert!(!st.healthy && !st.session_detected);
    assert_eq!(st.last_error.as_deref(), Some("no session"));
    assert_eq!(st.updated_at_unix, 99);
}

#[test]
fn vnc_retry_schedule_over_a_run() {
    let mut s = VncSupervisor::new();
    let mut pauses = Vec::new();
    let fail = |m: &str| VncEvent::StartFailed { message: m.to_string() };
    for e in [fail("x"), fail("x"), fail("x"), fail("display saturated"), fail("x"), VncEvent::BackendUnavailable] {
        s.begin_attempt();
        if let VncAction::Retry { pause_secs } = s.on_event(&e) {
            pauses.push(pause_secs);
        }
    }
    assert_eq!(pauses, vec![5, 10, 20, 60, 10, 20]);
    s.begin_attempt();
    assert_eq!(s.on_event(&VncEvent::Started), VncAction::Supervise);
    s.begin_attempt();
    assert_eq!(s.on_event(&fail("x")), VncAction::Retry { pause_secs: 5 });
}
