use urc::agent::{
    tunnel_to_open, coordinator_ws_url, fill_host_id, heartbeat_message, hostname_id_from, make_insecure, register_message,
    tunnel_url, usable_hostname,
};
use urc::health::{
    build_error_summary, file_health_verdict, needs_coordinator, probe_health_verdict, probe_health, status_path,
    AgentStatus,
};
use urc::protocol::{AgentConfig, AgentMessage, EncryptionMode, TunnelTarget};

#[test]
fn coordinator_urls() {
    assert_eq!(coordinator_ws_url("https://coord.example:21150"), "wss://coord.example:21150");
    assert_eq!(coordinator_ws_url("http://10.0.0.1:21150"), "ws://10.0.0.1:21150");
    assert_eq!(coordinator_ws_url("wss://x"), "wss://x");
    assert_eq!(
        tunnel_url(&None, &None, 0x0123_4567_89ab_cdef_0123_4567_89ab_cdef),
        "ws://127.0.0.1:21150/tunnel/agent/01234567-89ab-cdef-0123-456789abcdef"
    );
    assert_eq!(
        tunnel_url(&Some("coord".to_string()), &Some("9000".to_string()), 1),
        "ws://coord:9000/tunnel/agent/00000000-0000-0000-0000-000000000001"
    );
    assert_eq!(tunnel_url(&None, &Some("x".to_string()), 0), "ws://127.0.0.1:21150/tunnel/agent/00000000-0000-0000-0000-000000000000");
}

#[test]
fn registration_messages() {
    let mut c = AgentConfig::default();
    match register_message(&c, 5900, Some("100.64.0.3".to_string())) {
        AgentMessage::Register { host_id, token, tailscale_ip, vnc_local_port, files_local_port } => {
            assert_eq!(host_id, "unknown");
            assert_eq!(token, "");
            assert_eq!(tailscale_ip.as_deref(), Some("100.64.0.3"));
            assert_eq!((vnc_local_port, files_local_port), (5900, 15901));
        }
        other => panic!("unexpected {other:?}"),
    }
    fill_host_id(&mut c, "pc1".to_string());
    fill_host_id(&mut c, "pc2".to_string());
    assert_eq!(c.host_id.as_deref(), Some("pc1"));
    assert!(matches!(heartbeat_message("pc1"), AgentMessage::Heartbeat { host_id } if host_id == "pc1"));
    make_insecure(&mut c);
    assert!(c.insecure);
    assert_eq!(c.encryption, EncryptionMode::Unencrypted);
}

#[test]
fn host_names() {
    assert_eq!(hostname_id_from(Some("  office\n".to_string())), "office");
    assert_eq!(hostname_id_from(None), "urc-host");
    assert_eq!(usable_hostname(" lab \n").as_deref(), Some("lab"));
    assert_eq!(usable_hostname(" \n"), None);
}

fn report(healthy: bool, coord: bool, at: u64, err: Option<&str>) -> AgentStatus {
    AgentStatus {
        healthy,
        session_detected: true,
        vnc_port_open: true,
        coordinator_connected: coord,
        files_port_open: true,
        backend: None,
        display: None,
        last_error: err.map(String::from),
        updated_at_unix: at,
        supervisor_cycle: 3,
    }
}

#[test]
fn health_summaries() {
    assert_eq!(status_path(), "/run/urc/status.json");
    assert_eq!(build_error_summary(true, true, true), "");
    assert_eq!(build_error_summary(false, true, false), "no graphical session; coordinator disconnected");
    assert_eq!(build_error_summary(false, false, false), "no graphical session; VNC port closed; coordinator disconnected");
    let mut c = AgentConfig::default();
    assert!(needs_coordinator(&c));
    c.coordinator_url = "  ".to_string();
    assert!(!needs_coordinator(&c));
}

#[test]
fn freshness_and_verdicts() {
    let r = report(true, true, 1000, None);
    assert!(r.is_fresh_at(1090));
    assert!(!r.is_fresh_at(1091));
    assert!(r.is_fresh_at(10));
    assert!(!r.is_fresh());
    assert_eq!(file_health_verdict(&r, 1050), Some(Ok(())));
    assert_eq!(file_health_verdict(&r, 5000), None);
    let bad = report(false, false, 1000, Some("VNC port closed"));
    assert_eq!(file_health_verdict(&bad, 1000), Some(Err("unhealthy: VNC port closed".to_string())));
    let p = probe_health(true, false, true, true, Some(&r), 1010);
    assert!(p.coordinator_connected);
    assert!(!p.healthy);
    assert_eq!(p.last_error.as_deref(), Some("VNC port closed"));
    assert_eq!(probe_health_verdict(&p), Err("unhealthy: VNC port closed".to_string()));
    let p = probe_health(true, true, true, true, None, 1010);
    assert_eq!(p.last_error.as_deref(), Some("coordinator disconnected"));
    let p = probe_health(true, true, false, false, None, 1010);
    assert!(p.healthy);
    assert_eq!(probe_health_verdict(&p), Ok(()));
}

#[test]
fn tunnel_requests_from_the_coordinator() {
    let vnc = AgentMessage::TunnelReady { session_id: 7, target: TunnelTarget::Vnc };
    assert_eq!(tunnel_to_open(&vnc, 5901), Some((7, 5901)));
    let files = AgentMessage::TunnelReady { session_id: 8, target: TunnelTarget::Files };
    assert_eq!(tunnel_to_open(&files, 5901), Some((8, 15901)));
    assert_eq!(tunnel_to_open(&AgentMessage::Heartbeat { host_id: "x".to_string() }, 5901), None);
}
