use urc::protocol::{AgentMessage, CoordinatorMessage, RelayMode, TunnelTarget};
use urc::registry::{connect_client, handle_agent_message, plan_connect, AgentReply, AppState, ClientHint, ConnectPlan};
use urc::relay::RelayHub;

fn register(reg: &mut AppState<u32>, host: &str, ip: Option<&str>, tx: u32) -> AgentReply {
    handle_agent_message(
        reg,
        AgentMessage::Register {
            host_id: host.to_string(),
            token: "s3cret".to_string(),
            tailscale_ip: ip.map(|s| s.to_string()),
            vnc_local_port: 5900,
            files_local_port: 15901,
        },
        tx,
    )
}

#[test]
fn register_then_lookup() {
    let mut reg: AppState<u32> = AppState::new("s3cret".to_string());
    match register(&mut reg, "office", Some("100.64.0.5"), 7) {
        AgentReply::Registered { host_id } => assert_eq!(host_id, "office"),
        other => panic!("unexpected {other:?}"),
    }
    let (rec, seen) = reg.get_agent("office").unwrap();
    assert_eq!(rec.tailscale_ip.as_deref(), Some("100.64.0.5"));
    assert_eq!(rec.vnc_local_port, 5900);
    assert!(seen > 0);
    assert_eq!(reg.agent_control_tx("office"), Some(&7));
    assert!(reg.get_agent("lab").is_none());
}

#[test]
fn wrong_token_closes_and_changes_nothing() {
    let mut reg: AppState<u32> = AppState::new("s3cret".to_string());
    let reply = handle_agent_message(
        &mut reg,
        AgentMessage::Register {
            host_id: "office".to_string(),
            token: "guess".to_string(),
            tailscale_ip: None,
            vnc_local_port: 5900,
            files_local_port: 15901,
        },
        1,
    );
    assert!(matches!(reply, AgentReply::Close));
    assert!(reg.list_hosts().is_empty());
    assert!(!reg.verify_token("guess"));
    assert!(reg.verify_token("s3cret"));
}

#[test]
fn reregistering_replaces_and_unregister_removes() {
    let mut reg: AppState<u32> = AppState::new("s3cret".to_string());
    register(&mut reg, "a", None, 1);
    register(&mut reg, "b", Some("100.1.1.1"), 2);
    register(&mut reg, "a", Some("100.2.2.2"), 3);
    let hosts = reg.list_hosts();
    assert_eq!(hosts.len(), 2);
    assert!(hosts.iter().all(|h| h.online));
    assert_eq!(reg.agent_control_tx("a"), Some(&3));
    let hb = handle_agent_message(&mut reg, AgentMessage::Heartbeat { host_id: "b".to_string() }, 0);
    assert!(matches!(hb, AgentReply::Nothing));
    reg.unregister_agent("a");
    assert!(reg.get_agent("a").is_none());
    assert_eq!(reg.list_hosts().len(), 1);
}

#[test]
fn connect_plans() {
    let mut reg: AppState<u32> = AppState::new("s3cret".to_string());
    register(&mut reg, "direct", Some("100.64.0.5"), 1);
    register(&mut reg, "relayed", None, 2);
    match plan_connect(&reg, "x", "bad", 9) {
        ConnectPlan::Refuse { reply: CoordinatorMessage::ConnectErr { reason } } => assert_eq!(reason, "invalid token"),
        other => panic!("unexpected {other:?}"),
    }
    match plan_connect(&reg, "lab", "s3cret", 9) {
        ConnectPlan::Refuse { reply: CoordinatorMessage::ConnectErr { reason } } => {
            assert_eq!(reason, "host 'lab' not online")
        }
        other => panic!("unexpected {other:?}"),
    }
    match plan_connect(&reg, "direct", "s3cret", 9) {
        ConnectPlan::Accept { session_id, agent_notice, reply, hint } => {
            assert_eq!(session_id, 9);
            assert!(matches!(agent_notice, AgentMessage::TunnelReady { session_id: 9, target: TunnelTarget::Vnc }));
            assert!(matches!(reply, CoordinatorMessage::ConnectOk { session_id: 9, relay_mode: RelayMode::Direct }));
            match hint {
                ClientHint::Direct { text } => {
                    assert_eq!(text, "Direct connect: vncviewer 100.64.0.5:5900 (TLS port 15900)")
                }
                other => panic!("unexpected {other:?}"),
            }
        }
        other => panic!("unexpected {other:?}"),
    }
    match plan_connect(&reg, "relayed", "s3cret", 10) {
        ConnectPlan::Accept { hint: ClientHint::Relay { message }, .. } => match message {
            CoordinatorMessage::RelayHint { session_id, coordinator_addr } => {
                assert_eq!(session_id, 10);
                assert_eq!(coordinator_addr, "ws://127.0.0.1:21150");
            }
            other => panic!("unexpected {other:?}"),
        },
        other => panic!("unexpected {other:?}"),
    }
}

#[test]
fn connect_client_draws_fresh_session_ids() {
    let mut reg: AppState<u32> = AppState::new("s3cret".to_string());
    register(&mut reg, "pc", None, 1);
    let id = |p: ConnectPlan| match p {
        ConnectPlan::Accept { session_id, .. } => session_id,
        other => panic!("unexpected {other:?}"),
    };
    let a = id(connect_client(&reg, "pc", "s3cret"));
    let b = id(connect_client(&reg, "pc", "s3cret"));
    assert_ne!(a, b);
    // A version-4 UUID has its version nibble set to 4.
    assert_eq!((a >> 76) & 0xf, 4);
}

#[test]
fn relay_bridges_both_legs() {
    let mut t: RelayHub<&'static str> = RelayHub::new();
    let mut state: AppState<&'static str> = AppState::new("k".to_string());
    state.relay.create_session(1);
    state.relay.attach_client(1, "c");
    assert_eq!(state.relay.peer(1, true), Some(Some(&"c")));
    t.create_session(42);
    assert_eq!(t.peer(42, true), Some(None));
    t.attach_agent(42, "agent-tx");
    t.attach(42, "client-tx", false);
    assert_eq!(t.peer(42, true), Some(Some(&"client-tx")));
    assert_eq!(t.peer(42, false), Some(Some(&"agent-tx")));
    t.attach(7, "stray", true);
    assert_eq!(t.peer(7, true), None);
    t.remove_session(42);
    assert_eq!(t.peer(42, false), None);
}

#[test]
fn register_then_unregister_restores_the_registry() {
    let mut reg: AppState<u32> = AppState::new("s3cret".to_string());
    register(&mut reg, "keep", Some("100.1.1.1"), 1);
    let before: Vec<String> = reg.list_hosts().into_iter().map(|h| h.host_id).collect();
    register(&mut reg, "temp", None, 2);
    assert_eq!(reg.list_hosts().len(), 2);
    reg.unregister_agent("temp");
    let after: Vec<String> = reg.list_hosts().into_iter().map(|h| h.host_id).collect();
    assert_eq!(after, before);
    assert_eq!(reg.get_agent("keep").unwrap().0.tailscale_ip.as_deref(), Some("100.1.1.1"));
}

#[test]
fn touching_an_agent_records_the_time() {
    let mut reg: AppState<u32> = AppState::new("s3cret".to_string());
    register(&mut reg, "pc", None, 1);
    reg.touch_agent_at("pc", 42);
    assert_eq!(reg.get_agent("pc").unwrap().1, 42);
    reg.touch_agent_at("other", 7);
    assert_eq!(reg.get_agent("pc").unwrap().1, 42);
    reg.touch_agent("pc");
    assert!(reg.get_agent("pc").unwrap().1 > 42);
}
