use urc::client::{
    find, format_age, host_row, human_age, human_age_at, is_session_file, local_url, no_session_message,
    now, partition_alive, select_peer, session_path, session_row, sessions_dir, sort_sessions, ConnectError,
    Session,
};
use urc::tailscale::TailscalePeer;

fn sess(host: &str, pid: u32) -> Session {
    Session {
        host: host.to_string(),
        ip: "100.64.0.9".to_string(),
        pid,
        local_port: 5901,
        url: "vnc://localhost:5901".to_string(),
        started_at_unix: 1000,
    }
}

#[test]
fn ages() {
    assert_eq!(format_age(0), "0s");
    assert_eq!(format_age(59), "59s");
    assert_eq!(format_age(60), "1m");
    assert_eq!(format_age(3599), "59m");
    assert_eq!(format_age(3600), "1h");
    assert_eq!(format_age(86399), "23h");
    assert_eq!(format_age(86400 * 3 + 5), "3d");
    assert_eq!(human_age_at(100, 200), "0s");
    assert_eq!(human_age_at(1120, 1000), "2m");
    assert!(now() > 1_600_000_000);
    assert_eq!(human_age(now() + 1000), "0s");
}

#[test]
fn session_files() {
    assert_eq!(sessions_dir(&Some("/x/cache".to_string()), &Some("/home/a".to_string())).as_deref(), Some("/x/cache/urc/sessions"));
    assert_eq!(sessions_dir(&None, &Some("/home/a".to_string())).as_deref(), Some("/home/a/.cache/urc/sessions"));
    assert_eq!(sessions_dir(&None, &None), None);
    assert_eq!(session_path("/d", "office"), "/d/office.json");
    assert!(is_session_file("office.json"));
    assert!(is_session_file("a.b.json"));
    assert!(!is_session_file(".json"));
    assert!(!is_session_file("office.json.tmp"));
    assert!(!is_session_file("office"));
}

#[test]
fn finding_and_sorting_sessions() {
    let all = sort_sessions(vec![sess("zeta", 30), sess("alpha", 10), sess("beta", 20)]);
    let hosts: Vec<&str> = all.iter().map(|s| s.host.as_str()).collect();
    assert_eq!(hosts, vec!["alpha", "beta", "zeta"]);
    assert_eq!(find(&all, "20").unwrap().host, "beta");
    assert_eq!(find(&all, "zeta").unwrap().pid, 30);
    assert!(find(&all, "99").is_none());
    assert!(find(&all, "gamma").is_none());
    assert_eq!(no_session_message("gamma"), "no urc session matching 'gamma' (try: urc sessions)");
}

#[test]
fn pruning_dead_sessions() {
    let (kept, dead) = partition_alive(vec![sess("a", 1), sess("b", 2), sess("c", 3)], &vec![true, false, true]);
    assert_eq!(kept.iter().map(|s| s.pid).collect::<Vec<_>>(), vec![1, 3]);
    assert_eq!(dead, vec!["b"]);
}

fn peer(name: &str, online: bool) -> TailscalePeer {
    TailscalePeer {
        name: name.to_string(),
        dns_name: format!("{name}.tail.ts.net."),
        ipv4: "100.64.0.1".to_string(),
        online,
    }
}

#[test]
fn choosing_the_peer_to_connect() {
    let peers = vec![peer("office", true), peer("lab", false)];
    assert_eq!(select_peer(&peers, "Office").unwrap().name, "office");
    let e = select_peer(&peers, "lab").err().unwrap();
    assert_eq!(e.message(false), "'lab' is offline on Tailscale.");
    assert_eq!(e.message(true), "'lab' is offline on Tailscale. Wake the machine or check it is logged in.");
    let e = select_peer(&peers, "nowhere").err().unwrap();
    assert_eq!(e.message(false), "no machine named 'nowhere' on your tailnet.");
    assert!(e.message(true).ends_with("have URC installed."));
    let running = ConnectError::AlreadyRunning { name: "office".to_string(), pid: 77, url: local_url(5901) };
    assert_eq!(
        running.message(true),
        "'office' already has a running session (pid 77, vnc://localhost:5901).\nStop it with: urc kill office"
    );
}

#[test]
fn table_rows() {
    assert_eq!(host_row(&peer("office", true)), format!("{:<24} {:<16} {}", "office", "100.64.0.1", "online"));
    assert_eq!(host_row(&peer("lab", false)), format!("{:<24} {:<16} {}", "lab", "100.64.0.1", "offline"));
    let s = sess("office", 4242);
    assert_eq!(
        session_row(&s, 1000 + 7200),
        format!("{:<20} {:<16} {:<8} {:<10} {}", "office", "100.64.0.9", 4242, "2h", "vnc://localhost:5901")
    );
}

#[test]
fn listing_prunes_and_sorts() {
    let (live, dead) = urc::client::list(vec![sess("zeta", 1), sess("gone", 2), sess("alpha", 3)], &vec![true, false, true]);
    assert_eq!(live.iter().map(|s| s.host.as_str()).collect::<Vec<_>>(), vec!["alpha", "zeta"]);
    assert_eq!(dead, vec!["gone"]);
}

#[test]
fn kill_picks_the_first_match_or_explains() {
    let all = vec![sess("a", 5), sess("b", 6)];
    assert_eq!(urc::client::kill(&all, "6").unwrap().host, "b");
    assert_eq!(urc::client::kill(&all, "a").unwrap().pid, 5);
    assert_eq!(urc::client::kill(&all, "c").err().unwrap(), "no urc session matching 'c' (try: urc sessions)");
}

#[test]
fn written_descriptors_are_listed() {
    let path = session_path("/cache/urc/sessions", "office");
    let name = path.rsplit('/').next().unwrap();
    assert!(is_session_file(name));
    assert!(is_session_file("x.json"));
}

#[test]
fn browser_and_background_invocation() {
    assert_eq!(urc::client::browser_command("macos"), "open");
    assert_eq!(urc::client::browser_command("windows"), "start");
    assert_eq!(urc::client::browser_command("linux"), "xdg-open");
    assert_eq!(
        urc::client::detached_args("office", 40123),
        vec!["connect", "office", "--local-port", "40123", "--no-open", "--detached-child"]
    );
}

#[test]
fn connect_targets_the_tls_vnc_port_and_opens_a_vnc_url() {
    assert_eq!(urc::client::CONNECT_PORT, 15900);
    assert_eq!(local_url(5901), "vnc://localhost:5901");
}
