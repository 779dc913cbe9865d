use urc::tailscale::{
    choose_tailscale_bin, default_candidates, ensure_local_running, list_peers, resolve_peer,
    self_dns_name, self_ipv4, short_name, tailscale_bin_search, BinSearch, TailscaleError,
    TailscaleNode, TailscalePeer, TailscaleStatus,
};

#[test]
fn short_name_strips_tailnet_suffix() {
    assert_eq!(short_name("my-pc.tailnet.ts.net."), "my-pc");
}

fn node(dns: Option<&str>, host: Option<&str>, ips: &[&str], online: Option<bool>) -> TailscaleNode {
    TailscaleNode {
        dns_name: dns.map(|s| s.to_string()),
        host_name: host.map(|s| s.to_string()),
        online,
        tailscale_ips: Some(ips.iter().map(|s| Some(s.to_string())).collect()),
    }
}

fn peer(name: &str, dns: &str, ip: &str) -> TailscalePeer {
    TailscalePeer { name: name.to_string(), dns_name: dns.to_string(), ipv4: ip.to_string(), online: true }
}

#[test]
fn list_peers_sorts_by_name_and_skips_peers_without_ipv4() {
    let st = TailscaleStatus {
        backend_state: Some("Running".to_string()),
        self_node: None,
        peers: Some(vec![
            node(Some("zeta.tail.ts.net."), None, &["100.64.0.3"], Some(true)),
            node(Some("alpha.tail.ts.net."), None, &["fd7a::9", "100.64.0.2"], Some(false)),
            node(Some("v6only.tail.ts.net."), None, &["fd7a::1"], Some(true)),
            node(None, Some("bare"), &["100.64.0.9"], None),
        ]),
    };
    let peers = list_peers(&st);
    let names: Vec<&str> = peers.iter().map(|p| p.name.as_str()).collect();
    assert_eq!(names, vec!["alpha", "bare", "zeta"]);
    assert_eq!(peers[0].ipv4, "100.64.0.2");
    assert_eq!(peers[0].dns_name, "alpha.tail.ts.net.");
    assert!(!peers[0].online);
    assert_eq!(peers[1].dns_name, "");
    assert!(!peers[1].online);
    assert!(peers[2].online);
}

#[test]
fn list_peers_of_a_status_without_peers_is_empty() {
    let st = TailscaleStatus { backend_state: None, self_node: None, peers: None };
    assert!(list_peers(&st).is_empty());
}

#[test]
fn resolve_peer_matches_name_or_dns_case_insensitively() {
    let peers = vec![peer("office", "office.tail.ts.net", "100.64.0.5"), peer("laptop", "laptop.tail.ts.net", "100.64.0.6")];
    assert_eq!(resolve_peer(&peers, "OFFICE").unwrap().ipv4, "100.64.0.5");
    assert_eq!(resolve_peer(&peers, "laptop.tail.ts.net.").unwrap().name, "laptop");
    // Addresses are not names.
    assert!(resolve_peer(&peers, "100.64.0.6").is_none());
    assert_eq!(resolve_peer(&peers, " Laptop ").unwrap().ipv4, "100.64.0.6");
    assert!(resolve_peer(&peers, " . ").is_none());
    assert!(resolve_peer(&peers, "printer").is_none());
}

#[test]
fn self_addresses() {
    let st = TailscaleStatus {
        backend_state: Some("Running".to_string()),
        self_node: Some(node(Some("me.tail.ts.net."), None, &["fd7a::2", "100.70.0.1"], Some(true))),
        peers: None,
    };
    assert_eq!(self_ipv4(&st).as_deref(), Some("100.70.0.1"));
    assert_eq!(self_dns_name(&st).as_deref(), Some("me.tail.ts.net"));
    assert!(ensure_local_running(&st).is_ok());
}

#[test]
fn ensure_local_running_reports_state_and_hint() {
    let st = TailscaleStatus { backend_state: Some("NeedsMachineAuth".to_string()), self_node: None, peers: None };
    let e = ensure_local_running(&st).err().unwrap();
    assert_eq!(
        e.message(),
        "Tailscale is not connected on this machine (BackendState=NeedsMachineAuth).\nApprove this machine in the Tailscale admin console."
    );
    let st = TailscaleStatus { backend_state: None, self_node: None, peers: None };
    let e = ensure_local_running(&st).err().unwrap();
    assert_eq!(e.message(), "Tailscale is not connected on this machine (BackendState=Unknown).\nRun: tailscale up");
    let st = TailscaleStatus {
        backend_state: Some("Running".to_string()),
        self_node: Some(node(None, None, &[], Some(false))),
        peers: None,
    };
    assert!(matches!(ensure_local_running(&st), Err(TailscaleError::SelfOffline)));
}

#[test]
fn bin_search_prefers_explicit_variables() {
    let s = tailscale_bin_search(&Some("  ".to_string()), &Some(" /opt/ts ".to_string()), &Some("/usr/bin".to_string()));
    match &s {
        BinSearch::Explicit { key, path } => {
            assert_eq!(key, "TAILSCALE_BIN");
            assert_eq!(path, "/opt/ts");
        }
        _ => panic!("expected an explicit search"),
    }
    assert_eq!(choose_tailscale_bin(&s, &vec![true]), Ok("/opt/ts".to_string()));
    assert_eq!(
        choose_tailscale_bin(&s, &vec![false]),
        Err("TAILSCALE_BIN is set but not executable: /opt/ts".to_string())
    );
}

#[test]
fn bin_search_walks_path_then_defaults() {
    let s = tailscale_bin_search(&None, &None, &Some("/a::/b/".to_string()));
    let cands = match &s {
        BinSearch::Search { candidates } => candidates.clone(),
        _ => panic!("expected a PATH search"),
    };
    assert_eq!(
        cands,
        vec![
            "/a/tailscale",
            "/b/tailscale",
            "/usr/local/bin/tailscale",
            "/opt/homebrew/bin/tailscale",
            "/usr/bin/tailscale"
        ]
    );
    assert_eq!(choose_tailscale_bin(&s, &vec![false, false, false, true, true]), Ok("/opt/homebrew/bin/tailscale".to_string()));
    let none = choose_tailscale_bin(&s, &vec![false; 5]).err().unwrap();
    assert_eq!(
        none,
        "tailscale CLI not found. Install Tailscale: https://tailscale.com/download\nOr set URC_TAILSCALE_BIN to the Tailscale binary inside Tailscale.app."
    );
    assert_eq!(default_candidates().len(), 3);
}

#[test]
fn full_magicdns_name_finds_a_peer_whose_name_ends_in_a_dot() {
    let peers = vec![TailscalePeer {
        name: "sa-grs".into(),
        dns_name: "sa-grs.tail-abc-def.ts.net.".into(),
        ipv4: "100.80.198.81".into(),
        online: true,
    }];
    assert_eq!(resolve_peer(&peers, "SA-GRS.tail-abc-def.ts.net").unwrap().ipv4, "100.80.198.81");
    assert_eq!(resolve_peer(&peers, "sa-grs.tail-abc-def.ts.net.").unwrap().name, "sa-grs");
}

#[test]
fn status_output_reads_into_the_model() {
    let out = br#"{"BackendState":"Running","Self":{"DNSName":"me.tail.ts.net.","HostName":"me","Online":true,"TailscaleIPs":["100.64.0.1","fd7a::1"]},"Peer":{"nodekey:b":{"DNSName":"b.tail.ts.net.","HostName":"b","Online":false,"TailscaleIPs":["100.64.0.3"]},"nodekey:a":{"DNSName":"a.tail.ts.net.","HostName":7,"TailscaleIPs":[1,"100.64.0.2"]}}}"#;
    let s = urc::tailscale::parse_status_json(out).unwrap();
    assert_eq!(s.backend_state.as_deref(), Some("Running"));
    let me = s.self_node.unwrap();
    assert_eq!(me.dns_name.as_deref(), Some("me.tail.ts.net."));
    assert_eq!(me.online, Some(true));
    assert_eq!(me.tailscale_ips, Some(vec![Some("100.64.0.1".to_string()), Some("fd7a::1".to_string())]));
    let peers = s.peers.unwrap();
    assert_eq!(peers.len(), 2);
    assert_eq!(peers[0].dns_name.as_deref(), Some("a.tail.ts.net."));
    assert_eq!(peers[0].host_name, None);
    assert_eq!(peers[0].online, None);
    assert_eq!(peers[0].tailscale_ips, Some(vec![None, Some("100.64.0.2".to_string())]));
    assert_eq!(peers[1].host_name.as_deref(), Some("b"));
    assert_eq!(peers[1].online, Some(false));
}

#[test]
fn status_output_that_is_not_json_reads_as_none() {
    assert!(urc::tailscale::parse_status_json(b"not json").is_none());
    let s = urc::tailscale::parse_status_json(b"{}").unwrap();
    assert!(s.backend_state.is_none() && s.self_node.is_none() && s.peers.is_none());
}
