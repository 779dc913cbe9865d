use urc::share::{build_uri, encode, pairing_link, ShareError};
use urc::tailscale::{TailscaleError, TailscaleNode, TailscaleStatus};

#[test]
fn encode_leaves_unreserved_chars() {
    assert_eq!(encode("my-pc.tail-scale.ts.net"), "my-pc.tail-scale.ts.net");
    assert_eq!(encode("100.64.0.1"), "100.64.0.1");
}

#[test]
fn encode_escapes_spaces_and_specials() {
    assert_eq!(encode("My Laptop"), "My%20Laptop");
    assert_eq!(encode("a&b=c"), "a%26b%3Dc");
}

#[test]
fn build_uri_assembles_query() {
    let uri = build_uri("100.64.0.1", "host.ts.net", 15901, "My PC");
    assert_eq!(
        uri,
        "urc://connect?host=100.64.0.1&magicdns=host.ts.net&port=15901&name=My%20PC"
    );
}

#[test]
fn encode_escapes_multibyte_utf8_per_byte() {
    assert_eq!(encode("é~_"), "%C3%A9~_");
    assert_eq!(encode(""), "");
}

fn node(dns: &str, ips: &[&str], online: Option<bool>) -> TailscaleNode {
    TailscaleNode {
        dns_name: Some(dns.to_string()),
        host_name: None,
        online,
        tailscale_ips: Some(ips.iter().map(|s| Some(s.to_string())).collect()),
    }
}

fn status(state: &str, self_node: Option<TailscaleNode>) -> TailscaleStatus {
    TailscaleStatus { backend_state: Some(state.to_string()), self_node, peers: None }
}

#[test]
fn pairing_link_uses_self_addresses_and_web_port() {
    let st = status("Running", Some(node("my-pc.tail.ts.net.", &["fd7a::1", "100.64.0.7"], Some(true))));
    let link = pairing_link(&st, "My PC").ok().unwrap();
    assert_eq!(
        link.uri,
        "urc://connect?host=100.64.0.7&magicdns=my-pc.tail.ts.net&port=15901&name=My%20PC"
    );
    // The QR rendering is a non-empty block of text, one row per line.
    assert!(!link.qr.is_empty());
    assert!(link.qr.lines().count() > 10);
    assert_ne!(link.qr, link.uri);
}

#[test]
fn pairing_link_errors() {
    let stopped = status("Stopped", None);
    match pairing_link(&stopped, "x") {
        Err(ShareError::Tailscale(TailscaleError::NotConnected { state })) => assert_eq!(state, "Stopped"),
        other => panic!("unexpected {other:?}"),
    }
    let offline = status("Running", Some(node("a.ts.net", &["100.1.1.1"], Some(false))));
    assert!(matches!(pairing_link(&offline, "x"), Err(ShareError::Tailscale(TailscaleError::SelfOffline))));
    let no_ip = status("Running", Some(node("a.ts.net", &["fd7a::1"], Some(true))));
    let e = pairing_link(&no_ip, "x").err().unwrap();
    assert!(matches!(e, ShareError::NoIpv4));
    assert_eq!(e.message(), "this machine has no tailnet IPv4 — run: tailscale up");
    let no_dns = status("Running", Some(node("...", &["100.1.1.1"], None)));
    let e = pairing_link(&no_dns, "x").err().unwrap();
    assert!(matches!(e, ShareError::NoMagicDns));
    assert_eq!(e.message(), "this machine has no MagicDNS name — is MagicDNS enabled on your tailnet?");
}

#[test]
fn pairing_link_too_long_for_a_qr_code() {
    let st = status("Running", Some(node("a.ts.net", &["100.1.1.1"], None)));
    let name = "x".repeat(8000);
    let e = pairing_link(&st, &name).err().unwrap();
    assert!(matches!(e, ShareError::QrEncode));
    assert_eq!(e.message(), "encode pairing QR code");
}

#[test]
fn encoded_values_hold_no_link_delimiters() {
    let out = encode("a&b=c #frag?x/y+z é");
    assert!(out.chars().all(|c| c.is_ascii_alphanumeric() || "-_.~%".contains(c)));
    assert_eq!(out, "a%26b%3Dc%20%23frag%3Fx%2Fy%2Bz%20%C3%A9");
}

fn pct_decode(s: &str) -> Vec<u8> {
    let b = s.as_bytes();
    let mut out = Vec::new();
    let mut i = 0;
    while i < b.len() {
        if b[i] == b'%' {
            out.push(u8::from_str_radix(&s[i + 1..i + 3], 16).unwrap());
            i += 3;
        } else {
            out.push(b[i]);
            i += 1;
        }
    }
    out
}

#[test]
fn encoding_decodes_back_and_is_identity_only_on_unreserved_text() {
    for v in ["My PC", "a&b=c", "é~_-.", "100.64.0.1", ""] {
        assert_eq!(pct_decode(&encode(v)), v.as_bytes());
        assert_eq!(encode(v) == v, v.bytes().all(|c| c.is_ascii_alphanumeric() || b"-_.~".contains(&c)));
    }
}

#[test]
fn pairing_link_query_splits_into_four_pairs() {
    let uri = build_uri("100.64.0.1", "a&b.ts.net", 15901, "Ana's PC=1");
    let query = uri.strip_prefix("urc://connect?").unwrap();
    let pairs: Vec<(&str, &str)> = query.split('&').map(|p| p.split_once('=').unwrap()).collect();
    assert_eq!(pairs.iter().map(|p| p.0).collect::<Vec<_>>(), vec!["host", "magicdns", "port", "name"]);
    assert_eq!(pct_decode(pairs[1].1), b"a&b.ts.net");
    assert_eq!(pairs[2].1, "15901");
    assert_eq!(pct_decode(pairs[3].1), "Ana's PC=1".as_bytes());
}
