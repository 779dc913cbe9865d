//! The agent's link to the coordinator and its configuration defaults.

use vstd::prelude::*;
use crate::decimal::{decimal_seq, parse_u16, parse_unsigned, push_decimal};
use crate::protocol::{
    tunnel_target_port, AgentConfig, AgentMessage, EncryptionMode, TunnelTarget, DEFAULT_COORDINATOR_PORT,
    DEFAULT_FILES_PORT,
};
use crate::session::{copy_opt, ov};
use crate::text::{replace_all, replace_seq, trim, trim_seq};
use vstd::string::*;

verus! {

/// The WebSocket URL for a configured coordinator URL: every `https://`
/// becomes `wss://`, then every `http://` becomes `ws://`.
pub fn coordinator_ws_url(url: &str) -> (r: String)
    ensures
        r@ == replace_seq(replace_seq(url@, "https://"@, "wss://"@), "http://"@, "ws://"@),
{
    proof {
        reveal_strlit("https://");
        reveal_strlit("http://");
    }
    let first = replace_all(url, "https://", "wss://");
    replace_all(first.as_str(), "http://", "ws://")
}

/// The host id an agent registers under: configured, or `unknown`.
pub open spec fn register_host_id(config: AgentConfig) -> Seq<char> {
    match config.host_id {
        Some(h) => h@,
        None => "unknown"@,
    }
}

/// The registration an agent sends on connecting.
pub fn register_message(config: &AgentConfig, vnc_port: u16, tailscale_ip: Option<String>) -> (m: AgentMessage)
    ensures
        m matches AgentMessage::Register { host_id, token, tailscale_ip: ip, vnc_local_port, files_local_port }
            && host_id@ == register_host_id(*config) && token@ == (match config.token {
            Some(t) => t@,
            None => Seq::<char>::empty(),
        }) && ov(ip) == ov(tailscale_ip) && vnc_local_port == vnc_port && files_local_port
            == DEFAULT_FILES_PORT,
{
    let host_id = match &config.host_id {
        Some(h) => h.clone(),
        None => String::from_str("unknown"),
    };
    let token = match &config.token {
        Some(t) => t.clone(),
        None => String::new(),
    };
    AgentMessage::Register {
        host_id,
        token,
        tailscale_ip,
        vnc_local_port: vnc_port,
        files_local_port: DEFAULT_FILES_PORT,
    }
}

/// The periodic heartbeat.
pub fn heartbeat_message(host_id: &str) -> (m: AgentMessage)
    ensures
        m matches AgentMessage::Heartbeat { host_id: h } && h@ == host_id@,
{
    AgentMessage::Heartbeat { host_id: String::from_str(host_id) }
}

/// What the agent does with a message from the coordinator: a
/// `TunnelReady` asks it to open a relayed tunnel for that session to the
/// local port of the target; every other message is ignored.
pub fn tunnel_to_open(msg: &AgentMessage, vnc_port: u16) -> (r: Option<(u128, u16)>)
    ensures
        match *msg {
            AgentMessage::TunnelReady { session_id, target } => r == Some((
                session_id,
                if target == TunnelTarget::Vnc {
                    vnc_port
                } else {
                    DEFAULT_FILES_PORT
                },
            )),
            _ => r is None,
        },
{
    match msg {
        AgentMessage::TunnelReady { session_id, target } => Some((*session_id, tunnel_target_port(*target, vnc_port))),
        _ => None,
    }
}

/// Lower-case hexadecimal digit for `0 <= d < 16`.
pub open spec fn hex_lower(d: int) -> char {
    if d < 10 {
        crate::decimal::digit_char(d)
    } else if d == 10 {
        'a'
    } else if d == 11 {
        'b'
    } else if d == 12 {
        'c'
    } else if d == 13 {
        'd'
    } else if d == 14 {
        'e'
    } else {
        'f'
    }
}

/// The last `n` hexadecimal digits of `v`, most significant first.
pub open spec fn hex_digits(v: nat, n: nat) -> Seq<char>
    decreases n,
{
    if n == 0 {
        Seq::empty()
    } else {
        hex_digits(v / 16, (n - 1) as nat).push(hex_lower((v % 16) as int))
    }
}

/// The hyphenated form of a UUID: its 32 lower-case hex digits (big-endian)
/// in groups of 8, 4, 4, 4 and 12.
pub open spec fn uuid_hyphenated(id: u128) -> Seq<char> {
    let h = hex_digits(id as nat, 32);
    h.subrange(0, 8) + "-"@ + h.subrange(8, 12) + "-"@ + h.subrange(12, 16) + "-"@ + h.subrange(16, 20) + "-"@
        + h.subrange(20, 32)
}

/// `Uuid::from_u128(id).to_string()` (uuid crate). Contract: the hyphenated,
/// lower-case form of the 128-bit value, as the crate documents it.
#[verifier::external_body]
fn uuid_string(id: u128) -> (s: String)
    ensures
        s@ == uuid_hyphenated(id),
{
    uuid::Uuid::from_u128(id).to_string()
}

pub open spec fn tunnel_host_spec(host_env: Option<Seq<char>>) -> Seq<char> {
    match host_env {
        Some(h) => h,
        None => "127.0.0.1"@,
    }
}

pub open spec fn tunnel_port_spec(port_env: Option<Seq<char>>) -> nat {
    match port_env {
        Some(p) => match parse_unsigned(p, u16::MAX as nat) {
            Some(v) => v,
            None => DEFAULT_COORDINATOR_PORT as nat,
        },
        None => DEFAULT_COORDINATOR_PORT as nat,
    }
}

/// The relay URL of a tunnel session's agent leg:
/// `ws://{URC_COORDINATOR_HOST or 127.0.0.1}:{URC_COORDINATOR_PORT or 21150}/tunnel/agent/{id}`.
pub fn tunnel_url(host_env: &Option<String>, port_env: &Option<String>, session_id: u128) -> (u: String)
    ensures
        u@ == "ws://"@ + tunnel_host_spec(ov(*host_env)) + ":"@ + decimal_seq(tunnel_port_spec(ov(*port_env)))
            + "/tunnel/agent/"@ + uuid_hyphenated(session_id),
{
    let mut u = String::from_str("ws://");
    match host_env {
        Some(h) => u.append(h.as_str()),
        None => u.append("127.0.0.1"),
    }
    u.append(":");
    let port: u16 = match port_env {
        Some(p) => match parse_u16(p.as_str()) {
            Some(v) => v,
            None => DEFAULT_COORDINATOR_PORT,
        },
        None => DEFAULT_COORDINATOR_PORT,
    };
    push_decimal(&mut u, port as u64);
    u.append("/tunnel/agent/");
    u.append(uuid_string(session_id).as_str());
    u
}

// ---------------------------------------------------------------------
// Configuration
// ---------------------------------------------------------------------

/// The host id from `/etc/hostname` (`None` when unreadable): its trimmed
/// text, or `urc-host` trimmed.
pub fn hostname_id_from(contents: Option<String>) -> (r: String)
    ensures
        r@ == trim_seq(
            match contents {
                Some(c) => c@,
                None => "urc-host"@,
            },
        ),
{
    match contents {
        Some(c) => trim(c.as_str()),
        None => trim("urc-host"),
    }
}

/// Gives a configuration without a host id the given one.
pub fn fill_host_id(config: &mut AgentConfig, host_id: String)
    ensures
        old(config).host_id is Some ==> ov(final(config).host_id) == ov(old(config).host_id),
        old(config).host_id is None ==> ov(final(config).host_id) == Some(host_id@),
        final(config).coordinator_url@ == old(config).coordinator_url@,
        final(config).listen_tls_port == old(config).listen_tls_port,
        final(config).backend == old(config).backend,
        final(config).insecure == old(config).insecure,
{
    if config.host_id.is_none() {
        config.host_id = Some(host_id);
    }
}

/// `--insecure`: no TLS anywhere.
pub fn make_insecure(config: &mut AgentConfig)
    ensures
        final(config).insecure,
        final(config).encryption == EncryptionMode::Unencrypted,
        final(config).listen_tls_port == old(config).listen_tls_port,
        final(config).backend == old(config).backend,
        final(config).coordinator_url@ == old(config).coordinator_url@,
{
    config.insecure = true;
    config.encryption = EncryptionMode::Unencrypted;
}

/// A usable host name from `/etc/hostname` or `hostname -s`: trimmed, non-empty.
pub fn usable_hostname(text: &str) -> (r: Option<String>)
    ensures
        trim_seq(text@).len() > 0 ==> ov(r) == Some(trim_seq(text@)),
        trim_seq(text@).len() == 0 ==> r is None,
{
    let t = trim(text);
    if t.unicode_len() > 0 {
        Some(t)
    } else {
        None
    }
}

} // verus!
