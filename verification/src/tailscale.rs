//! Tailscale peer discovery from the output of `tailscale status --json`.
//!
//! The status document is modelled by [`TailscaleStatus`]: each field holds
//! what the logic reads from the JSON, `None` where the key is absent or its
//! value has another JSON type.

use vstd::prelude::*;
use serde_json::Value;
use crate::order::{is_stable_sort, stable_sort_order};
use crate::paths::path_join_seq;
use crate::paths::path_join;
use crate::protocol::opt_view;
use crate::text::{
    push_char, to_chars,
    contains_char, lemma_split_from_nonempty, split_char, split_seq, str_eq, to_lowercase,
    trim, trim_end_char, trim_end_char_seq, trim_seq, unicode_lowercase, views, seq_starts_with, starts_with,
};

verus! {

/// One node of the status document (`Self` or an entry of `Peer`).
#[derive(Debug, Clone)]
pub struct TailscaleNode {
    /// `DNSName`, when a string.
    pub dns_name: Option<String>,
    /// `HostName`, when a string.
    pub host_name: Option<String>,
    /// `Online`, when a boolean.
    pub online: Option<bool>,
    /// `TailscaleIPs`, when an array; each entry when a string.
    pub tailscale_ips: Option<Vec<Option<String>>>,
}

/// The parts of `tailscale status --json` that URC reads.
#[derive(Debug, Clone)]
pub struct TailscaleStatus {
    /// `BackendState`, when a string.
    pub backend_state: Option<String>,
    /// `Self`, when present.
    pub self_node: Option<TailscaleNode>,
    /// The values of `Peer` in key order, when `Peer` is an object.
    pub peers: Option<Vec<TailscaleNode>>,
}

/// What the bytes of `tailscale status --json` read as: the JSON document
/// taken down to [`TailscaleStatus`]; `None` when the bytes are not JSON.
pub uninterp spec fn status_of_json(bytes: Seq<u8>) -> Option<TailscaleStatus>;

/// Parses `bytes` with `serde_json::from_slice` into an untyped
/// `serde_json::Value` and copies out, field by field, the members that the
/// model documents (a member of another JSON type reads as `None`; `Peer`'s
/// values come in `serde_json::Map` order, which is key order). Claimed: the
/// result is [`status_of_json`] of the bytes; what serde_json accepts as JSON
/// is left to it.
#[verifier::external_body]
fn serde_status(bytes: &[u8]) -> (r: Option<TailscaleStatus>)
    ensures
        r == status_of_json(bytes@),
{
    let v: Value = serde_json::from_slice(bytes).ok()?;
    let s = |x: &Value| x.as_str().map(String::from);
    let node = |n: &Value| TailscaleNode {
        dns_name: n.get("DNSName").and_then(s),
        host_name: n.get("HostName").and_then(s),
        online: n.get("Online").and_then(Value::as_bool),
        tailscale_ips: n.get("TailscaleIPs").and_then(Value::as_array).map(|a| a.iter().map(s).collect()),
    };
    Some(TailscaleStatus {
        backend_state: v.get("BackendState").and_then(s),
        self_node: v.get("Self").map(node),
        peers: v.get("Peer").and_then(Value::as_object).map(|m| m.values().map(node).collect()),
    })
}

/// The status model of `tailscale status --json` output; `None` when the
/// output is not JSON.
pub fn parse_status_json(bytes: &[u8]) -> (r: Option<TailscaleStatus>)
    ensures
        r == status_of_json(bytes@),
{
    serde_status(bytes)
}

/// A remote machine on the tailnet.
#[derive(Debug, Clone)]
pub struct TailscalePeer {
    pub name: String,
    pub dns_name: String,
    pub ipv4: String,
    pub online: bool,
}

pub struct PeerView {
    pub name: Seq<char>,
    pub dns_name: Seq<char>,
    pub ipv4: Seq<char>,
    pub online: bool,
}

impl TailscalePeer {
    /// A field-by-field copy.
    pub fn duplicate(&self) -> (r: TailscalePeer)
        ensures
            r@ == self@,
    {
        TailscalePeer {
            name: self.name.clone(),
            dns_name: self.dns_name.clone(),
            ipv4: self.ipv4.clone(),
            online: self.online,
        }
    }
}

impl View for TailscalePeer {
    type V = PeerView;

    open spec fn view(&self) -> PeerView {
        PeerView { name: self.name@, dns_name: self.dns_name@, ipv4: self.ipv4@, online: self.online }
    }
}

// ---------------------------------------------------------------------
// Specification
// ---------------------------------------------------------------------

pub open spec fn is_ipv4_entry(e: Option<String>) -> bool {
    e matches Some(s) && !s@.contains(':')
}

/// The first address of the list that is a string without `:`.
pub open spec fn first_ipv4(ips: Seq<Option<String>>) -> Option<Seq<char>>
    decreases ips.len(),
{
    if ips.len() == 0 {
        None
    } else if is_ipv4_entry(ips[0]) {
        Some(ips[0]->0@)
    } else {
        first_ipv4(ips.drop_first())
    }
}

pub open spec fn node_ipv4(n: TailscaleNode) -> Option<Seq<char>> {
    match n.tailscale_ips {
        Some(ips) => first_ipv4(ips@),
        None => None,
    }
}

/// The host label of a MagicDNS name: the part before the first dot, once
/// trailing dots are removed.
pub open spec fn short_name_seq(dns: Seq<char>) -> Seq<char> {
    split_seq(trim_end_char_seq(dns, '.'), '.')[0]
}

pub open spec fn opt_text(o: Option<String>) -> Seq<char> {
    match o {
        Some(s) => s@,
        None => Seq::empty(),
    }
}

/// The peer a node describes, when it has an IPv4 address.
pub open spec fn peer_of_node(n: TailscaleNode) -> Option<PeerView> {
    match node_ipv4(n) {
        None => None,
        Some(ip) => {
            let dns = opt_text(n.dns_name);
            let name = match n.host_name {
                Some(h) => if h@.len() > 0 {
                    h@
                } else {
                    short_name_seq(dns)
                },
                None => short_name_seq(dns),
            };
            Some(
                PeerView {
                    name: name,
                    dns_name: dns,
                    ipv4: ip,
                    online: match n.online {
                        Some(b) => b,
                        None => false,
                    },
                },
            )
        },
    }
}

/// A node with an IPv4 address describes a peer named by its `HostName`
/// whenever that is present and not empty, whatever its DNS name; only a
/// missing or empty `HostName` falls back to the MagicDNS label (the part
/// of `DNSName` before its first dot). The peer keeps the node's DNS name
/// and first IPv4 address, and is online only when `Online` is `true`. A
/// node without an IPv4 address describes none.
pub proof fn law_peer_named_by_hostname(n: TailscaleNode)
    ensures
        node_ipv4(n) is None ==> peer_of_node(n) is None,
        node_ipv4(n) matches Some(ip) ==> (peer_of_node(n) matches Some(p) && p.ipv4 == ip && p.dns_name
            == opt_text(n.dns_name) && p.online == (n.online == Some(true))),
        node_ipv4(n) is Some && (n.host_name matches Some(h) && h@.len() > 0) ==> (peer_of_node(n) matches Some(
            p,
        ) && p.name == n.host_name->0@),
        node_ipv4(n) is Some && !(n.host_name matches Some(h) && h@.len() > 0) ==> (peer_of_node(n) matches Some(
            p,
        ) && p.name == split_seq(trim_end_char_seq(opt_text(n.dns_name), '.'), '.')[0]),
{
}

/// The peers that the nodes describe, in order.
pub open spec fn peers_of_nodes(nodes: Seq<TailscaleNode>) -> Seq<PeerView>
    decreases nodes.len(),
{
    if nodes.len() == 0 {
        Seq::empty()
    } else {
        let rest = peers_of_nodes(nodes.drop_last());
        match peer_of_node(nodes.last()) {
            Some(p) => rest.push(p),
            None => rest,
        }
    }
}

pub open spec fn backend_state_spec(st: TailscaleStatus) -> Seq<char> {
    match st.backend_state {
        Some(s) => s@,
        None => "Unknown"@,
    }
}

/// The advice printed for a daemon state other than `Running`.
pub open spec fn state_hint(state: Seq<char>) -> Seq<char> {
    if state == "NeedsMachineAuth"@ {
        "Approve this machine in the Tailscale admin console."@
    } else if state == "Starting"@ {
        "Tailscale is still connecting — retry in a few seconds."@
    } else {
        "Run: tailscale up"@
    }
}

/// Whether the `Self` node is flagged offline (a missing flag counts as online).
pub open spec fn self_flagged_offline(st: TailscaleStatus) -> bool {
    match st.self_node {
        Some(n) => n.online == Some(false),
        None => false,
    }
}

// ---------------------------------------------------------------------
// Errors
// ---------------------------------------------------------------------

/// Why this machine cannot reach its tailnet.
#[derive(Debug, Clone)]
pub enum TailscaleError {
    /// The daemon runs but the control plane reports this machine offline.
    SelfOffline,
    /// The daemon is in another state than `Running`.
    NotConnected { state: String },
}

pub open spec fn self_offline_text() -> Seq<char> {
    "Tailscale is running locally but this machine is offline on the tailnet (control plane has not seen it).\nTry: tailscale down && tailscale up"@
}

pub open spec fn not_connected_text(state: Seq<char>) -> Seq<char> {
    "Tailscale is not connected on this machine (BackendState="@ + state + ").\n"@ + state_hint(
        state,
    )
}

impl TailscaleError {
    pub open spec fn text(&self) -> Seq<char> {
        match self {
            TailscaleError::SelfOffline => self_offline_text(),
            TailscaleError::NotConnected { state } => not_connected_text(state@),
        }
    }

    /// The message shown to the user.
    pub fn message(&self) -> (m: String)
        ensures
            m@ == self.text(),
    {
        match self {
            TailscaleError::SelfOffline => String::from_str(
                "Tailscale is running locally but this machine is offline on the tailnet (control plane has not seen it).\nTry: tailscale down && tailscale up",
            ),
            TailscaleError::NotConnected { state } => {
                let mut m = String::from_str("Tailscale is not connected on this machine (BackendState=");
                m.append(state.as_str());
                m.append(").\n");
                m.append(hint_for_state(state.as_str()));
                m
            },
        }
    }
}

fn hint_for_state(state: &str) -> (h: &'static str)
    ensures
        h@ == state_hint(state@),
{
    if str_eq(state, "NeedsMachineAuth") {
        "Approve this machine in the Tailscale admin console."
    } else if str_eq(state, "Starting") {
        "Tailscale is still connecting — retry in a few seconds."
    } else {
        "Run: tailscale up"
    }
}

// ---------------------------------------------------------------------
// Operations
// ---------------------------------------------------------------------

/// The first IPv4 address (an entry without `:`) of a node.
pub fn peer_ipv4(node: &TailscaleNode) -> (r: Option<String>)
    ensures
        match node_ipv4(*node) {
            Some(ip) => r matches Some(s) && s@ == ip,
            None => r is None,
        },
{
    match &node.tailscale_ips {
        None => None,
        Some(ips) => {
            let n = ips.len();
            let mut i: usize = 0;
            assert(ips@.subrange(0, n as int) =~= ips@);
            while i < n
                invariant
                    n == ips@.len(),
                    i <= n,
                    node_ipv4(*node) == first_ipv4(ips@),
                    first_ipv4(ips@) == first_ipv4(ips@.subrange(i as int, n as int)),
                decreases n - i,
            {
                let ghost sub = ips@.subrange(i as int, n as int);
                assert(sub.drop_first() =~= ips@.subrange(i + 1, n as int));
                assert(sub[0] == ips@[i as int]);
                match &ips[i] {
                    Some(s) => {
                        if !contains_char(s.as_str(), ':') {
                            return Some(s.clone());
                        }
                    },
                    None => {},
                }
                i = i + 1;
            }
            assert(ips@.subrange(n as int, n as int) =~= Seq::<Option<String>>::empty());
            None
        },
    }
}

/// IPv4 address of this machine on the tailnet.
pub fn self_ipv4(status: &TailscaleStatus) -> (r: Option<String>)
    ensures
        match status.self_node {
            Some(n) => match node_ipv4(n) {
                Some(ip) => r matches Some(s) && s@ == ip,
                None => r is None,
            },
            None => r is None,
        },
{
    match &status.self_node {
        Some(n) => peer_ipv4(n),
        None => None,
    }
}

/// MagicDNS name of this machine with trailing dots removed; `None` when
/// absent or empty.
pub fn self_dns_name(status: &TailscaleStatus) -> (r: Option<String>)
    ensures
        match status.self_node {
            Some(n) => match n.dns_name {
                Some(d) => if trim_end_char_seq(d@, '.').len() > 0 {
                    r matches Some(s) && s@ == trim_end_char_seq(d@, '.')
                } else {
                    r is None
                },
                None => r is None,
            },
            None => r is None,
        },
{
    match &status.self_node {
        Some(n) => match &n.dns_name {
            Some(d) => {
                let t = trim_end_char(d.as_str(), '.');
                if t.unicode_len() > 0 {
                    Some(t)
                } else {
                    None
                }
            },
            None => None,
        },
        None => None,
    }
}

/// Local daemon state (`NoState`, `NeedsLogin`, `NeedsMachineAuth`, `Stopped`,
/// `Starting`, `Running`), or `Unknown` when the field is missing.
pub fn local_backend_state(status: &TailscaleStatus) -> (r: &str)
    ensures
        r@ == backend_state_spec(*status),
{
    match &status.backend_state {
        Some(s) => s.as_str(),
        None => "Unknown",
    }
}

/// Whether this machine's tailnet membership is healthy enough to reach
/// peers: the daemon is `Running` and `Self` is not flagged offline.
pub fn ensure_local_running(status: &TailscaleStatus) -> (r: Result<(), TailscaleError>)
    ensures
        backend_state_spec(*status) == "Running"@ && !self_flagged_offline(*status) ==> r is Ok,
        backend_state_spec(*status) == "Running"@ && self_flagged_offline(*status) ==> r matches Err(
            TailscaleError::SelfOffline,
        ),
        backend_state_spec(*status) != "Running"@ ==> (r matches Err(
            TailscaleError::NotConnected { state },
        ) && state@ == backend_state_spec(*status)),
{
    let state = local_backend_state(status);
    if str_eq(state, "Running") {
        let self_online = match &status.self_node {
            Some(n) => match n.online {
                Some(b) => b,
                None => true,
            },
            None => true,
        };
        if !self_online {
            return Err(TailscaleError::SelfOffline);
        }
        return Ok(());
    }
    Err(TailscaleError::NotConnected { state: String::from_str(state) })
}

/// The host label of a MagicDNS name (`my-pc.tailnet.ts.net.` gives `my-pc`).
pub fn short_name(dns_name: &str) -> (r: String)
    ensures
        r@ == short_name_seq(dns_name@),
{
    let t = trim_end_char(dns_name, '.');
    let pieces = split_char(t.as_str(), '.');
    proof {
        lemma_split_from_nonempty(t@, '.', Seq::empty());
        assert(views(pieces@)[0] == pieces@[0]@);
    }
    pieces[0].clone()
}


/// The peer a status node describes; `None` without an IPv4 address.
pub fn peer_from_node(node: &TailscaleNode) -> (r: Option<TailscalePeer>)
    ensures
        match peer_of_node(*node) {
            Some(p) => r matches Some(q) && q@ == p,
            None => r is None,
        },
{
    let ipv4 = match peer_ipv4(node) {
        Some(ip) => ip,
        None => return None,
    };
    let dns = match &node.dns_name {
        Some(d) => d.clone(),
        None => String::new(),
    };
    let hostname = match &node.host_name {
        Some(h) => if h.unicode_len() > 0 {
            h.clone()
        } else {
            short_name(dns.as_str())
        },
        None => short_name(dns.as_str()),
    };
    let online = match node.online {
        Some(b) => b,
        None => false,
    };
    Some(TailscalePeer { name: hostname, dns_name: dns, ipv4, online })
}

pub open spec fn peer_nodes(status: TailscaleStatus) -> Seq<TailscaleNode> {
    match status.peers {
        Some(v) => v@,
        None => Seq::empty(),
    }
}

pub open spec fn peer_names(ps: Seq<PeerView>) -> Seq<Seq<char>> {
    ps.map_values(|p: PeerView| p.name)
}

pub open spec fn peer_views(ps: Seq<TailscalePeer>) -> Seq<PeerView> {
    ps.map_values(|p: TailscalePeer| p@)
}

/// All remote peers with an IPv4 address, stably sorted by name.
pub fn list_peers(status: &TailscaleStatus) -> (r: Vec<TailscalePeer>)
    ensures
        exists|perm: Seq<usize>|
            #![trigger is_stable_sort(peer_names(peers_of_nodes(peer_nodes(*status))), perm)]
            is_stable_sort(peer_names(peers_of_nodes(peer_nodes(*status))), perm) && peer_views(r@)
                == perm.map_values(|i: usize| peers_of_nodes(peer_nodes(*status))[i as int]),
{
    let ghost nodes = peer_nodes(*status);
    let mut found: Vec<TailscalePeer> = Vec::new();
    match &status.peers {
        None => {
            assert(peer_views(found@) =~= peers_of_nodes(nodes));
        },
        Some(ns) => {
            let n = ns.len();
            let mut i: usize = 0;
            assert(ns@.subrange(0, 0) =~= Seq::<TailscaleNode>::empty());
            while i < n
                invariant
                    n == ns@.len(),
                    nodes == ns@,
                    i <= n,
                    peer_views(found@) == peers_of_nodes(ns@.subrange(0, i as int)),
                decreases n - i,
            {
                let ghost sub = ns@.subrange(0, i + 1);
                assert(sub.drop_last() =~= ns@.subrange(0, i as int));
                let ghost old_found = found@;
                match peer_from_node(&ns[i]) {
                    Some(p) => {
                        found.push(p);
                        assert(peer_views(found@) =~= peer_views(old_found).push(p@));
                    },
                    None => {},
                }
                i = i + 1;
            }
            assert(ns@.subrange(0, n as int) =~= ns@);
        },
    }
    let ghost ps = peers_of_nodes(nodes);
    let mut keys: Vec<Vec<char>> = Vec::new();
    let mut k: usize = 0;
    while k < found.len()
        invariant
            peer_views(found@) == ps,
            k <= found@.len(),
            keys@.len() == k,
            forall|m: int| 0 <= m < k ==> #[trigger] keys@[m]@ == found@[m].name@,
        decreases found@.len() - k,
    {
        keys.push(to_chars(found[k].name.as_str()));
        k = k + 1;
    }
    assert(keys@.map_values(|kk: Vec<char>| kk@) =~= peer_names(ps)) by {
        assert forall|m: int| 0 <= m < ps.len() implies #[trigger] peer_names(ps)[m] == keys@[m]@ by {
            assert(ps[m] == found@[m]@);
        }
    }
    let perm = stable_sort_order(&keys);
    let mut out: Vec<TailscalePeer> = Vec::new();
    let mut j: usize = 0;
    while j < perm.len()
        invariant
            peer_views(found@) == ps,
            is_stable_sort(peer_names(ps), perm@),
            j <= perm@.len(),
            peer_views(out@) == perm@.subrange(0, j as int).map_values(|x: usize| ps[x as int]),
        decreases perm@.len() - j,
    {
        let idx = perm[j];
        assert(perm@[j as int] < ps.len());
        let p = found[idx].duplicate();
        assert(peer_views(found@)[idx as int] == found@[idx as int]@);
        assert(p@ == ps[idx as int]);
        let ghost old_out = out@;
        out.push(p);
        assert(peer_views(out@) =~= peer_views(old_out).push(p@));
        assert(perm@.subrange(0, j + 1) =~= perm@.subrange(0, j as int).push(idx));
        assert(peer_views(out@) =~= perm@.subrange(0, j + 1).map_values(|x: usize| ps[x as int]));
        j = j + 1;
    }
    assert(perm@.subrange(0, perm@.len() as int) =~= perm@);
    out
}

/// The query a peer lookup compares against: trimmed, trailing dots removed,
/// lower-cased.
pub open spec fn normalized_query(q: Seq<char>) -> Seq<char> {
    unicode_lowercase(trim_end_char_seq(trim_seq(q), '.'))
}

/// A peer answers to `q` by hostname, full MagicDNS name (trailing dots
/// ignored), its short label, or
/// a MagicDNS name that starts with `q.`; all compared case-insensitively.
pub open spec fn peer_matches(p: PeerView, q: Seq<char>) -> bool {
    ||| unicode_lowercase(p.name) == q
    ||| unicode_lowercase(trim_end_char_seq(p.dns_name, '.')) == q
    ||| unicode_lowercase(short_name_seq(p.dns_name)) == q
    ||| seq_starts_with(unicode_lowercase(trim_end_char_seq(p.dns_name, '.')), q.push('.'))
}

fn matches_query(p: &TailscalePeer, q: &String, q_dot: &String) -> (b: bool)
    requires
        q_dot@ == q@.push('.'),
    ensures
        b == peer_matches(p@, q@),
{
    str_eq(to_lowercase(p.name.as_str()).as_str(), q.as_str()) || str_eq(
        to_lowercase(trim_end_char(p.dns_name.as_str(), '.').as_str()).as_str(),
        q.as_str(),
    ) || str_eq(to_lowercase(short_name(p.dns_name.as_str()).as_str()).as_str(), q.as_str())
        || starts_with(
        to_lowercase(trim_end_char(p.dns_name.as_str(), '.').as_str()).as_str(),
        q_dot.as_str(),
    )
}

/// Finds the first peer that answers to `query` (see [`peer_matches`]);
/// an empty normalized query finds nothing.
pub fn resolve_peer<'a>(peers: &'a [TailscalePeer], query: &str) -> (r: Option<&'a TailscalePeer>)
    ensures
        normalized_query(query@).len() == 0 ==> r is None,
        normalized_query(query@).len() > 0 ==> match r {
            Some(p) => exists|i: int|
                0 <= i < peers@.len() && *p == peers@[i] && peer_matches(
                    peers@[i]@,
                    normalized_query(query@),
                ) && forall|j: int|
                    0 <= j < i ==> !peer_matches(#[trigger] peers@[j]@, normalized_query(query@)),
            None => forall|i: int|
                0 <= i < peers@.len() ==> !peer_matches(#[trigger] peers@[i]@, normalized_query(query@)),
        },
{
    let trimmed = trim(query);
    let q = to_lowercase(trim_end_char(trimmed.as_str(), '.').as_str());
    if q.unicode_len() == 0 {
        return None;
    }
    let mut q_dot = q.clone();
    push_char(&mut q_dot, '.');
    let mut i: usize = 0;
    while i < peers.len()
        invariant
            q@ == normalized_query(query@),
            q@.len() > 0,
            q_dot@ == q@.push('.'),
            i <= peers@.len(),
            forall|j: int| 0 <= j < i ==> !peer_matches(#[trigger] peers@[j]@, q@),
        decreases peers@.len() - i,
    {
        if matches_query(&peers[i], &q, &q_dot) {
            return Some(&peers[i]);
        }
        i = i + 1;
    }
    None
}


// ---------------------------------------------------------------------
// Locating the `tailscale` CLI
// ---------------------------------------------------------------------

/// The well-known install locations, tried after `PATH`.
pub open spec fn default_candidates_spec() -> Seq<Seq<char>> {
    seq!["/usr/local/bin/tailscale"@, "/opt/homebrew/bin/tailscale"@, "/usr/bin/tailscale"@]
}

/// The well-known install locations of the CLI.
pub fn default_candidates() -> (v: Vec<String>)
    ensures
        views(v@) == default_candidates_spec(),
{
    let mut v: Vec<String> = Vec::new();
    v.push(String::from_str("/usr/local/bin/tailscale"));
    v.push(String::from_str("/opt/homebrew/bin/tailscale"));
    v.push(String::from_str("/usr/bin/tailscale"));
    proof {
        reveal_strlit("/usr/local/bin/tailscale");
        reveal_strlit("/opt/homebrew/bin/tailscale");
        reveal_strlit("/usr/bin/tailscale");
    }
    assert(views(v@) =~= default_candidates_spec());
    v
}

/// `dir/tailscale` for each non-empty directory of a `PATH` list, in order.
pub open spec fn dir_candidates(dirs: Seq<Seq<char>>) -> Seq<Seq<char>>
    decreases dirs.len(),
{
    if dirs.len() == 0 {
        Seq::empty()
    } else {
        let rest = dir_candidates(dirs.drop_last());
        if dirs.last().len() > 0 {
            rest.push(path_join_seq(dirs.last(), "tailscale"@))
        } else {
            rest
        }
    }
}

/// Where the CLI is looked for.
#[derive(Debug)]
pub enum BinSearch {
    /// The variable `key` is set to `path` (trimmed, non-empty): nothing else
    /// is tried.
    Explicit { key: String, path: String },
    /// The directories of `PATH`, then the well-known locations, in order.
    Search { candidates: Vec<String> },
}

/// The variable that names the CLI explicitly: `URC_TAILSCALE_BIN`, else
/// `TAILSCALE_BIN`, skipping one whose trimmed value is empty.
pub open spec fn explicit_bin(urc_bin: Option<Seq<char>>, ts_bin: Option<Seq<char>>) -> Option<(Seq<char>, Seq<char>)> {
    if urc_bin is Some && trim_seq(urc_bin->0).len() > 0 {
        Some(("URC_TAILSCALE_BIN"@, trim_seq(urc_bin->0)))
    } else if ts_bin is Some && trim_seq(ts_bin->0).len() > 0 {
        Some(("TAILSCALE_BIN"@, trim_seq(ts_bin->0)))
    } else {
        None
    }
}

/// The candidates tried when no variable names the CLI.
pub open spec fn searched_candidates(path_var: Option<Seq<char>>) -> Seq<Seq<char>> {
    match path_var {
        Some(p) => dir_candidates(split_seq(p, ':')) + default_candidates_spec(),
        None => default_candidates_spec(),
    }
}

/// The search for the CLI given the values of `URC_TAILSCALE_BIN`,
/// `TAILSCALE_BIN` and `PATH` (`None` where unset).
pub fn tailscale_bin_search(urc_bin: &Option<String>, ts_bin: &Option<String>, path_var: &Option<String>) -> (r: BinSearch)
    ensures
        match explicit_bin(opt_view(*urc_bin), opt_view(*ts_bin)) {
            Some((k, p)) => r matches BinSearch::Explicit { key, path } && key@ == k && path@ == p,
            None => r matches BinSearch::Search { candidates } && views(candidates@) == searched_candidates(
                opt_view(*path_var),
            ),
        },
{
    proof {
        reveal_strlit("URC_TAILSCALE_BIN");
        reveal_strlit("TAILSCALE_BIN");
    }
    if let Some(v) = urc_bin {
        let t = trim(v.as_str());
        if t.unicode_len() > 0 {
            return BinSearch::Explicit { key: String::from_str("URC_TAILSCALE_BIN"), path: t };
        }
    }
    if let Some(v) = ts_bin {
        let t = trim(v.as_str());
        if t.unicode_len() > 0 {
            return BinSearch::Explicit { key: String::from_str("TAILSCALE_BIN"), path: t };
        }
    }
    let mut out: Vec<String> = Vec::new();
    if let Some(p) = path_var {
        let dirs = split_char(p.as_str(), ':');
        let ghost d = views(dirs@);
        let mut i: usize = 0;
        while i < dirs.len()
            invariant
                i <= dirs.len(),
                d == views(dirs@),
                views(out@) == dir_candidates(d.subrange(0, i as int)),
            decreases dirs.len() - i,
        {
            let ghost before = views(out@);
            assert(d.subrange(0, i + 1).drop_last() =~= d.subrange(0, i as int));
            if dirs[i].unicode_len() > 0 {
                let c = path_join(dirs[i].as_str(), "tailscale");
                out.push(c);
                assert(views(out@) =~= before.push(c@));
            }
            i = i + 1;
        }
        assert(d.subrange(0, dirs.len() as int) =~= d);
    }
    let ghost front = views(out@);
    let defaults = default_candidates();
    let mut j: usize = 0;
    while j < defaults.len()
        invariant
            j <= defaults.len(),
            views(defaults@) == default_candidates_spec(),
            views(out@) == front + default_candidates_spec().subrange(0, j as int),
        decreases defaults.len() - j,
    {
        let ghost before = views(out@);
        let c = defaults[j].clone();
        out.push(c);
        assert(views(out@) =~= before.push(defaults@[j as int]@));
        assert(default_candidates_spec().subrange(0, j + 1) =~= default_candidates_spec().subrange(0, j as int).push(defaults@[j as int]@));
        assert(views(out@) =~= front + default_candidates_spec().subrange(0, j + 1));
        j = j + 1;
    }
    assert(default_candidates_spec().subrange(0, 3) =~= default_candidates_spec());
    BinSearch::Search { candidates: out }
}

pub open spec fn not_executable_text(key: Seq<char>, path: Seq<char>) -> Seq<char> {
    key + " is set but not executable: "@ + path
}

pub open spec fn cli_not_found_text() -> Seq<char> {
    "tailscale CLI not found. Install Tailscale: https://tailscale.com/download\nOr set URC_TAILSCALE_BIN to the Tailscale binary inside Tailscale.app."@
}

/// The first `i` with `ok[i]`.
pub open spec fn first_true(ok: Seq<bool>) -> Option<int>
    decreases ok.len(),
{
    if ok.len() == 0 {
        None
    } else {
        match first_true(ok.drop_last()) {
            Some(i) => Some(i),
            None => if ok.last() {
                Some(ok.len() - 1)
            } else {
                None
            },
        }
    }
}

/// How many paths a search probes.
pub open spec fn search_len(s: BinSearch) -> nat {
    match s {
        BinSearch::Explicit { .. } => 1nat,
        BinSearch::Search { candidates } => candidates@.len(),
    }
}

/// The CLI to run, given for each probed path (in search order) whether it
/// is an executable file: the first executable one; else the error message.
pub fn choose_tailscale_bin(search: &BinSearch, executable: &Vec<bool>) -> (r: Result<String, String>)
    requires
        executable.len() == search_len(*search),
    ensures
        match search {
            BinSearch::Explicit { key, path } => if executable@[0] {
                r matches Ok(p) && p@ == path@
            } else {
                r matches Err(m) && m@ == not_executable_text(key@, path@)
            },
            BinSearch::Search { candidates } => match first_true(executable@) {
                Some(i) => r matches Ok(p) && p@ == candidates@[i]@,
                None => r matches Err(m) && m@ == cli_not_found_text(),
            },
        },
{
    match search {
        BinSearch::Explicit { key, path } => {
            if executable[0] {
                Ok(path.clone())
            } else {
                let mut m = key.clone();
                m.append(" is set but not executable: ");
                m.append(path.as_str());
                Err(m)
            }
        },
        BinSearch::Search { candidates } => {
            let mut i: usize = 0;
            while i < executable.len()
                invariant
                    i <= executable.len(),
                    executable.len() == candidates.len(),
                    search matches BinSearch::Search { candidates: c } && c@ == candidates@,
                    first_true(executable@.subrange(0, i as int)) is None,
                decreases executable.len() - i,
            {
                assert(executable@.subrange(0, i + 1).drop_last() =~= executable@.subrange(0, i as int));
                if executable[i] {
                    proof {
                        lemma_first_true_prefix(executable@, i as int);
                    }
                    let p = candidates[i].clone();
                    assert(p@ == candidates@[i as int]@);
                    return Ok(p);
                }
                i = i + 1;
            }
            assert(executable@.subrange(0, executable.len() as int) =~= executable@);
            Err(String::from_str(
                "tailscale CLI not found. Install Tailscale: https://tailscale.com/download\nOr set URC_TAILSCALE_BIN to the Tailscale binary inside Tailscale.app.",
            ))
        },
    }
}

/// A first `true` found in a prefix is the first `true` of the whole.
proof fn lemma_first_true_prefix(ok: Seq<bool>, i: int)
    requires
        0 <= i < ok.len(),
        ok[i],
        first_true(ok.subrange(0, i)) is None,
    ensures
        first_true(ok) == Some(i),
    decreases ok.len() - i,
{
    if i == ok.len() - 1 {
        assert(ok.drop_last() =~= ok.subrange(0, i));
    } else {
        assert(ok.drop_last().subrange(0, i) =~= ok.subrange(0, i));
        lemma_first_true_prefix(ok.drop_last(), i);
    }
}

} // verus!
