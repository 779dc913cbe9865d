//! The `urc` client's logic: background session bookkeeping, peer choice
//! for `urc connect`, and the tables `urc hosts` / `urc sessions` print.
//!
//! Each backgrounded `urc connect` writes a descriptor `<host>.json` in the
//! sessions directory; `urc kill TARGET` matches by pid or host.

use vstd::prelude::*;
use crate::clock::{saturating_sub_spec, unix_now_secs};
use crate::decimal::{decimal_seq, decimal_string, parse_u32, parse_unsigned, push_decimal};
use crate::order::{is_stable_sort, stable_sort_order};
use crate::paths::{path_join, path_join_seq};
use crate::protocol::DEFAULT_TLS_LISTEN_PORT;
use crate::session::{copy_opt, ov};
use crate::tailscale::{normalized_query, peer_matches, resolve_peer, PeerView, TailscalePeer};
use crate::text::{pad_right_seq, push_padded, str_eq, to_chars};
use vstd::string::*;

verus! {

/// A backgrounded tunnel.
#[derive(Debug)]
pub struct Session {
    pub host: String,
    pub ip: String,
    pub pid: u32,
    pub local_port: u16,
    pub url: String,
    pub started_at_unix: u64,
}

pub struct SessionView {
    pub host: Seq<char>,
    pub ip: Seq<char>,
    pub pid: u32,
    pub local_port: u16,
    pub url: Seq<char>,
    pub started_at_unix: u64,
}

impl View for Session {
    type V = SessionView;

    open spec fn view(&self) -> SessionView {
        SessionView {
            host: self.host@,
            ip: self.ip@,
            pid: self.pid,
            local_port: self.local_port,
            url: self.url@,
            started_at_unix: self.started_at_unix,
        }
    }
}

impl Session {
    pub fn duplicate(&self) -> (r: Session)
        ensures
            r@ == self@,
    {
        Session {
            host: self.host.clone(),
            ip: self.ip.clone(),
            pid: self.pid,
            local_port: self.local_port,
            url: self.url.clone(),
            started_at_unix: self.started_at_unix,
        }
    }
}

pub open spec fn session_views(v: Seq<Session>) -> Seq<SessionView> {
    v.map_values(|s: Session| s@)
}

// ---------------------------------------------------------------------
// Time
// ---------------------------------------------------------------------

/// Seconds since the Unix epoch.
pub fn now() -> (t: u64) {
    unix_now_secs()
}

/// An age rendered with its largest unit: `42s`, `3m`, `5h`, `2d`.
pub open spec fn age_text(dt: u64) -> Seq<char> {
    if dt < 60 {
        decimal_seq(dt as nat) + "s"@
    } else if dt < 3600 {
        decimal_seq((dt / 60) as nat) + "m"@
    } else if dt < 86400 {
        decimal_seq((dt / 3600) as nat) + "h"@
    } else {
        decimal_seq((dt / 86400) as nat) + "d"@
    }
}

/// Renders an age in seconds.
pub fn format_age(dt: u64) -> (s: String)
    ensures
        s@ == age_text(dt),
{
    let (n, unit) = if dt < 60 {
        (dt, "s")
    } else if dt < 3600 {
        (dt / 60, "m")
    } else if dt < 86400 {
        (dt / 3600, "h")
    } else {
        (dt / 86400, "d")
    };
    let mut s = decimal_string(n);
    s.append(unit);
    s
}

/// The age of a start time at time `now` (zero for a start in the future).
pub fn human_age_at(now: u64, unix: u64) -> (s: String)
    ensures
        s@ == age_text(saturating_sub_spec(now, unix)),
{
    let dt = if now >= unix {
        now - unix
    } else {
        0
    };
    format_age(dt)
}

/// The age of a start time now.
pub fn human_age(unix: u64) -> (s: String)
    ensures
        exists|t: u64| s@ == age_text(saturating_sub_spec(t, unix)),
{
    human_age_at(now(), unix)
}

// ---------------------------------------------------------------------
// Paths
// ---------------------------------------------------------------------

/// `$XDG_CACHE_HOME`, or `$HOME/.cache`; `None` when neither is set.
pub open spec fn cache_base(xdg: Option<Seq<char>>, home: Option<Seq<char>>) -> Option<Seq<char>> {
    match xdg {
        Some(x) => Some(x),
        None => match home {
            Some(h) => Some(path_join_seq(h, ".cache"@)),
            None => None,
        },
    }
}

/// The sessions directory `<cache>/urc/sessions`; `None` without a home.
pub fn sessions_dir(xdg: &Option<String>, home: &Option<String>) -> (r: Option<String>)
    ensures
        match cache_base(ov(*xdg), ov(*home)) {
            Some(b) => ov(r) == Some(path_join_seq(path_join_seq(b, "urc"@), "sessions"@)),
            None => r is None,
        },
{
    let base = match xdg {
        Some(x) => x.clone(),
        None => match home {
            Some(h) => path_join(h.as_str(), ".cache"),
            None => return None,
        },
    };
    let urc = path_join(base.as_str(), "urc");
    Some(path_join(urc.as_str(), "sessions"))
}

/// The descriptor path of a host: `<dir>/<host>.json`.
pub fn session_path(dir: &str, host: &str) -> (p: String)
    ensures
        p@ == path_join_seq(dir@, host@ + ".json"@),
{
    let mut name = String::from_str(host);
    name.append(".json");
    path_join(dir, name.as_str())
}

/// `Path::extension` of a file name: the text after its last dot, unless it
/// has none, or its only dot starts it, or it is `..`.
pub open spec fn name_extension(name: Seq<char>) -> Option<Seq<char>> {
    if name == ".."@ || !name.contains('.') {
        None
    } else {
        let i = choose|i: int| 0 <= i < name.len() && name[i] == '.' && forall|j: int| i < j < name.len() ==> name[j] != '.';
        if i == 0 {
            None
        } else {
            Some(name.subrange(i + 1, name.len() as int))
        }
    }
}

/// Whether a directory entry is a session descriptor (extension `json`).
pub fn is_session_file(name: &str) -> (b: bool)
    ensures
        b == (name_extension(name@) == Some("json"@)),
{
    let v = to_chars(name);
    if str_eq(name, "..") {
        return false;
    }
    let n = v.len();
    let mut i: usize = n;
    while i > 0 && v[i - 1] != '.'
        invariant
            v@ == name@,
            i <= n == v@.len(),
            forall|j: int| i <= j < n ==> v@[j] != '.',
        decreases i,
    {
        i = i - 1;
    }
    if i == 0 {
        assert(!name@.contains('.'));
        return false;
    }
    let dot = i - 1;
    proof {
        let c = choose|k: int| 0 <= k < name@.len() && name@[k] == '.' && forall|j: int| k < j < name@.len() ==> name@[j] != '.';
        assert(name@[dot as int] == '.');
        if c < dot {
            assert(name@[dot as int] != '.');
        }
        if c > dot {
            assert(name@[c] != '.');
        }
        assert(c == dot);
    }
    if dot == 0 {
        return false;
    }
    let ext = crate::text::string_from_range(v.as_slice(), dot + 1, n);
    str_eq(ext.as_str(), "json")
}

/// The descriptor written for a (non-empty) host name, `{host}.json`, is
/// one that `urc sessions` reads back.
pub proof fn law_descriptor_is_listed(host: Seq<char>)
    requires
        host.len() > 0,
    ensures
        name_extension(host + ".json"@) == Some("json"@),
{
    reveal_strlit(".json");
    reveal_strlit("json");
    reveal_strlit("..");
    let name = host + ".json"@;
    let k = host.len() as int;
    assert(name[k] == '.');
    assert(name.contains('.'));
    assert(name.len() >= 6);
    assert(name != ".."@);
    let c = choose|i: int| 0 <= i < name.len() && name[i] == '.' && forall|j: int| i < j < name.len() ==> name[j] != '.';
    assert(name[k + 1] == 'j' && name[k + 2] == 's' && name[k + 3] == 'o' && name[k + 4] == 'n');
    assert(0 <= c < name.len() && name[c] == '.' && forall|j: int| c < j < name.len() ==> name[j] != '.') by {
        assert(0 <= k < name.len() && name[k] == '.' && forall|j: int| k < j < name.len() ==> name[j] != '.');
    }
    if c < k {
        assert(name[k] != '.');
    }
    assert(c == k);
    assert(name.subrange(k + 1, name.len() as int) =~= "json"@);
}

// ---------------------------------------------------------------------
// Lookup
// ---------------------------------------------------------------------

/// What `urc kill TARGET` matches: a pid when the target parses as one,
/// otherwise a host name.
pub open spec fn session_matches(s: SessionView, target: Seq<char>) -> bool {
    match parse_unsigned(target, u32::MAX as nat) {
        Some(pid) => s.pid as nat == pid,
        None => s.host == target,
    }
}

/// The first session matching `target`.
pub fn find(all: &Vec<Session>, target: &str) -> (r: Option<Session>)
    ensures
        match r {
            Some(s) => exists|i: int|
                0 <= i < all@.len() && s@ == all@[i]@ && session_matches(all@[i]@, target@) && forall|j: int|
                    0 <= j < i ==> !session_matches(#[trigger] all@[j]@, target@),
            None => forall|i: int| 0 <= i < all@.len() ==> !session_matches(#[trigger] all@[i]@, target@),
        },
{
    let pid = parse_u32(target);
    let mut i: usize = 0;
    while i < all.len()
        invariant
            i <= all@.len(),
            match parse_unsigned(target@, u32::MAX as nat) {
                Some(v) => pid == Some(v as u32),
                None => pid is None,
            },
            forall|j: int| 0 <= j < i ==> !session_matches(#[trigger] all@[j]@, target@),
        decreases all@.len() - i,
    {
        let hit = match pid {
            Some(p) => all[i].pid == p,
            None => str_eq(all[i].host.as_str(), target),
        };
        if hit {
            return Some(all[i].duplicate());
        }
        i = i + 1;
    }
    None
}

/// `urc kill <pid>` picks by pid alone: a session matches the decimal form
/// of a pid exactly when it has that pid, whatever its host, so the session
/// `find` and `kill` return for it has that pid and every session with it
/// is a match. A target that is no number matches by host name alone.
pub proof fn law_kill_target_selects_by_pid(s: SessionView, pid: u32, target: Seq<char>)
    ensures
        session_matches(s, decimal_seq(pid as nat)) <==> s.pid == pid,
        parse_unsigned(target, u32::MAX as nat) is None ==> (session_matches(s, target) <==> s.host
            == target),
{
    crate::decimal::law_parse_decimal_roundtrip(pid as nat, u32::MAX as nat);
}

pub open spec fn no_session_text(target: Seq<char>) -> Seq<char> {
    "no urc session matching '"@ + target + "' (try: urc sessions)"@
}

/// The session `urc kill TARGET` stops: the first match, or the message
/// for no match.
pub fn kill(all: &Vec<Session>, target: &str) -> (r: Result<Session, String>)
    ensures
        match r {
            Ok(s) => exists|i: int|
                0 <= i < all@.len() && s@ == all@[i]@ && session_matches(all@[i]@, target@) && forall|j: int|
                    0 <= j < i ==> !session_matches(#[trigger] all@[j]@, target@),
            Err(m) => m@ == no_session_text(target@) && forall|i: int|
                0 <= i < all@.len() ==> !session_matches(#[trigger] all@[i]@, target@),
        },
{
    match find(all, target) {
        Some(s) => Ok(s),
        None => Err(no_session_message(target)),
    }
}

/// Sessions ordered by host (stable).
pub fn sort_sessions(v: Vec<Session>) -> (r: Vec<Session>)
    ensures
        exists|perm: Seq<usize>|
            #![trigger is_stable_sort(host_keys(v@), perm)]
            is_stable_sort(host_keys(v@), perm) && session_views(r@) == perm.map_values(
                |i: usize| session_views(v@)[i as int],
            ),
{
    let ghost sv = session_views(v@);
    let mut keys: Vec<Vec<char>> = Vec::new();
    let mut k: usize = 0;
    while k < v.len()
        invariant
            k <= v@.len(),
            keys@.len() == k,
            forall|m: int| 0 <= m < k ==> #[trigger] keys@[m]@ == v@[m].host@,
        decreases v@.len() - k,
    {
        keys.push(to_chars(v[k].host.as_str()));
        k = k + 1;
    }
    assert(keys@.map_values(|kk: Vec<char>| kk@) =~= host_keys(v@));
    let perm = stable_sort_order(&keys);
    let mut out: Vec<Session> = Vec::new();
    let mut j: usize = 0;
    while j < perm.len()
        invariant
            sv == session_views(v@),
            is_stable_sort(host_keys(v@), perm@),
            j <= perm@.len(),
            session_views(out@) == perm@.subrange(0, j as int).map_values(|x: usize| sv[x as int]),
        decreases perm@.len() - j,
    {
        let idx = perm[j];
        assert(perm@[j as int] < sv.len());
        let e = v[idx].duplicate();
        assert(e@ == sv[idx as int]);
        let ghost old_out = out@;
        out.push(e);
        assert(session_views(out@) =~= session_views(old_out).push(e@));
        assert(perm@.subrange(0, j + 1) =~= perm@.subrange(0, j as int).push(idx));
        j = j + 1;
    }
    assert(perm@.subrange(0, perm@.len() as int) =~= perm@);
    out
}

pub open spec fn host_keys(v: Seq<Session>) -> Seq<Seq<char>> {
    v.map_values(|s: Session| s.host@)
}

/// The sessions whose process is alive, and the hosts of the dead ones
/// (whose descriptors are pruned); `alive[i]` is the liveness of `v[i]`.
pub fn partition_alive(v: Vec<Session>, alive: &Vec<bool>) -> (r: (Vec<Session>, Vec<String>))
    requires
        alive@.len() == v@.len(),
    ensures
        session_views(r.0@) == alive_filter(session_views(v@), alive@),
        r.1@.map_values(|h: String| h@) == dead_hosts(session_views(v@), alive@),
{
    let mut kept: Vec<Session> = Vec::new();
    let mut dead: Vec<String> = Vec::new();
    let mut i: usize = 0;
    let ghost sv = session_views(v@);
    assert(sv.subrange(0, 0) =~= Seq::<SessionView>::empty());
    assert(alive@.subrange(0, 0) =~= Seq::<bool>::empty());
    while i < v.len()
        invariant
            sv == session_views(v@),
            alive@.len() == v@.len(),
            i <= v@.len(),
            session_views(kept@) == alive_filter(sv.subrange(0, i as int), alive@.subrange(0, i as int)),
            dead@.map_values(|h: String| h@) == dead_hosts(sv.subrange(0, i as int), alive@.subrange(0, i as int)),
        decreases v@.len() - i,
    {
        assert(sv.subrange(0, i + 1).drop_last() =~= sv.subrange(0, i as int));
        assert(alive@.subrange(0, i + 1).drop_last() =~= alive@.subrange(0, i as int));
        let s = v[i].duplicate();
        if alive[i] {
            let ghost old_kept = kept@;
            kept.push(s);
            assert(session_views(kept@) =~= session_views(old_kept).push(sv[i as int]));
        } else {
            let ghost old_dead = dead@;
            dead.push(s.host);
            assert(dead@.map_values(|h: String| h@) =~= old_dead.map_values(|h: String| h@).push(sv[i as int].host));
        }
        i = i + 1;
    }
    assert(sv.subrange(0, v@.len() as int) =~= sv);
    assert(alive@.subrange(0, v@.len() as int) =~= alive@);
    (kept, dead)
}

pub open spec fn view_hosts(v: Seq<SessionView>) -> Seq<Seq<char>> {
    v.map_values(|s: SessionView| s.host)
}

/// What `urc sessions` shows: the live sessions ordered by host (stable),
/// and the hosts of the dead ones, whose descriptors are pruned.
pub fn list(found: Vec<Session>, alive: &Vec<bool>) -> (r: (Vec<Session>, Vec<String>))
    requires
        alive@.len() == found@.len(),
    ensures
        r.1@.map_values(|h: String| h@) == dead_hosts(session_views(found@), alive@),
        exists|perm: Seq<usize>|
            #![trigger is_stable_sort(view_hosts(alive_filter(session_views(found@), alive@)), perm)]
            is_stable_sort(view_hosts(alive_filter(session_views(found@), alive@)), perm) && session_views(r.0@)
                == perm.map_values(|i: usize| alive_filter(session_views(found@), alive@)[i as int]),
{
    let ghost live = alive_filter(session_views(found@), alive@);
    let (kept, dead) = partition_alive(found, alive);
    let ghost kv = kept@;
    assert(host_keys(kv) =~= view_hosts(session_views(kv)));
    let sorted = sort_sessions(kept);
    proof {
        let perm = choose|perm: Seq<usize>|
            is_stable_sort(host_keys(kv), perm) && session_views(sorted@) == perm.map_values(
                |i: usize| session_views(kv)[i as int],
            );
        assert(is_stable_sort(view_hosts(live), perm));
        assert(session_views(sorted@) == perm.map_values(|i: usize| live[i as int]));
    }
    (sorted, dead)
}

pub open spec fn alive_filter(v: Seq<SessionView>, alive: Seq<bool>) -> Seq<SessionView>
    decreases v.len(),
{
    if v.len() == 0 || alive.len() == 0 {
        Seq::empty()
    } else {
        let rest = alive_filter(v.drop_last(), alive.drop_last());
        if alive.last() {
            rest.push(v.last())
        } else {
            rest
        }
    }
}

pub open spec fn dead_hosts(v: Seq<SessionView>, alive: Seq<bool>) -> Seq<Seq<char>>
    decreases v.len(),
{
    if v.len() == 0 || alive.len() == 0 {
        Seq::empty()
    } else {
        let rest = dead_hosts(v.drop_last(), alive.drop_last());
        if alive.last() {
            rest
        } else {
            rest.push(v.last().host)
        }
    }
}

// ---------------------------------------------------------------------
// Connecting
// ---------------------------------------------------------------------

/// Why `urc connect` cannot proceed.
#[derive(Debug)]
pub enum ConnectError {
    NoSuchHost { query: String },
    Offline { name: String },
    AlreadyRunning { name: String, pid: u32, url: String },
}

pub open spec fn connect_error_text(e: ConnectError, detailed: bool) -> Seq<char> {
    match e {
        ConnectError::NoSuchHost { query } => if detailed {
            "no machine named '"@ + query@
                + "' on your tailnet.\nRun: urc hosts\nMachines must use the same Tailscale account and have URC installed."@
        } else {
            "no machine named '"@ + query@ + "' on your tailnet."@
        },
        ConnectError::Offline { name } => if detailed {
            "'"@ + name@ + "' is offline on Tailscale. Wake the machine or check it is logged in."@
        } else {
            "'"@ + name@ + "' is offline on Tailscale."@
        },
        ConnectError::AlreadyRunning { name, pid, url } => "'"@ + name@
            + "' already has a running session (pid "@ + decimal_seq(pid as nat) + ", "@ + url@
            + ").\nStop it with: urc kill "@ + name@,
    }
}

impl ConnectError {
    /// The message; `detailed` adds the hints `urc connect` prints in the
    /// foreground.
    pub fn message(&self, detailed: bool) -> (m: String)
        ensures
            m@ == connect_error_text(*self, detailed),
    {
        match self {
            ConnectError::NoSuchHost { query } => {
                let mut m = String::from_str("no machine named '");
                m.append(query.as_str());
                if detailed {
                    m.append(
                        "' on your tailnet.\nRun: urc hosts\nMachines must use the same Tailscale account and have URC installed.",
                    );
                } else {
                    m.append("' on your tailnet.");
                }
                m
            },
            ConnectError::Offline { name } => {
                let mut m = String::from_str("'");
                m.append(name.as_str());
                if detailed {
                    m.append("' is offline on Tailscale. Wake the machine or check it is logged in.");
                } else {
                    m.append("' is offline on Tailscale.");
                }
                m
            },
            ConnectError::AlreadyRunning { name, pid, url } => {
                let mut m = String::from_str("'");
                m.append(name.as_str());
                m.append("' already has a running session (pid ");
                push_decimal(&mut m, *pid as u64);
                m.append(", ");
                m.append(url.as_str());
                m.append(").\nStop it with: urc kill ");
                m.append(name.as_str());
                m
            },
        }
    }
}

/// The peer `urc connect HOST` targets: the first that answers to the name,
/// and it must be online.
pub fn select_peer(peers: &Vec<TailscalePeer>, host_id: &str) -> (r: Result<TailscalePeer, ConnectError>)
    ensures
        match r {
            Ok(p) => p.online && exists|i: int|
                0 <= i < peers@.len() && p@ == peers@[i]@ && normalized_query(host_id@).len() > 0
                    && peer_matches(peers@[i]@, normalized_query(host_id@)) && forall|j: int|
                    0 <= j < i ==> !peer_matches(#[trigger] peers@[j]@, normalized_query(host_id@)),
            Err(ConnectError::NoSuchHost { query }) => query@ == host_id@ && (normalized_query(host_id@).len()
                == 0 || forall|i: int|
                0 <= i < peers@.len() ==> !peer_matches(#[trigger] peers@[i]@, normalized_query(host_id@))),
            Err(ConnectError::Offline { name }) => exists|i: int|
                0 <= i < peers@.len() && !peers@[i].online && name@ == peers@[i].name@
                    && normalized_query(host_id@).len() > 0 && peer_matches(peers@[i]@, normalized_query(host_id@))
                    && forall|j: int| 0 <= j < i ==> !peer_matches(#[trigger] peers@[j]@, normalized_query(host_id@)),
            Err(ConnectError::AlreadyRunning { .. }) => false,
        },
{
    match resolve_peer(peers.as_slice(), host_id) {
        None => Err(ConnectError::NoSuchHost { query: String::from_str(host_id) }),
        Some(p) => {
            if !p.online {
                return Err(ConnectError::Offline { name: p.name.clone() });
            }
            Ok(p.duplicate())
        },
    }
}

/// The program that opens a URL in the default browser on `os` (as
/// `std::env::consts::OS` names it).
pub fn browser_command(os: &str) -> (c: &'static str)
    ensures
        os@ == "macos"@ ==> c@ == "open"@,
        os@ == "windows"@ ==> c@ == "start"@,
        os@ != "macos"@ && os@ != "windows"@ ==> c@ == "xdg-open"@,
{
    proof {
        reveal_strlit("macos");
        reveal_strlit("windows");
        assert("windows"@.len() == 7 && "macos"@.len() == 5);
        assert("windows"@ != "macos"@);
    }
    if str_eq(os, "macos") {
        "open"
    } else if str_eq(os, "windows") {
        "start"
    } else {
        "xdg-open"
    }
}

/// The arguments of the backgrounded `connect` that keeps a tunnel to
/// `name` on `port`.
pub fn detached_args(name: &str, port: u16) -> (args: Vec<String>)
    ensures
        args@.map_values(|a: String| a@) == seq![
            "connect"@,
            name@,
            "--local-port"@,
            decimal_seq(port as nat),
            "--no-open"@,
            "--detached-child"@,
        ],
{
    let mut args: Vec<String> = Vec::new();
    args.push(String::from_str("connect"));
    args.push(String::from_str(name));
    args.push(String::from_str("--local-port"));
    args.push(decimal_string(port as u64));
    args.push(String::from_str("--no-open"));
    args.push(String::from_str("--detached-child"));
    assert(args@.map_values(|a: String| a@) =~= seq![
        "connect"@,
        name@,
        "--local-port"@,
        decimal_seq(port as nat),
        "--no-open"@,
        "--detached-child"@,
    ]);
    args
}

/// The agent port a client tunnels to: the TLS-wrapped VNC listener.
pub const CONNECT_PORT: u16 = DEFAULT_TLS_LISTEN_PORT;

/// The VNC URL of a local tunnel, which the system viewer (Screen Sharing
/// on macOS) opens: `vnc://localhost:{port}`.
pub fn local_url(port: u16) -> (u: String)
    ensures
        u@ == "vnc://localhost:"@ + decimal_seq(port as nat),
{
    let mut u = String::from_str("vnc://localhost:");
    push_decimal(&mut u, port as u64);
    u
}

/// `no urc session matching '{target}' (try: urc sessions)`.
pub fn no_session_message(target: &str) -> (m: String)
    ensures
        m@ == "no urc session matching '"@ + target@ + "' (try: urc sessions)"@,
{
    let mut m = String::from_str("no urc session matching '");
    m.append(target);
    m.append("' (try: urc sessions)");
    m
}

// ---------------------------------------------------------------------
// Tables
// ---------------------------------------------------------------------

/// A line of `urc hosts`: name (24 wide), IP (16 wide), `online`/`offline`.
pub fn host_row(p: &TailscalePeer) -> (line: String)
    ensures
        line@ == pad_right_seq(p.name@, 24) + " "@ + pad_right_seq(p.ipv4@, 16) + " "@ + (if p.online {
            "online"@
        } else {
            "offline"@
        }),
{
    let mut line = String::new();
    push_padded(&mut line, p.name.as_str(), 24);
    line.append(" ");
    push_padded(&mut line, p.ipv4.as_str(), 16);
    line.append(" ");
    line.append(if p.online {
        "online"
    } else {
        "offline"
    });
    line
}

/// A line of `urc sessions`: host (20), IP (16), pid (8), age (10), URL.
pub fn session_row(s: &Session, now: u64) -> (line: String)
    ensures
        line@ == pad_right_seq(s.host@, 20) + " "@ + pad_right_seq(s.ip@, 16) + " "@ + pad_right_seq(
            decimal_seq(s.pid as nat),
            8,
        ) + " "@ + pad_right_seq(age_text(saturating_sub_spec(now, s.started_at_unix)), 10) + " "@
            + s.url@,
{
    let mut line = String::new();
    push_padded(&mut line, s.host.as_str(), 20);
    line.append(" ");
    push_padded(&mut line, s.ip.as_str(), 16);
    line.append(" ");
    push_padded(&mut line, decimal_string(s.pid as u64).as_str(), 8);
    line.append(" ");
    push_padded(&mut line, human_age_at(now, s.started_at_unix).as_str(), 10);
    line.append(" ");
    line.append(s.url.as_str());
    line
}

/// A pid printed by `urc sessions` finds its session again with `urc kill`.
pub proof fn law_listed_pid_finds_session(s: SessionView)
    ensures
        session_matches(s, decimal_seq(s.pid as nat)),
{
    crate::decimal::law_parse_decimal_roundtrip(s.pid as nat, u32::MAX as nat);
}

} // verus!
