//! The coordinator's registry of connected agents, its token check, and its
//! answers to agents and clients.

use vstd::prelude::*;
use crate::decimal::{decimal_seq, push_decimal};
use crate::protocol::{
    AgentMessage, CoordinatorMessage, RelayMode, TunnelTarget, DEFAULT_COORDINATOR_PORT,
    DEFAULT_TLS_LISTEN_PORT,
};
use crate::session::{copy_opt, ov};
use crate::relay::{RelayHub, RelayLegs};
use crate::text::str_eq;
use vstd::string::*;

verus! {

/// Milliseconds since the Unix epoch by chrono's `Utc::now()`. Nothing is
/// promised of the value: it is the time.
#[verifier::external_body]
fn utc_now_millis() -> (t: i64) {
    chrono::Utc::now().timestamp_millis()
}

/// A random (version 4) UUID from the uuid crate, as its 128-bit value.
/// Nothing is promised of the value.
#[verifier::external_body]
fn new_session_id() -> (id: u128) {
    uuid::Uuid::new_v4().as_u128()
}

fn token_matches(secret: &str, token: &str) -> (b: bool)
    ensures
        b == (token@ == secret@),
{
    str_eq(token, secret)
}

/// A registered agent; `control_tx` reaches its control connection.
#[derive(Debug)]
pub struct AgentRecord<C> {
    pub host_id: String,
    pub tailscale_ip: Option<String>,
    pub vnc_local_port: u16,
    pub files_local_port: u16,
    pub control_tx: C,
}

/// What the registry knows of one agent.
pub struct AgentEntry<C> {
    pub tailscale_ip: Option<Seq<char>>,
    pub vnc_local_port: u16,
    pub files_local_port: u16,
    pub last_seen_ms: i64,
    pub control_tx: C,
}

/// A listed host (`GET /hosts`).
#[derive(Debug)]
pub struct HostSummary {
    pub host_id: String,
    pub tailscale_ip: Option<String>,
    pub online: bool,
}

pub open spec fn has_key<C>(recs: Seq<AgentRecord<C>>, k: Seq<char>) -> bool {
    exists|i: int| 0 <= i < recs.len() && #[trigger] recs[i].host_id@ == k
}

pub open spec fn key_index<C>(recs: Seq<AgentRecord<C>>, k: Seq<char>) -> int {
    choose|i: int| 0 <= i < recs.len() && #[trigger] recs[i].host_id@ == k
}

pub open spec fn distinct_keys<C>(recs: Seq<AgentRecord<C>>) -> bool {
    forall|i: int, j: int|
        0 <= i < recs.len() && 0 <= j < recs.len() && i != j ==> #[trigger] recs[i].host_id@
            != #[trigger] recs[j].host_id@
}

/// The coordinator's state: the shared secret, the registered agents keyed
/// by host id, and the relay sessions.
#[derive(Debug)]
pub struct AppState<C> {
    secret: String,
    agents: Vec<AgentRecord<C>>,
    last_seen: Vec<i64>,
    pub relay: RelayHub<C>,
}

proof fn lemma_key_index<C>(recs: Seq<AgentRecord<C>>, i: int)
    requires
        distinct_keys(recs),
        0 <= i < recs.len(),
    ensures
        has_key(recs, recs[i].host_id@),
        key_index(recs, recs[i].host_id@) == i,
{
    let k = recs[i].host_id@;
    assert(recs[i].host_id@ == k);
    let j = key_index(recs, k);
    assert(0 <= j < recs.len() && recs[j].host_id@ == k);
}

impl<C> AppState<C> {
    pub closed spec fn wf(&self) -> bool {
        &&& self.agents@.len() == self.last_seen@.len()
        &&& distinct_keys(self.agents@)
    }

    pub closed spec fn entry_at(&self, i: int) -> AgentEntry<C> {
        let r = self.agents@[i];
        AgentEntry {
            tailscale_ip: ov(r.tailscale_ip),
            vnc_local_port: r.vnc_local_port,
            files_local_port: r.files_local_port,
            last_seen_ms: self.last_seen@[i],
            control_tx: r.control_tx,
        }
    }

    pub closed spec fn view(&self) -> Map<Seq<char>, AgentEntry<C>> {
        Map::new(
            |k: Seq<char>| has_key(self.agents@, k),
            |k: Seq<char>| self.entry_at(key_index(self.agents@, k)),
        )
    }

    /// The relay sessions.
    pub closed spec fn relay_view(&self) -> Map<u128, RelayLegs<C>> {
        self.relay.view()
    }

    /// The shared secret agents and clients must present.
    pub closed spec fn secret(&self) -> Seq<char> {
        self.secret@
    }

    pub fn new(secret: String) -> (r: AppState<C>)
        ensures
            r.wf(),
            r.view() == Map::<Seq<char>, AgentEntry<C>>::empty(),
            r.secret() == secret@,
            r.relay_view() == Map::<u128, RelayLegs<C>>::empty(),
    {
        let r = AppState { secret, agents: Vec::new(), last_seen: Vec::new(), relay: RelayHub::new() };
        assert(r.view() =~= Map::<Seq<char>, AgentEntry<C>>::empty());
        r
    }

    /// Whether a presented token matches the shared secret.
    pub fn verify_token(&self, token: &str) -> (b: bool)
        ensures
            b == (token@ == self.secret()),
    {
        token_matches(self.secret.as_str(), token)
    }

    fn find(&self, host_id: &str) -> (r: Option<usize>)
        requires
            self.wf(),
        ensures
            match r {
                Some(i) => i < self.agents@.len() && self.agents@[i as int].host_id@ == host_id@,
                None => !has_key(self.agents@, host_id@),
            },
    {
        let mut i: usize = 0;
        while i < self.agents.len()
            invariant
                i <= self.agents@.len(),
                forall|j: int| 0 <= j < i ==> self.agents@[j].host_id@ != host_id@,
            decreases self.agents@.len() - i,
        {
            if str_eq(self.agents[i].host_id.as_str(), host_id) {
                return Some(i);
            }
            i = i + 1;
        }
        None
    }

    /// Registers an agent, replacing any earlier registration of its host id.
    pub fn register_agent(
        &mut self,
        host_id: String,
        tailscale_ip: Option<String>,
        vnc_local_port: u16,
        files_local_port: u16,
        control_tx: C,
    )
        requires
            old(self).wf(),
        ensures
            final(self).wf(),
            final(self).secret() == old(self).secret(),
            final(self).relay_view() == old(self).relay_view(),
            final(self).view().dom() == old(self).view().dom().insert(host_id@),
            ({
                let e = final(self).view()[host_id@];
                &&& e.tailscale_ip == ov(tailscale_ip)
                &&& e.vnc_local_port == vnc_local_port
                &&& e.files_local_port == files_local_port
                &&& e.control_tx == control_tx
            }),
            forall|k: Seq<char>|
                k != host_id@ && #[trigger] old(self).view().contains_key(k) ==> final(self).view()[k]
                    == old(self).view()[k],
    {
        let now = utc_now_millis();
        let ghost k = host_id@;
        let ghost ip = ov(tailscale_ip);
        let found = self.find(host_id.as_str());
        let rec = AgentRecord { host_id, tailscale_ip, vnc_local_port, files_local_port, control_tx };
        let ghost old_self = *old(self);
        match found {
            Some(i) => {
                self.agents.set(i, rec);
                self.last_seen.set(i, now);
                proof {
                    let olds = old_self.agents@;
                    let news = self.agents@;
                    assert(news =~= olds.update(i as int, news[i as int]));
                    assert forall|a: int, b: int|
                        0 <= a < news.len() && 0 <= b < news.len() && a != b implies #[trigger] news[a].host_id@
                        != #[trigger] news[b].host_id@ by {
                        if a != i && b != i {
                            assert(news[a] == olds[a] && news[b] == olds[b]);
                        } else if a == i {
                            assert(news[b] == olds[b]);
                            assert(olds[i as int].host_id@ == k);
                        } else {
                            assert(news[a] == olds[a]);
                            assert(olds[i as int].host_id@ == k);
                        }
                    }
                    self.lemma_view_facts(old_self, i as int, k);
                }
            },
            None => {
                self.agents.push(rec);
                self.last_seen.push(now);
                proof {
                    let olds = old_self.agents@;
                    let news = self.agents@;
                    let n = olds.len();
                    assert forall|a: int, b: int|
                        0 <= a < news.len() && 0 <= b < news.len() && a != b implies #[trigger] news[a].host_id@
                        != #[trigger] news[b].host_id@ by {
                        if a < n && b < n {
                            assert(news[a] == olds[a] && news[b] == olds[b]);
                        } else if a == n {
                            assert(news[b] == olds[b]);
                            assert(!has_key(olds, k));
                        } else {
                            assert(news[a] == olds[a]);
                            assert(!has_key(olds, k));
                        }
                    }
                    assert(news[n as int].host_id@ == k);
                    self.lemma_view_facts(old_self, n as int, k);
                }
            },
        }
    }

    /// After writing index `i` (replacing or appending) with key `k`, the other
    /// keys keep their entries and `k` maps to index `i`.
    proof fn lemma_view_facts(&self, old_self: Self, i: int, k: Seq<char>)
        requires
            self.wf(),
            old_self.wf(),
            0 <= i < self.agents@.len(),
            self.agents@[i].host_id@ == k,
            i < old_self.agents@.len() ==> old_self.agents@[i].host_id@ == k,
            i == old_self.agents@.len() ==> !has_key(old_self.agents@, k),
            i <= old_self.agents@.len(),
            self.agents@.len() == if i < old_self.agents@.len() {
                old_self.agents@.len()
            } else {
                old_self.agents@.len() + 1
            },
            forall|j: int|
                #![trigger self.agents@[j]]
                #![trigger old_self.agents@[j]]
                0 <= j < old_self.agents@.len() && j != i ==> self.agents@[j] == old_self.agents@[j]
                    && self.last_seen@[j] == old_self.last_seen@[j],
        ensures
            self.view().dom() == old_self.view().dom().insert(k),
            self.view()[k] == self.entry_at(i),
            forall|k2: Seq<char>|
                k2 != k && #[trigger] old_self.view().contains_key(k2) ==> self.view()[k2]
                    == old_self.view()[k2],
    {
        lemma_key_index(self.agents@, i);
        assert forall|k2: Seq<char>| #[trigger]
            self.view().dom().contains(k2) == old_self.view().dom().insert(k).contains(k2) by {
            if k2 != k {
                if has_key(self.agents@, k2) {
                    let j = key_index(self.agents@, k2);
                    assert(0 <= j < self.agents@.len() && self.agents@[j].host_id@ == k2);
                    assert(j != i);
                    assert(j < old_self.agents@.len());
                    assert(self.agents@[j] == old_self.agents@[j]);
                    assert(old_self.agents@[j].host_id@ == k2);
                }
                if has_key(old_self.agents@, k2) {
                    let j = key_index(old_self.agents@, k2);
                    assert(0 <= j < old_self.agents@.len() && old_self.agents@[j].host_id@ == k2);
                    assert(j != i);
                    assert(self.agents@[j] == old_self.agents@[j]);
                    assert(self.agents@[j].host_id@ == k2);
                }
            }
        }
        assert(self.view().dom() =~= old_self.view().dom().insert(k));
        assert forall|k2: Seq<char>|
            k2 != k && #[trigger] old_self.view().contains_key(k2) implies self.view()[k2]
                == old_self.view()[k2] by {
            let j = key_index(old_self.agents@, k2);
            assert(j != i);
            lemma_key_index(old_self.agents@, j);
            assert(self.agents@[j] == old_self.agents@[j]);
            lemma_key_index(self.agents@, j);
        }
    }

    /// Marks an agent as seen at `now_ms` (milliseconds since the Unix
    /// epoch); no effect for an unknown host id.
    pub fn touch_agent_at(&mut self, host_id: &str, now_ms: i64)
        requires
            old(self).wf(),
        ensures
            final(self).wf(),
            final(self).secret() == old(self).secret(),
            final(self).relay_view() == old(self).relay_view(),
            final(self).view().dom() == old(self).view().dom(),
            forall|k: Seq<char>| #[trigger]
                old(self).view().contains_key(k) ==> {
                    let e = final(self).view()[k];
                    let o = old(self).view()[k];
                    &&& e.tailscale_ip == o.tailscale_ip
                    &&& e.vnc_local_port == o.vnc_local_port
                    &&& e.files_local_port == o.files_local_port
                    &&& e.control_tx == o.control_tx
                    &&& k != host_id@ ==> e.last_seen_ms == o.last_seen_ms
                },
            old(self).view().contains_key(host_id@) ==> final(self).view()[host_id@].last_seen_ms == now_ms,
    {
        let ghost old_self = *old(self);
        if let Some(i) = self.find(host_id) {
            self.last_seen.set(i, now_ms);
            proof {
                assert(self.agents@ == old_self.agents@);
                assert(self.view().dom() =~= old_self.view().dom());
                assert forall|k: Seq<char>| #[trigger] old_self.view().contains_key(k) implies {
                    let e = self.view()[k];
                    let o = old_self.view()[k];
                    &&& e.tailscale_ip == o.tailscale_ip
                    &&& e.vnc_local_port == o.vnc_local_port
                    &&& e.files_local_port == o.files_local_port
                    &&& e.control_tx == o.control_tx
                    &&& k != host_id@ ==> e.last_seen_ms == o.last_seen_ms
                } by {
                    let j = key_index(old_self.agents@, k);
                    if k != host_id@ {
                        assert(j != i);
                    }
                }
                lemma_key_index(self.agents@, i as int);
            }
        }
    }

    /// Marks an agent as seen now (the clock's reading, which no contract
    /// can name; [`Self::touch_agent_at`] states the rest); no effect for an
    /// unknown host id.
    pub fn touch_agent(&mut self, host_id: &str)
        requires
            old(self).wf(),
        ensures
            final(self).wf(),
            final(self).secret() == old(self).secret(),
            final(self).relay_view() == old(self).relay_view(),
            final(self).view().dom() == old(self).view().dom(),
            forall|k: Seq<char>| #[trigger]
                old(self).view().contains_key(k) ==> {
                    let e = final(self).view()[k];
                    let o = old(self).view()[k];
                    &&& e.tailscale_ip == o.tailscale_ip
                    &&& e.vnc_local_port == o.vnc_local_port
                    &&& e.files_local_port == o.files_local_port
                    &&& e.control_tx == o.control_tx
                    &&& k != host_id@ ==> e.last_seen_ms == o.last_seen_ms
                },
    {
        let now = utc_now_millis();
        self.touch_agent_at(host_id, now);
    }

    /// Forgets an agent.
    pub fn unregister_agent(&mut self, host_id: &str)
        requires
            old(self).wf(),
        ensures
            final(self).wf(),
            final(self).secret() == old(self).secret(),
            final(self).relay_view() == old(self).relay_view(),
            final(self).view() == old(self).view().remove(host_id@),
    {
        let ghost old_self = *old(self);
        match self.find(host_id) {
            None => {
                assert(self.view() =~= old_self.view().remove(host_id@));
            },
            Some(i) => {
                self.agents.remove(i);
                self.last_seen.remove(i);
                proof {
                    let olds = old_self.agents@;
                    let news = self.agents@;
                    assert forall|a: int, b: int|
                        0 <= a < news.len() && 0 <= b < news.len() && a != b implies #[trigger] news[a].host_id@
                        != #[trigger] news[b].host_id@ by {
                        let oa = if a < i { a } else { a + 1 };
                        let ob = if b < i { b } else { b + 1 };
                        assert(news[a] == olds[oa] && news[b] == olds[ob]);
                    }
                    assert forall|k: Seq<char>| #[trigger]
                        self.view().dom().contains(k) == old_self.view().remove(host_id@).dom().contains(k) by {
                        if has_key(news, k) {
                            let j = key_index(news, k);
                            let oj = if j < i { j } else { j + 1 };
                            assert(olds[oj].host_id@ == k);
                            lemma_key_index(olds, i as int);
                        }
                        if has_key(olds, k) && k != host_id@ {
                            let j = key_index(olds, k);
                            assert(j != i);
                            let nj = if j < i { j } else { j - 1 };
                            assert(news[nj].host_id@ == k);
                        }
                    }
                    assert(self.view().dom() =~= old_self.view().remove(host_id@).dom());
                    assert forall|k: Seq<char>| #[trigger] self.view().contains_key(k) implies self.view()[k]
                        == old_self.view().remove(host_id@)[k] by {
                        let j = key_index(news, k);
                        let oj = if j < i { j } else { j + 1 };
                        assert(news[j] == olds[oj]);
                        assert(self.last_seen@[j] == old_self.last_seen@[oj]);
                        lemma_key_index(olds, oj);
                    }
                    assert(self.view() =~= old_self.view().remove(host_id@));
                }
            },
        }
    }

    /// The registration of a host id and when it was last seen.
    pub fn get_agent(&self, host_id: &str) -> (r: Option<(&AgentRecord<C>, i64)>)
        requires
            self.wf(),
        ensures
            r is Some <==> self.view().contains_key(host_id@),
            r matches Some((rec, seen)) ==> ({
                let e = self.view()[host_id@];
                &&& rec.host_id@ == host_id@
                &&& ov(rec.tailscale_ip) == e.tailscale_ip
                &&& rec.vnc_local_port == e.vnc_local_port
                &&& rec.files_local_port == e.files_local_port
                &&& rec.control_tx == e.control_tx
                &&& seen == e.last_seen_ms
            }),
    {
        match self.find(host_id) {
            Some(i) => {
                proof {
                    lemma_key_index(self.agents@, i as int);
                }
                Some((&self.agents[i], self.last_seen[i]))
            },
            None => None,
        }
    }

    /// The control channel of a host id.
    pub fn agent_control_tx(&self, host_id: &str) -> (r: Option<&C>)
        requires
            self.wf(),
        ensures
            r is Some <==> self.view().contains_key(host_id@),
            r matches Some(c) ==> *c == self.view()[host_id@].control_tx,
    {
        match self.get_agent(host_id) {
            Some((rec, _)) => Some(&rec.control_tx),
            None => None,
        }
    }

    /// Every registered agent, listed as online.
    pub fn list_hosts(&self) -> (r: Vec<HostSummary>)
        requires
            self.wf(),
        ensures
            r@.len() == self.view().dom().len(),
            forall|i: int, j: int|
                0 <= i < j < r@.len() ==> #[trigger] r@[i].host_id@ != #[trigger] r@[j].host_id@,
            forall|i: int|
                0 <= i < r@.len() ==> #[trigger] self.view().contains_key(r@[i].host_id@) && r@[i].online
                    && ov(r@[i].tailscale_ip) == self.view()[r@[i].host_id@].tailscale_ip,
    {
        let mut out: Vec<HostSummary> = Vec::new();
        let mut i: usize = 0;
        while i < self.agents.len()
            invariant
                self.wf(),
                i <= self.agents@.len(),
                out@.len() == i,
                forall|m: int| 0 <= m < i ==> #[trigger] out@[m].host_id@ == self.agents@[m].host_id@,
                forall|m: int|
                    0 <= m < i ==> #[trigger] out@[m].online && ov(out@[m].tailscale_ip) == ov(
                        self.agents@[m].tailscale_ip,
                    ),
            decreases self.agents@.len() - i,
        {
            let a = &self.agents[i];
            out.push(
                HostSummary {
                    host_id: a.host_id.clone(),
                    tailscale_ip: copy_opt(&a.tailscale_ip),
                    online: true,
                },
            );
            i = i + 1;
        }
        proof {
            let recs = self.agents@;
            let keys = recs.map_values(|r: AgentRecord<C>| r.host_id@);
            assert forall|a: int, b: int| 0 <= a < keys.len() && 0 <= b < keys.len() && a != b implies keys[a] != keys[b] by {
                assert(keys[a] == recs[a].host_id@ && keys[b] == recs[b].host_id@);
            }
            assert(keys.no_duplicates());
            keys.unique_seq_to_set();
            assert(keys.to_set() =~= self.view().dom()) by {
                assert forall|k: Seq<char>| keys.to_set().contains(k) == self.view().dom().contains(k) by {
                    if has_key(recs, k) {
                        let j = key_index(recs, k);
                        assert(keys[j] == k);
                    }
                    if keys.contains(k) {
                        let j = choose|j: int| 0 <= j < keys.len() && keys[j] == k;
                        assert(recs[j].host_id@ == k);
                    }
                }
            }
            assert forall|m: int| 0 <= m < out@.len() implies #[trigger] self.view().contains_key(out@[m].host_id@) && out@[m].online
                && ov(out@[m].tailscale_ip) == self.view()[out@[m].host_id@].tailscale_ip by {
                lemma_key_index(recs, m);
            }
        }
        out
    }
}

/// Registering an agent under a new host id and then unregistering it
/// leaves the registry as it was.
pub proof fn law_register_unregister_restores<C>(
    before: Map<Seq<char>, AgentEntry<C>>,
    registered: Map<Seq<char>, AgentEntry<C>>,
    after: Map<Seq<char>, AgentEntry<C>>,
    host_id: Seq<char>,
)
    requires
        !before.contains_key(host_id),
        registered.dom() == before.dom().insert(host_id),
        forall|k: Seq<char>| k != host_id && #[trigger] before.contains_key(k) ==> registered[k] == before[k],
        after == registered.remove(host_id),
    ensures
        after == before,
{
    assert(after =~= before);
}

/// A call that changes the registry, by its arguments (the channel of a
/// registration included).
pub enum RegistryOp<C> {
    Register {
        host_id: Seq<char>,
        tailscale_ip: Option<Seq<char>>,
        vnc_local_port: u16,
        files_local_port: u16,
        control_tx: C,
    },
    Touch { host_id: Seq<char> },
    Unregister { host_id: Seq<char> },
}

/// Two entries agree on everything but the time last seen.
pub open spec fn same_record<C>(a: AgentEntry<C>, b: AgentEntry<C>) -> bool {
    &&& a.tailscale_ip == b.tailscale_ip
    &&& a.vnc_local_port == b.vnc_local_port
    &&& a.files_local_port == b.files_local_port
    &&& a.control_tx == b.control_tx
}

/// What a call does to the registry's view, as `register_agent`,
/// `touch_agent` and `unregister_agent` state it.
pub open spec fn op_effect<C>(
    before: Map<Seq<char>, AgentEntry<C>>,
    after: Map<Seq<char>, AgentEntry<C>>,
    op: RegistryOp<C>,
) -> bool {
    match op {
        RegistryOp::Register { host_id, tailscale_ip, vnc_local_port, files_local_port, control_tx } => {
            &&& after.dom() == before.dom().insert(host_id)
            &&& after[host_id].tailscale_ip == tailscale_ip
            &&& after[host_id].vnc_local_port == vnc_local_port
            &&& after[host_id].files_local_port == files_local_port
            &&& after[host_id].control_tx == control_tx
            &&& forall|k: Seq<char>| k != host_id && #[trigger] before.contains_key(k) ==> after[k] == before[k]
        },
        RegistryOp::Touch { host_id } => {
            &&& after.dom() == before.dom()
            &&& forall|k: Seq<char>| #[trigger] before.contains_key(k) ==> same_record(after[k], before[k])
        },
        RegistryOp::Unregister { host_id } => after == before.remove(host_id),
    }
}

/// The last registration (`Some(Some(..))`) or unregistration (`Some(None)`)
/// of `h` in a run of calls, if any.
pub open spec fn last_say<C>(ops: Seq<RegistryOp<C>>, h: Seq<char>) -> Option<
    Option<(Option<Seq<char>>, u16, u16, C)>,
>
    decreases ops.len(),
{
    if ops.len() == 0 {
        None
    } else {
        match ops.last() {
            RegistryOp::Register { host_id, tailscale_ip, vnc_local_port, files_local_port, control_tx } => if host_id
                == h {
                Some(Some((tailscale_ip, vnc_local_port, files_local_port, control_tx)))
            } else {
                last_say(ops.drop_last(), h)
            },
            RegistryOp::Unregister { host_id } => if host_id == h {
                Some(None)
            } else {
                last_say(ops.drop_last(), h)
            },
            RegistryOp::Touch { .. } => last_say(ops.drop_last(), h),
        }
    }
}

/// Over any run of registrations, heartbeats and unregistrations, a lookup
/// of a host finds what its last registration recorded, unless an
/// unregistration came after it; a host neither registered nor unregistered
/// in the run is as it was.
pub proof fn law_registry_run<C>(ms: Seq<Map<Seq<char>, AgentEntry<C>>>, ops: Seq<RegistryOp<C>>, h: Seq<char>)
    requires
        ms.len() == ops.len() + 1,
        forall|i: int| 0 <= i < ops.len() ==> op_effect(ms[i], ms[i + 1], #[trigger] ops[i]),
    ensures
        match last_say(ops, h) {
            None => ms.last().contains_key(h) == ms[0].contains_key(h) && (ms[0].contains_key(h) ==> same_record(
                ms.last()[h],
                ms[0][h],
            )),
            Some(None) => !ms.last().contains_key(h),
            Some(Some((ip, vnc, files, tx))) => {
                &&& ms.last().contains_key(h)
                &&& ms.last()[h].tailscale_ip == ip
                &&& ms.last()[h].vnc_local_port == vnc
                &&& ms.last()[h].files_local_port == files
                &&& ms.last()[h].control_tx == tx
            },
        },
    decreases ops.len(),
{
    if ops.len() > 0 {
        let n = ops.len() - 1;
        let ms0 = ms.drop_last();
        let ops0 = ops.drop_last();
        assert forall|i: int| 0 <= i < ops0.len() implies op_effect(ms0[i], ms0[i + 1], #[trigger] ops0[i]) by {
            assert(ops0[i] == ops[i]);
            assert(op_effect(ms[i], ms[i + 1], ops[i]));
        }
        law_registry_run(ms0, ops0, h);
        assert(op_effect(ms[n], ms[n + 1], ops[n]));
        assert(ms0.last() == ms[n]);
        assert(ms.last() == ms[n + 1]);
        assert(ms0[0] == ms[0]);
        match ops.last() {
            RegistryOp::Register { host_id, .. } => {
                if host_id != h {
                    assert(ms[n + 1].contains_key(h) == ms[n].contains_key(h));
                }
            },
            RegistryOp::Unregister { host_id } => {
                if host_id != h {
                    assert(ms[n + 1].contains_key(h) == ms[n].contains_key(h));
                }
            },
            RegistryOp::Touch { host_id } => {
                assert(ms[n + 1].contains_key(h) == ms[n].contains_key(h));
            },
        }
    }
}

/// What the coordinator does with a message on an agent's control connection.
#[derive(Debug)]
pub enum AgentReply {
    /// The token was wrong: drop the connection.
    Close,
    /// Registered: answer with `Registered` and remember the host id.
    Registered { host_id: String },
    /// Nothing to answer.
    Nothing,
}

/// Handles one control message from an agent: a `Register` with the right
/// token registers it (a wrong token closes the connection), a `Heartbeat`
/// marks it seen, anything else is ignored.
pub fn handle_agent_message<C>(state: &mut AppState<C>, msg: AgentMessage, control_tx: C) -> (r: AgentReply)
    requires
        old(state).wf(),
    ensures
        final(state).wf(),
        final(state).secret() == old(state).secret(),
        final(state).relay_view() == old(state).relay_view(),
        match msg {
            AgentMessage::Register { host_id, token, tailscale_ip, vnc_local_port, files_local_port } => if token@
                == old(state).secret() {
                &&& r matches AgentReply::Registered { host_id: h } && h@ == host_id@
                &&& final(state).view().dom() == old(state).view().dom().insert(host_id@)
                &&& final(state).view()[host_id@].tailscale_ip == ov(tailscale_ip)
                &&& final(state).view()[host_id@].vnc_local_port == vnc_local_port
                &&& final(state).view()[host_id@].files_local_port == files_local_port
                &&& final(state).view()[host_id@].control_tx == control_tx
                &&& forall|k: Seq<char>|
                    k != host_id@ && #[trigger] old(state).view().contains_key(k) ==> final(state).view()[k]
                        == old(state).view()[k]
            } else {
                r is Close && final(state).view() == old(state).view()
            },
            AgentMessage::Heartbeat { host_id } => r is Nothing && final(state).view().dom()
                == old(state).view().dom() && forall|k: Seq<char>| #[trigger]
                old(state).view().contains_key(k) ==> {
                    let e = final(state).view()[k];
                    let o = old(state).view()[k];
                    &&& e.tailscale_ip == o.tailscale_ip
                    &&& e.vnc_local_port == o.vnc_local_port
                    &&& e.files_local_port == o.files_local_port
                    &&& e.control_tx == o.control_tx
                    &&& k != host_id@ ==> e.last_seen_ms == o.last_seen_ms
                },
            _ => r is Nothing && final(state).view() == old(state).view(),
        },
{
    match msg {
        AgentMessage::Register { host_id, token, tailscale_ip, vnc_local_port, files_local_port } => {
            if !state.verify_token(token.as_str()) {
                return AgentReply::Close;
            }
            let reply_id = host_id.clone();
            state.register_agent(host_id, tailscale_ip, vnc_local_port, files_local_port, control_tx);
            AgentReply::Registered { host_id: reply_id }
        },
        AgentMessage::Heartbeat { host_id } => {
            state.touch_agent(host_id.as_str());
            AgentReply::Nothing
        },
        _ => AgentReply::Nothing,
    }
}

/// What the coordinator sends a client after it answers.
#[derive(Debug)]
pub enum ClientHint {
    /// A human-readable direct-connect hint (sent as plain text).
    Direct { text: String },
    /// Where to open the relayed tunnel.
    Relay { message: CoordinatorMessage },
}

/// The coordinator's answer to a client's `Connect`.
#[derive(Debug)]
pub enum ConnectPlan {
    /// Answer with this `ConnectErr`.
    Refuse { reply: CoordinatorMessage },
    /// Tell the agent `agent_notice`, open relay session `session_id`,
    /// answer `reply`, then send `hint`.
    Accept {
        session_id: u128,
        agent_notice: AgentMessage,
        reply: CoordinatorMessage,
        hint: ClientHint,
    },
}

pub open spec fn not_online_text(host_id: Seq<char>) -> Seq<char> {
    "host '"@ + host_id + "' not online"@
}

pub open spec fn direct_hint_text(ip: Seq<char>, vnc_port: u16) -> Seq<char> {
    "Direct connect: vncviewer "@ + ip + ":"@ + decimal_seq(vnc_port as nat) + " (TLS port "@
        + decimal_seq(DEFAULT_TLS_LISTEN_PORT as nat) + ")"@
}

pub open spec fn relay_addr_text() -> Seq<char> {
    "ws://127.0.0.1:"@ + decimal_seq(DEFAULT_COORDINATOR_PORT as nat)
}

/// The answer to `Connect { host_id, token }` for a given new session id.
pub fn plan_connect<C>(state: &AppState<C>, host_id: &str, token: &str, session_id: u128) -> (p: ConnectPlan)
    requires
        state.wf(),
    ensures
        token@ != state.secret() ==> (p matches ConnectPlan::Refuse {
            reply: CoordinatorMessage::ConnectErr { reason },
        } && reason@ == "invalid token"@),
        token@ == state.secret() && !state.view().contains_key(host_id@) ==> (p matches ConnectPlan::Refuse {
            reply: CoordinatorMessage::ConnectErr { reason },
        } && reason@ == not_online_text(host_id@)),
        token@ == state.secret() && state.view().contains_key(host_id@) ==> ({
            let e = state.view()[host_id@];
            let mode = if e.tailscale_ip is Some {
                RelayMode::Direct
            } else {
                RelayMode::Relayed
            };
            &&& p matches ConnectPlan::Accept { session_id: sid, agent_notice, reply, hint }
            &&& sid == session_id
            &&& agent_notice matches AgentMessage::TunnelReady { session_id: s2, target }
            &&& s2 == session_id && target == TunnelTarget::Vnc
            &&& reply matches CoordinatorMessage::ConnectOk { session_id: s3, relay_mode }
            &&& s3 == session_id && relay_mode == mode
            &&& match e.tailscale_ip {
                Some(ip) => hint matches ClientHint::Direct { text } && text@ == direct_hint_text(
                    ip,
                    e.vnc_local_port,
                ),
                None => hint matches ClientHint::Relay {
                    message: CoordinatorMessage::RelayHint { session_id: s4, coordinator_addr },
                } && s4 == session_id && coordinator_addr@ == relay_addr_text(),
            }
        }),
{
    if !state.verify_token(token) {
        return ConnectPlan::Refuse {
            reply: CoordinatorMessage::ConnectErr { reason: String::from_str("invalid token") },
        };
    }
    let (agent, _) = match state.get_agent(host_id) {
        Some(a) => a,
        None => {
            let mut reason = String::from_str("host '");
            reason.append(host_id);
            reason.append("' not online");
            return ConnectPlan::Refuse { reply: CoordinatorMessage::ConnectErr { reason } };
        },
    };
    let relay_mode = if agent.tailscale_ip.is_some() {
        RelayMode::Direct
    } else {
        RelayMode::Relayed
    };
    let hint = match &agent.tailscale_ip {
        Some(ip) => {
            let mut text = String::from_str("Direct connect: vncviewer ");
            text.append(ip.as_str());
            text.append(":");
            push_decimal(&mut text, agent.vnc_local_port as u64);
            text.append(" (TLS port ");
            push_decimal(&mut text, DEFAULT_TLS_LISTEN_PORT as u64);
            text.append(")");
            ClientHint::Direct { text }
        },
        None => {
            let mut addr = String::from_str("ws://127.0.0.1:");
            push_decimal(&mut addr, DEFAULT_COORDINATOR_PORT as u64);
            ClientHint::Relay {
                message: CoordinatorMessage::RelayHint { session_id, coordinator_addr: addr },
            }
        },
    };
    ConnectPlan::Accept {
        session_id,
        agent_notice: AgentMessage::TunnelReady { session_id, target: TunnelTarget::Vnc },
        reply: CoordinatorMessage::ConnectOk { session_id, relay_mode },
        hint,
    }
}

/// Answers a client's `Connect` with a fresh random session id.
pub fn connect_client<C>(state: &AppState<C>, host_id: &str, token: &str) -> (p: ConnectPlan)
    requires
        state.wf(),
    ensures
        token@ != state.secret() ==> (p matches ConnectPlan::Refuse {
            reply: CoordinatorMessage::ConnectErr { reason },
        } && reason@ == "invalid token"@),
        token@ == state.secret() && !state.view().contains_key(host_id@) ==> (p matches ConnectPlan::Refuse {
            reply: CoordinatorMessage::ConnectErr { reason },
        } && reason@ == not_online_text(host_id@)),
        token@ == state.secret() && state.view().contains_key(host_id@) ==> (p matches ConnectPlan::Accept {
            session_id,
            agent_notice: AgentMessage::TunnelReady { session_id: s2, target: TunnelTarget::Vnc },
            reply: CoordinatorMessage::ConnectOk { session_id: s3, relay_mode },
            hint,
        } && s2 == session_id && s3 == session_id && (relay_mode == RelayMode::Direct
            <==> state.view()[host_id@].tailscale_ip is Some) && match state.view()[host_id@].tailscale_ip {
            Some(ip) => hint matches ClientHint::Direct { text } && text@ == direct_hint_text(
                ip,
                state.view()[host_id@].vnc_local_port,
            ),
            None => hint matches ClientHint::Relay {
                message: CoordinatorMessage::RelayHint { session_id: s4, coordinator_addr },
            } && s4 == session_id && coordinator_addr@ == relay_addr_text(),
        }),
{
    let id = new_session_id();
    plan_connect(state, host_id, token, id)
}

} // verus!
