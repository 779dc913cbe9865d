//! The coordinator's relay table: for each tunnel session, the channels of
//! its agent leg and its client leg. Frames from one leg go to the other.

use vstd::prelude::*;
use std::collections::HashMap;

verus! {

broadcast use vstd::std_specs::hash::group_hash_axioms;

/// Seconds between keepalive pings on an idle relay leg.
pub const RELAY_KEEPALIVE_SECS: u64 = 25;

/// The two legs of a relayed session.
#[derive(Debug)]
pub struct RelayLegs<T> {
    pub agent: Option<T>,
    pub client: Option<T>,
}

/// A new session has no legs yet (an existing one with this id is replaced).
pub open spec fn relay_created<T>(m: Map<u128, RelayLegs<T>>, id: u128) -> Map<u128, RelayLegs<T>> {
    m.insert(id, RelayLegs { agent: None, client: None })
}

/// Attaching a leg to an existing session records its channel.
pub open spec fn relay_attached<T>(m: Map<u128, RelayLegs<T>>, id: u128, tx: T, is_agent: bool) -> Map<
    u128,
    RelayLegs<T>,
> {
    if m.contains_key(id) {
        m.insert(
            id,
            if is_agent {
                RelayLegs { agent: Some(tx), client: m[id].client }
            } else {
                RelayLegs { agent: m[id].agent, client: Some(tx) }
            },
        )
    } else {
        m
    }
}

/// Where a frame from one leg goes: `None` when the session is gone,
/// `Some(None)` while the other leg is not attached.
pub open spec fn relay_peer<T>(m: Map<u128, RelayLegs<T>>, id: u128, from_agent: bool) -> Option<Option<T>> {
    if m.contains_key(id) {
        Some(
            if from_agent {
                m[id].client
            } else {
                m[id].agent
            },
        )
    } else {
        None
    }
}

/// The relay sessions by id.
#[derive(Debug)]
pub struct RelayHub<T> {
    sessions: HashMap<u128, RelayLegs<T>>,
}

impl<T> RelayHub<T> {
    pub closed spec fn view(&self) -> Map<u128, RelayLegs<T>> {
        self.sessions@
    }

    pub fn new() -> (r: RelayHub<T>)
        ensures
            r.view() == Map::<u128, RelayLegs<T>>::empty(),
    {
        RelayHub { sessions: HashMap::new() }
    }

    /// Opens session `id` with no legs attached (replacing any earlier one).
    pub fn create_session(&mut self, id: u128)
        ensures
            final(self).view() == relay_created(old(self).view(), id),
    {
        self.sessions.insert(id, RelayLegs { agent: None, client: None });
    }

    /// Attaches a leg's channel to session `id` (no effect when it is gone).
    pub fn attach(&mut self, id: u128, tx: T, is_agent: bool)
        ensures
            final(self).view() == relay_attached(old(self).view(), id, tx, is_agent),
    {
        match self.sessions.remove(&id) {
            Some(legs) => {
                let legs = if is_agent {
                    RelayLegs { agent: Some(tx), client: legs.client }
                } else {
                    RelayLegs { agent: legs.agent, client: Some(tx) }
                };
                self.sessions.insert(id, legs);
                proof {
                    assert(self.view() =~= relay_attached(old(self).view(), id, tx, is_agent));
                }
            },
            None => {
                proof {
                    assert(self.view() =~= old(self).view());
                }
            },
        }
    }

    /// Attaches the agent's leg of session `id`.
    pub fn attach_agent(&mut self, id: u128, tx: T)
        ensures
            final(self).view() == relay_attached(old(self).view(), id, tx, true),
    {
        self.attach(id, tx, true)
    }

    /// Attaches the client's leg of session `id`.
    pub fn attach_client(&mut self, id: u128, tx: T)
        ensures
            final(self).view() == relay_attached(old(self).view(), id, tx, false),
    {
        self.attach(id, tx, false)
    }

    /// The channel a frame from one leg of session `id` goes to.
    pub fn peer(&self, id: u128, from_agent: bool) -> (r: Option<Option<&T>>)
        ensures
            match relay_peer(self.view(), id, from_agent) {
                None => r is None,
                Some(None) => r == Some(None::<&T>),
                Some(Some(t)) => r matches Some(Some(x)) && *x == t,
            },
    {
        match self.sessions.get(&id) {
            None => None,
            Some(legs) => {
                let side = if from_agent {
                    &legs.client
                } else {
                    &legs.agent
                };
                match side {
                    Some(t) => Some(Some(t)),
                    None => Some(None),
                }
            },
        }
    }

    /// Closes session `id`.
    pub fn remove_session(&mut self, id: u128)
        ensures
            final(self).view() == old(self).view().remove(id),
    {
        self.sessions.remove(&id);
    }
}

/// Once both legs of a new session are attached, frames from the agent reach
/// the client's channel and frames from the client reach the agent's.
pub proof fn law_relay_bridges_legs<T>(m: Map<u128, RelayLegs<T>>, id: u128, agent: T, client: T)
    ensures
        ({
            let m2 = relay_attached(relay_attached(relay_created(m, id), id, agent, true), id, client, false);
            &&& relay_peer(m2, id, true) == Some(Some(client))
            &&& relay_peer(m2, id, false) == Some(Some(agent))
        }),
{
}

/// A closed session relays nothing.
pub proof fn law_relay_closed_session<T>(m: Map<u128, RelayLegs<T>>, id: u128, from_agent: bool)
    ensures
        relay_peer(m.remove(id), id, from_agent) is None,
{
}

} // verus!
