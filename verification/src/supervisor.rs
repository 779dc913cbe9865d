//! Supervision policy: restart backoffs, the VNC supervisor's decisions, and
//! the status reports the supervisor writes.
//!
//! Serving (web UI, TLS tunnels, coordinator link) is decoupled from VNC: a
//! VNC failure only restarts VNC, on its own backoff, and never marks the
//! agent unhealthy.

use vstd::prelude::*;
use crate::health::AgentStatus;
use crate::protocol::BackendPreference;
use crate::session::ov;
use crate::text::contains;
use vstd::string::*;

verus! {

pub const SESSION_POLL_SECS: u64 = 30;

pub const STATUS_TICK_SECS: u64 = 30;

pub const VNC_HEALTH_TICK_SECS: u64 = 10;

pub const RECOVERY_PAUSE_SECS: u64 = 5;

pub const RECOVERY_PAUSE_MAX_SECS: u64 = 300;

/// Fixed cooldown after the X display reports it is out of client slots.
pub const SATURATION_COOLDOWN_SECS: u64 = 60;

pub const TUNNEL_RETRY_SECS: u64 = 2;

pub const TUNNEL_RETRY_MAX_SECS: u64 = 30;

pub const VNC_PORT: u16 = 5900;

pub open spec fn pow2(k: nat) -> nat
    decreases k,
{
    if k == 0 {
        1
    } else {
        2 * pow2((k - 1) as nat)
    }
}

pub open spec fn min_nat(a: nat, b: nat) -> nat {
    if a <= b {
        a
    } else {
        b
    }
}

/// `base * 2^(min(attempt, cap_shift) - 1)` (saturating at zero), capped at `max`.
pub open spec fn doubling_backoff(base: nat, attempt: nat, cap_shift: nat, max: nat) -> nat {
    let shift = if min_nat(attempt, cap_shift) >= 1 {
        (min_nat(attempt, cap_shift) - 1) as nat
    } else {
        0nat
    };
    min_nat(base * pow2(shift), max)
}

proof fn lemma_pow2_small(k: nat)
    requires
        k <= 5,
    ensures
        pow2(k) <= 32,
{
    reveal_with_fuel(pow2, 6);
    assert(k == 0 || k == 1 || k == 2 || k == 3 || k == 4 || k == 5);
}

fn pow2_exec(k: u32) -> (p: u64)
    requires
        k <= 5,
    ensures
        p as nat == pow2(k as nat),
        p <= 32,
{
    let mut p: u64 = 1;
    let mut i: u32 = 0;
    while i < k
        invariant
            i <= k <= 5,
            p as nat == pow2(i as nat),
        decreases k - i,
    {
        proof {
            lemma_pow2_small(i as nat);
        }
        p = p * 2;
        i = i + 1;
        assert(pow2(i as nat) == 2 * pow2((i - 1) as nat));
    }
    proof {
        lemma_pow2_small(k as nat);
    }
    p
}

/// VNC restart pause: 5 s doubling per attempt, capped at 300 s.
pub fn backoff_secs(attempt: u32) -> (p: u64)
    ensures
        p as nat == doubling_backoff(RECOVERY_PAUSE_SECS as nat, attempt as nat, 6, RECOVERY_PAUSE_MAX_SECS as nat),
{
    let m = if attempt < 6 {
        attempt
    } else {
        6
    };
    let shift = if m >= 1 {
        m - 1
    } else {
        0
    };
    let p = RECOVERY_PAUSE_SECS * pow2_exec(shift);
    if p < RECOVERY_PAUSE_MAX_SECS {
        p
    } else {
        RECOVERY_PAUSE_MAX_SECS
    }
}

/// TLS tunnel re-serve pause: 2 s doubling per attempt, capped at 30 s.
pub fn tunnel_backoff_secs(attempt: u32) -> (p: u64)
    ensures
        p as nat == doubling_backoff(TUNNEL_RETRY_SECS as nat, attempt as nat, 3, TUNNEL_RETRY_MAX_SECS as nat),
{
    let m = if attempt < 3 {
        attempt
    } else {
        3
    };
    let shift = if m >= 1 {
        m - 1
    } else {
        0
    };
    let p = TUNNEL_RETRY_SECS * pow2_exec(shift);
    if p < TUNNEL_RETRY_MAX_SECS {
        p
    } else {
        TUNNEL_RETRY_MAX_SECS
    }
}

proof fn lemma_pow2_monotone(a: nat, b: nat)
    requires
        a <= b,
    ensures
        pow2(a) <= pow2(b),
        pow2(a) >= 1,
    decreases b,
{
    if b > 0 && a < b {
        lemma_pow2_monotone(a, (b - 1) as nat);
    } else if b > 0 {
        lemma_pow2_monotone((a - 1) as nat, (b - 1) as nat);
    }
}

/// The VNC restart pause never shrinks as attempts accumulate, and always
/// lies between 5 s and 300 s.
pub proof fn law_backoff_monotone_and_bounded(a: nat, b: nat)
    requires
        a <= b,
    ensures
        doubling_backoff(5, a, 6, 300) <= doubling_backoff(5, b, 6, 300),
        5 <= doubling_backoff(5, a, 6, 300) <= 300,
{
    let sa = if min_nat(a, 6) >= 1 {
        (min_nat(a, 6) - 1) as nat
    } else {
        0nat
    };
    let sb = if min_nat(b, 6) >= 1 {
        (min_nat(b, 6) - 1) as nat
    } else {
        0nat
    };
    lemma_pow2_monotone(sa, sb);
    lemma_pow2_monotone(0, sa);
}

/// The tunnel re-serve pause never shrinks as exits accumulate, and always
/// lies between 2 s and 30 s.
pub proof fn law_tunnel_backoff_monotone_and_bounded(a: nat, b: nat)
    requires
        a <= b,
    ensures
        doubling_backoff(2, a, 3, 30) <= doubling_backoff(2, b, 3, 30),
        2 <= doubling_backoff(2, a, 3, 30) <= 30,
{
    let sa = if min_nat(a, 3) >= 1 {
        (min_nat(a, 3) - 1) as nat
    } else {
        0nat
    };
    let sb = if min_nat(b, 3) >= 1 {
        (min_nat(b, 3) - 1) as nat
    } else {
        0nat
    };
    lemma_pow2_monotone(sa, sb);
    lemma_pow2_monotone(0, sa);
}

// ---------------------------------------------------------------------
// VNC supervisor
// ---------------------------------------------------------------------

/// What happened to the last VNC start attempt.
#[derive(Debug)]
pub enum VncEvent {
    /// The backend could not be built (missing binary, bad session).
    BackendUnavailable,
    /// The backend started and listens.
    Started,
    /// Starting failed with this message.
    StartFailed { message: String },
    /// A running backend failed its health check.
    HealthLost,
}

/// What the supervisor does next.
#[derive(Debug, Clone, Copy, PartialEq, Eq, Structural)]
pub enum VncAction {
    /// Stop the backend (if any), wait this long (or until shutdown), retry.
    Retry { pause_secs: u64 },
    /// Poll the running backend's health.
    Supervise,
    /// Stop the backend, reap briefly, and start over.
    Restart,
}

pub open spec fn is_saturation_text(message: Seq<char>) -> bool {
    crate::text::seq_contains_seq(message, "saturated"@) || crate::text::seq_contains_seq(
        message,
        "Maximum number of clients reached"@,
    )
}

/// Whether a start failure means the X display ran out of client slots.
pub fn is_saturation_error(message: &str) -> (b: bool)
    ensures
        b == is_saturation_text(message@),
{
    contains(message, "saturated") || contains(message, "Maximum number of clients reached")
}

/// The VNC supervisor's state: the number of consecutive failed attempts.
#[derive(Debug)]
pub struct VncSupervisor {
    pub attempt: u32,
}

pub open spec fn sat_inc(a: u32) -> u32 {
    if a < u32::MAX {
        (a + 1) as u32
    } else {
        a
    }
}

impl VncSupervisor {
    pub fn new() -> (s: VncSupervisor)
        ensures
            s.attempt == 0,
    {
        VncSupervisor { attempt: 0 }
    }

    /// Counts a new start attempt (saturating).
    pub fn begin_attempt(&mut self)
        ensures
            final(self).attempt == sat_inc(old(self).attempt),
    {
        if self.attempt < u32::MAX {
            self.attempt = self.attempt + 1;
        }
    }

    /// The decision for an event of the current attempt.
    pub fn on_event(&mut self, event: &VncEvent) -> (a: VncAction)
        ensures
            match *event {
                VncEvent::BackendUnavailable => final(self).attempt == old(self).attempt && a
                    == VncAction::Retry {
                    pause_secs: doubling_backoff(5, old(self).attempt as nat, 6, 300) as u64,
                },
                VncEvent::Started => final(self).attempt == 0 && a == VncAction::Supervise,
                VncEvent::StartFailed { message } => if is_saturation_text(message@) {
                    final(self).attempt == 1 && a == VncAction::Retry { pause_secs: SATURATION_COOLDOWN_SECS }
                } else {
                    final(self).attempt == old(self).attempt && a == VncAction::Retry {
                        pause_secs: doubling_backoff(5, old(self).attempt as nat, 6, 300) as u64,
                    }
                },
                VncEvent::HealthLost => final(self).attempt == old(self).attempt && a
                    == VncAction::Restart,
            },
    {
        match event {
            VncEvent::BackendUnavailable => VncAction::Retry { pause_secs: backoff_secs(self.attempt) },
            VncEvent::Started => {
                self.attempt = 0;
                VncAction::Supervise
            },
            VncEvent::StartFailed { message } => {
                if is_saturation_error(message.as_str()) {
                    self.attempt = 1;
                    VncAction::Retry { pause_secs: SATURATION_COOLDOWN_SECS }
                } else {
                    VncAction::Retry { pause_secs: backoff_secs(self.attempt) }
                }
            },
            VncEvent::HealthLost => VncAction::Restart,
        }
    }
}

/// Every pause the VNC supervisor asks for lies between 5 s and 300 s.
pub proof fn law_vnc_pause_bounded(attempt: nat)
    ensures
        5 <= doubling_backoff(5, attempt, 6, 300) <= 300,
        5 <= SATURATION_COOLDOWN_SECS <= 300,
{
    law_backoff_monotone_and_bounded(attempt, attempt);
}

// ---------------------------------------------------------------------
// Schedules over a run
// ---------------------------------------------------------------------

/// The attempt count after `k` counted steps from `a` (saturating).
pub open spec fn sat_inc_n(a: u32, k: nat) -> u32
    decreases k,
{
    if k == 0 {
        a
    } else {
        sat_inc(sat_inc_n(a, (k - 1) as nat))
    }
}

/// The tunnel supervisor's rebuild schedule: after the `k`-th time the
/// tunnel stops (counting from a fresh supervisor), its count is `k` and
/// the wait before rebuilding is 2 s, then 4 s, then 8 s from the third on.
pub proof fn law_tunnel_rebuild_schedule(k: nat)
    requires
        1 <= k <= u32::MAX,
    ensures
        sat_inc_n(0, k) == k,
        doubling_backoff(2, sat_inc_n(0, k) as nat, 3, 30) == (if k == 1 {
            2nat
        } else if k == 2 {
            4nat
        } else {
            8nat
        }),
    decreases k,
{
    if k > 1 {
        law_tunnel_rebuild_schedule((k - 1) as nat);
        assert(sat_inc_n(0, k) == sat_inc(sat_inc_n(0, (k - 1) as nat)));
    } else {
        assert(sat_inc_n(0, 0) == 0);
        assert(sat_inc_n(0, 1) == sat_inc(0));
    }
    reveal_with_fuel(pow2, 3);
    assert(pow2(0) == 1 && pow2(1) == 2 && pow2(2) == 4);
}

/// A start failure that says the X display is saturated.
pub open spec fn is_saturation_event(e: VncEvent) -> bool {
    match e {
        VncEvent::StartFailed { message } => is_saturation_text(message@),
        _ => false,
    }
}

/// The attempt count after one try of the VNC loop (`begin_attempt`, then
/// `on_event` with the try's outcome).
pub open spec fn vnc_step(a: u32, e: VncEvent) -> u32 {
    match e {
        VncEvent::Started => 0,
        VncEvent::StartFailed { message } => if is_saturation_text(message@) {
            1
        } else {
            sat_inc(a)
        },
        _ => sat_inc(a),
    }
}

/// The attempt count after a run of tries from a fresh supervisor.
pub open spec fn vnc_fold(es: Seq<VncEvent>) -> u32
    decreases es.len(),
{
    if es.len() == 0 {
        0
    } else {
        vnc_step(vnc_fold(es.drop_last()), es.last())
    }
}

/// Tries since the last successful start, where a saturation failure
/// counts as the first try again.
pub open spec fn tries_since_reset(es: Seq<VncEvent>) -> nat
    decreases es.len(),
{
    if es.len() == 0 {
        0
    } else {
        match es.last() {
            VncEvent::Started => 0,
            VncEvent::StartFailed { message } => if is_saturation_text(message@) {
                1
            } else {
                tries_since_reset(es.drop_last()) + 1
            },
            _ => tries_since_reset(es.drop_last()) + 1,
        }
    }
}

proof fn lemma_tries_bounded(es: Seq<VncEvent>)
    ensures
        tries_since_reset(es) <= es.len(),
    decreases es.len(),
{
    if es.len() > 0 {
        lemma_tries_bounded(es.drop_last());
    }
}

/// The VNC retry schedule over any run of tries: the supervisor's count is
/// the number of tries since the last successful start (a saturation failure
/// resets it to 1); after a saturation failure it waits 60 s, after any
/// other failure `5 s * 2^(k-1)` capped at 300 s for that count `k`.
pub proof fn law_vnc_retry_schedule(es: Seq<VncEvent>)
    requires
        es.len() < u32::MAX,
    ensures
        vnc_fold(es) == tries_since_reset(es),
        es.len() > 0 && is_saturation_event(es.last()) ==> vnc_fold(es) == 1,
        es.len() > 0 && !(es.last() is Started) && !is_saturation_event(es.last()) ==> vnc_fold(es)
            == tries_since_reset(es.drop_last()) + 1
            && doubling_backoff(5, vnc_fold(es) as nat, 6, 300) == doubling_backoff(
            5,
            tries_since_reset(es),
            6,
            300,
        ),
    decreases es.len(),
{
    if es.len() > 0 {
        law_vnc_retry_schedule(es.drop_last());
        lemma_tries_bounded(es.drop_last());
    }
}

/// The TLS tunnel supervisor's state: re-serve attempts so far (never reset).
#[derive(Debug)]
pub struct TunnelSupervisor {
    pub attempt: u32,
}

impl TunnelSupervisor {
    pub fn new() -> (s: TunnelSupervisor)
        ensures
            s.attempt == 0,
    {
        TunnelSupervisor { attempt: 0 }
    }

    /// The tunnel stopped serving: count it and return the pause before
    /// re-serving.
    pub fn after_exit(&mut self) -> (pause: u64)
        ensures
            final(self).attempt == sat_inc(old(self).attempt),
            pause as nat == doubling_backoff(2, final(self).attempt as nat, 3, 30),
    {
        if self.attempt < u32::MAX {
            self.attempt = self.attempt + 1;
        }
        tunnel_backoff_secs(self.attempt)
    }
}

// ---------------------------------------------------------------------
// Status reports
// ---------------------------------------------------------------------

pub open spec fn ok_down(b: bool) -> Seq<char> {
    if b {
        "ok"@
    } else {
        "down"@
    }
}

/// The periodic liveness report: healthy when the web port answers and the
/// coordinator (if used) is connected; VNC state is informational.
pub fn liveness_status(
    web_ok: bool,
    vnc_port_open: bool,
    needs_coordinator: bool,
    coordinator_connected: bool,
    backend: BackendPreference,
    now: u64,
) -> (st: AgentStatus)
    ensures
        st.coordinator_connected == (!needs_coordinator || coordinator_connected),
        st.healthy == (web_ok && st.coordinator_connected),
        st.session_detected,
        st.vnc_port_open == vnc_port_open,
        st.files_port_open == web_ok,
        ov(st.backend) == Some(backend.debug_text()),
        st.display is None,
        st.healthy && vnc_port_open ==> st.last_error is None,
        st.healthy && !vnc_port_open ==> ov(st.last_error) == Some("vnc=down (serving unaffected)"@),
        !st.healthy ==> ov(st.last_error) == Some(
            "web="@ + ok_down(web_ok) + " coordinator="@ + ok_down(st.coordinator_connected),
        ),
        st.updated_at_unix == now,
        st.supervisor_cycle == 0,
{
    let coord_ok = !needs_coordinator || coordinator_connected;
    let healthy = web_ok && coord_ok;
    let last_error = if healthy {
        if vnc_port_open {
            None
        } else {
            Some(String::from_str("vnc=down (serving unaffected)"))
        }
    } else {
        let mut m = String::from_str("web=");
        m.append(if web_ok {
            "ok"
        } else {
            "down"
        });
        m.append(" coordinator=");
        m.append(if coord_ok {
            "ok"
        } else {
            "down"
        });
        Some(m)
    };
    AgentStatus {
        healthy,
        session_detected: true,
        vnc_port_open,
        coordinator_connected: coord_ok,
        files_port_open: web_ok,
        backend: Some(backend.debug_name()),
        display: None,
        last_error,
        updated_at_unix: now,
        supervisor_cycle: 0,
    }
}

/// The report written while waiting for a graphical session.
pub fn waiting_status(err: &str, now: u64) -> (st: AgentStatus)
    ensures
        !st.healthy && !st.session_detected && !st.vnc_port_open,
        !st.coordinator_connected && !st.files_port_open,
        st.backend is None && st.display is None,
        ov(st.last_error) == Some(err@),
        st.updated_at_unix == now,
        st.supervisor_cycle == 0,
{
    AgentStatus {
        healthy: false,
        session_detected: false,
        vnc_port_open: false,
        coordinator_connected: false,
        files_port_open: false,
        backend: None,
        display: None,
        last_error: Some(String::from_str(err)),
        updated_at_unix: now,
        supervisor_cycle: 0,
    }
}

} // verus!
