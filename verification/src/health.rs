//! Health and status reporting for watchdog scripts (`/run/urc/status.json`).

use vstd::prelude::*;
use crate::clock::{saturating_sub_spec, unix_now_secs};
use crate::protocol::AgentConfig;
use crate::session::ov;
use crate::text::{join, join_seq, trim, trim_seq, views};
use vstd::string::*;

verus! {

/// A status report older than this is stale.
pub const MAX_STATUS_AGE_SECS: u64 = 90;

/// Where the supervisor writes its status.
pub fn status_path() -> (p: &'static str)
    ensures
        p@ == "/run/urc/status.json"@,
{
    "/run/urc/status.json"
}

/// The agent's health as written to the status file.
#[derive(Debug)]
pub struct AgentStatus {
    pub healthy: bool,
    pub session_detected: bool,
    pub vnc_port_open: bool,
    pub coordinator_connected: bool,
    pub files_port_open: bool,
    pub backend: Option<String>,
    pub display: Option<String>,
    pub last_error: Option<String>,
    pub updated_at_unix: u64,
    pub supervisor_cycle: u64,
}

impl AgentStatus {
    /// Fresh at time `now`: written at most 90 seconds before it (or after it).
    pub open spec fn fresh_at(&self, now: u64) -> bool {
        saturating_sub_spec(now, self.updated_at_unix) <= MAX_STATUS_AGE_SECS
    }

    pub fn is_fresh_at(&self, now: u64) -> (b: bool)
        ensures
            b == self.fresh_at(now),
    {
        let age = if now >= self.updated_at_unix {
            now - self.updated_at_unix
        } else {
            0
        };
        age <= MAX_STATUS_AGE_SECS
    }

    /// Whether the report is fresh now: [`Self::is_fresh_at`] at the time
    /// the clock reads. That time is the clock's, so the contract says only
    /// that the answer is the freshness at some time.
    pub fn is_fresh(&self) -> (b: bool)
        ensures
            exists|t: u64| b == self.fresh_at(t),
    {
        let now = unix_now_secs();
        self.is_fresh_at(now)
    }
}

pub open spec fn error_parts(session: bool, vnc: bool, coord: bool) -> Seq<Seq<char>> {
    (if !session {
        seq!["no graphical session"@]
    } else {
        Seq::empty()
    }) + (if !vnc {
        seq!["VNC port closed"@]
    } else {
        Seq::empty()
    }) + (if !coord {
        seq!["coordinator disconnected"@]
    } else {
        Seq::empty()
    })
}

/// The failing checks, joined with `; `.
pub fn build_error_summary(session: bool, vnc: bool, coord: bool) -> (s: String)
    ensures
        s@ == join_seq(error_parts(session, vnc, coord), "; "@),
{
    let mut parts: Vec<String> = Vec::new();
    if !session {
        parts.push(String::from_str("no graphical session"));
    }
    if !vnc {
        parts.push(String::from_str("VNC port closed"));
    }
    if !coord {
        parts.push(String::from_str("coordinator disconnected"));
    }
    assert(views(parts@) =~= error_parts(session, vnc, coord));
    join(&parts, "; ")
}

/// Whether a coordinator is configured (its URL is not blank).
pub fn needs_coordinator(config: &AgentConfig) -> (b: bool)
    ensures
        b == (trim_seq(config.coordinator_url@).len() > 0),
{
    trim(config.coordinator_url.as_str()).unicode_len() > 0
}

/// Whether the coordinator counts as connected for a probe: not needed, or
/// a fresh status report says so.
pub open spec fn probe_coordinator_ok(needs: bool, file: Option<&AgentStatus>, now: u64) -> bool {
    if !needs {
        true
    } else {
        match file {
            Some(f) => f.fresh_at(now) && f.coordinator_connected,
            None => false,
        }
    }
}

/// A probe with a coordinator configured trusts the status file only while
/// it is recent: written at most 90 s before `now` (or later), it counts the
/// coordinator connected exactly when the file says so; written longer ago,
/// or missing, it counts it disconnected whatever the file says. Without a
/// coordinator configured it counts as connected.
pub proof fn law_probe_trusts_only_recent_reports(f: &AgentStatus, now: u64)
    ensures
        now > f.updated_at_unix + 90 ==> !probe_coordinator_ok(true, Some(f), now),
        now <= f.updated_at_unix + 90 ==> (probe_coordinator_ok(true, Some(f), now) == f.coordinator_connected),
        !probe_coordinator_ok(true, None, now),
        probe_coordinator_ok(false, Some(f), now) && probe_coordinator_ok(false, None, now),
{
}

/// The status a one-shot probe reports (`urc-agent health` / `status`
/// without a fresh status file). `file` is the status file when readable.
pub fn probe_health(
    session_detected: bool,
    vnc_port_open: bool,
    files_port_open: bool,
    needs: bool,
    file: Option<&AgentStatus>,
    now: u64,
) -> (st: AgentStatus)
    ensures
        st.session_detected == session_detected,
        st.vnc_port_open == vnc_port_open,
        st.files_port_open == files_port_open,
        st.coordinator_connected == probe_coordinator_ok(needs, file, now),
        st.healthy == (session_detected && vnc_port_open && st.coordinator_connected),
        st.healthy ==> st.last_error is None,
        !st.healthy ==> ov(st.last_error) == Some(
            join_seq(error_parts(session_detected, vnc_port_open, st.coordinator_connected), "; "@),
        ),
        st.backend is None,
        st.display is None,
        st.updated_at_unix == now,
        st.supervisor_cycle == 0,
{
    let coordinator_connected = if !needs {
        true
    } else {
        match file {
            Some(f) => f.is_fresh_at(now) && f.coordinator_connected,
            None => false,
        }
    };
    let healthy = session_detected && vnc_port_open && coordinator_connected;
    AgentStatus {
        healthy,
        session_detected,
        vnc_port_open,
        coordinator_connected,
        files_port_open,
        backend: None,
        display: None,
        last_error: if healthy {
            None
        } else {
            Some(build_error_summary(session_detected, vnc_port_open, coordinator_connected))
        },
        updated_at_unix: now,
        supervisor_cycle: 0,
    }
}

pub open spec fn unhealthy_text(last_error: Option<String>, fallback: Seq<char>) -> Seq<char> {
    "unhealthy: "@ + match last_error {
        Some(e) => e@,
        None => fallback,
    }
}

fn unhealthy_message(last_error: &Option<String>, fallback: &str) -> (m: String)
    ensures
        m@ == unhealthy_text(*last_error, fallback@),
{
    let mut m = String::from_str("unhealthy: ");
    match last_error {
        Some(e) => m.append(e.as_str()),
        None => m.append(fallback),
    }
    m
}

/// `urc-agent health` from the status file: `None` when the report is stale
/// (a probe decides); otherwise healthy, or the failure with its last error.
pub fn file_health_verdict(file: &AgentStatus, now: u64) -> (r: Option<Result<(), String>>)
    ensures
        !file.fresh_at(now) ==> r is None,
        file.fresh_at(now) && file.healthy ==> r == Some(Ok::<(), String>(())),
        file.fresh_at(now) && !file.healthy ==> (r matches Some(Err(m)) && m@ == unhealthy_text(
            file.last_error,
            "unknown"@,
        )),
{
    if !file.is_fresh_at(now) {
        return None;
    }
    if file.healthy {
        return Some(Ok(()));
    }
    Some(Err(unhealthy_message(&file.last_error, "unknown")))
}

/// `urc-agent health` from a probe: healthy, or the failure with its last error.
pub fn probe_health_verdict(probe: &AgentStatus) -> (r: Result<(), String>)
    ensures
        probe.healthy ==> r is Ok,
        !probe.healthy ==> (r matches Err(m) && m@ == unhealthy_text(probe.last_error, "probe failed"@)),
{
    if probe.healthy {
        Ok(())
    } else {
        Err(unhealthy_message(&probe.last_error, "probe failed"))
    }
}

} // verus!
