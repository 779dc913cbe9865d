//! Detection of the active graphical session: parsing of `loginctl`, `who`
//! and environment probes, and the choice of VNC backend.

use vstd::prelude::*;
use crate::decimal::{
    is_ascii_digit,decimal_seq, parse_u32, parse_unsigned, push_decimal};
use crate::protocol::BackendPreference;
use crate::text::{
    contains, seq_contains_seq, trim_start_char, trim_start_char_seq,
    strip_prefix,
    lemma_split_from_nonempty, lines, lines_seq, seq_starts_with, split_char, split_seq,
    split_whitespace, starts_with, str_eq, string_from_range, to_chars, to_lowercase, trim, trim_seq,
    unicode_lowercase, views, words_seq,
};
use vstd::string::*;

verus! {

#[derive(Debug, Clone, Copy, PartialEq, Eq, Structural)]
pub enum BackendKind {
    X11,
    GnomeWayland,
    WlrootsWayland,
}

impl BackendKind {
    pub open spec fn debug_text(self) -> Seq<char> {
        match self {
            BackendKind::X11 => "X11"@,
            BackendKind::GnomeWayland => "GnomeWayland"@,
            BackendKind::WlrootsWayland => "WlrootsWayland"@,
        }
    }

    /// The variant's name, as `{:?}` renders it.
    pub fn debug_name(&self) -> (s: String)
        ensures
            s@ == self.debug_text(),
    {
        match self {
            BackendKind::X11 => String::from_str("X11"),
            BackendKind::GnomeWayland => String::from_str("GnomeWayland"),
            BackendKind::WlrootsWayland => String::from_str("WlrootsWayland"),
        }
    }
}

/// The graphical session the agent serves.
#[derive(Debug)]
pub struct SessionInfo {
    pub backend_kind: BackendKind,
    pub display: Option<String>,
    pub wayland_display: Option<String>,
    pub xauthority: Option<String>,
    pub uid: u32,
    pub username: String,
    pub desktop: Option<String>,
}

pub struct SessionInfoView {
    pub backend_kind: BackendKind,
    pub display: Option<Seq<char>>,
    pub wayland_display: Option<Seq<char>>,
    pub xauthority: Option<Seq<char>>,
    pub uid: u32,
    pub username: Seq<char>,
    pub desktop: Option<Seq<char>>,
}

pub open spec fn ov(o: Option<String>) -> Option<Seq<char>> {
    match o {
        Some(s) => Some(s@),
        None => None,
    }
}

pub fn copy_opt(o: &Option<String>) -> (r: Option<String>)
    ensures
        ov(r) == ov(*o),
{
    match o {
        Some(s) => Some(s.clone()),
        None => None,
    }
}

impl View for SessionInfo {
    type V = SessionInfoView;

    open spec fn view(&self) -> SessionInfoView {
        SessionInfoView {
            backend_kind: self.backend_kind,
            display: ov(self.display),
            wayland_display: ov(self.wayland_display),
            xauthority: ov(self.xauthority),
            uid: self.uid,
            username: self.username@,
            desktop: ov(self.desktop),
        }
    }
}

impl SessionInfo {
    /// A field-by-field copy.
    pub fn duplicate(&self) -> (r: SessionInfo)
        ensures
            r@ == self@,
    {
        SessionInfo {
            backend_kind: self.backend_kind,
            display: copy_opt(&self.display),
            wayland_display: copy_opt(&self.wayland_display),
            xauthority: copy_opt(&self.xauthority),
            uid: self.uid,
            username: self.username.clone(),
            desktop: copy_opt(&self.desktop),
        }
    }
}

// ---------------------------------------------------------------------
// Errors
// ---------------------------------------------------------------------

/// What `{:?}` renders for a string (quoted, with escapes).
pub uninterp spec fn debug_quoted(s: Seq<char>) -> Seq<char>;

/// `format!("{:?}", s)` for a string slice (std). Contract: the result is the
/// named rendering of `s`; the escaping rules are left unsaid.
#[verifier::external_body]
fn debug_str(s: &str) -> (r: String)
    ensures
        r@ == debug_quoted(s@),
{
    format!("{:?}", s)
}

#[derive(Debug)]
pub enum SessionError {
    /// Preference `x11`, but the session is of another kind.
    PreferenceX11 { actual: BackendKind },
    PreferenceGnome,
    PreferenceWayvnc,
    /// A Wayland session whose desktop is neither GNOME nor wlroots.
    UnsupportedWaylandDesktop { desktop: String },
    /// A Wayland session without a detectable desktop.
    UnrecognizedWayland,
    UnsupportedSessionType { session_type: String },
    NoActiveSession,
    /// Environment fallback: Wayland without a supported desktop.
    UnsupportedEnvDesktop,
    /// Environment fallback: neither `DISPLAY` nor `WAYLAND_DISPLAY`.
    NoDisplay,
}

pub enum SessionErrorView {
    PreferenceX11 { actual: BackendKind },
    PreferenceGnome,
    PreferenceWayvnc,
    UnsupportedWaylandDesktop { desktop: Seq<char> },
    UnrecognizedWayland,
    UnsupportedSessionType { session_type: Seq<char> },
    NoActiveSession,
    UnsupportedEnvDesktop,
    NoDisplay,
}

impl View for SessionError {
    type V = SessionErrorView;

    open spec fn view(&self) -> SessionErrorView {
        match self {
            SessionError::PreferenceX11 { actual } => SessionErrorView::PreferenceX11 { actual: *actual },
            SessionError::PreferenceGnome => SessionErrorView::PreferenceGnome,
            SessionError::PreferenceWayvnc => SessionErrorView::PreferenceWayvnc,
            SessionError::UnsupportedWaylandDesktop { desktop } => SessionErrorView::UnsupportedWaylandDesktop {
                desktop: desktop@,
            },
            SessionError::UnrecognizedWayland => SessionErrorView::UnrecognizedWayland,
            SessionError::UnsupportedSessionType { session_type } => SessionErrorView::UnsupportedSessionType {
                session_type: session_type@,
            },
            SessionError::NoActiveSession => SessionErrorView::NoActiveSession,
            SessionError::UnsupportedEnvDesktop => SessionErrorView::UnsupportedEnvDesktop,
            SessionError::NoDisplay => SessionErrorView::NoDisplay,
        }
    }
}

pub open spec fn session_error_text(e: SessionErrorView) -> Seq<char> {
    match e {
        SessionErrorView::PreferenceX11 { actual } => "backend preference x11 but active session is "@
            + actual.debug_text() + ". Log in on Xorg or set backend = \"auto\"."@,
        SessionErrorView::PreferenceGnome => "backend preference gnome but session is not GNOME Wayland"@,
        SessionErrorView::PreferenceWayvnc => "backend preference wayvnc but session is not wlroots Wayland"@,
        SessionErrorView::UnsupportedWaylandDesktop { desktop } => "Wayland session detected (desktop=Some("@
            + debug_quoted(desktop)
            + ")) but desktop environment is not supported. Supported: GNOME (gnome-remote-desktop) or wlroots (wayvnc). See docs/headless-server.md"@,
        SessionErrorView::UnrecognizedWayland => "Wayland session without recognized desktop. Install GNOME or use Xorg (WaylandEnable=false in gdm custom.conf)."@,
        SessionErrorView::UnsupportedSessionType { session_type } => "unsupported session type: "@
            + session_type,
        SessionErrorView::NoActiveSession => "no active graphical session found. On a headless server install the desktop profile: install.sh --profile desktop --gpu auto. Or log in locally to start a session."@,
        SessionErrorView::UnsupportedEnvDesktop => "Wayland without supported DE in current environment"@,
        SessionErrorView::NoDisplay => "no DISPLAY or WAYLAND_DISPLAY and loginctl found no session"@,
    }
}

impl SessionError {
    /// The message shown to the user.
    pub fn message(&self) -> (m: String)
        ensures
            m@ == session_error_text(self@),
    {
        match self {
            SessionError::PreferenceX11 { actual } => {
                let mut m = String::from_str("backend preference x11 but active session is ");
                m.append(actual.debug_name().as_str());
                m.append(". Log in on Xorg or set backend = \"auto\".");
                m
            },
            SessionError::PreferenceGnome => String::from_str(
                "backend preference gnome but session is not GNOME Wayland",
            ),
            SessionError::PreferenceWayvnc => String::from_str(
                "backend preference wayvnc but session is not wlroots Wayland",
            ),
            SessionError::UnsupportedWaylandDesktop { desktop } => {
                let mut m = String::from_str("Wayland session detected (desktop=Some(");
                m.append(debug_str(desktop.as_str()).as_str());
                m.append(
                    ")) but desktop environment is not supported. Supported: GNOME (gnome-remote-desktop) or wlroots (wayvnc). See docs/headless-server.md",
                );
                m
            },
            SessionError::UnrecognizedWayland => String::from_str(
                "Wayland session without recognized desktop. Install GNOME or use Xorg (WaylandEnable=false in gdm custom.conf).",
            ),
            SessionError::UnsupportedSessionType { session_type } => {
                let mut m = String::from_str("unsupported session type: ");
                m.append(session_type.as_str());
                m
            },
            SessionError::NoActiveSession => String::from_str(
                "no active graphical session found. On a headless server install the desktop profile: install.sh --profile desktop --gpu auto. Or log in locally to start a session.",
            ),
            SessionError::UnsupportedEnvDesktop => String::from_str(
                "Wayland without supported DE in current environment",
            ),
            SessionError::NoDisplay => String::from_str(
                "no DISPLAY or WAYLAND_DISPLAY and loginctl found no session",
            ),
        }
    }
}

// ---------------------------------------------------------------------
// Preference
// ---------------------------------------------------------------------

/// Whether a session of `kind` satisfies the configured preference.
pub open spec fn preference_accepts(preference: BackendPreference, kind: BackendKind) -> bool {
    match preference {
        BackendPreference::Auto => true,
        BackendPreference::X11 => kind == BackendKind::X11,
        BackendPreference::Gnome => kind == BackendKind::GnomeWayland,
        BackendPreference::Wayvnc => kind == BackendKind::WlrootsWayland,
    }
}

/// The refusal for a session that the preference does not accept.
pub open spec fn preference_refusal(preference: BackendPreference, kind: BackendKind) -> SessionErrorView {
    match preference {
        BackendPreference::Gnome => SessionErrorView::PreferenceGnome,
        BackendPreference::Wayvnc => SessionErrorView::PreferenceWayvnc,
        _ => SessionErrorView::PreferenceX11 { actual: kind },
    }
}

/// What the preference makes of a detected session.
pub open spec fn preference_outcome(info: SessionInfoView, preference: BackendPreference) -> Result<
    SessionInfoView,
    SessionErrorView,
> {
    if preference_accepts(preference, info.backend_kind) {
        Ok(info)
    } else {
        Err(preference_refusal(preference, info.backend_kind))
    }
}

pub open spec fn result_view(r: Result<SessionInfo, SessionError>) -> Result<SessionInfoView, SessionErrorView> {
    match r {
        Ok(i) => Ok(i@),
        Err(e) => Err(e@),
    }
}

// ---------------------------------------------------------------------
// Environment fallback
// ---------------------------------------------------------------------

/// The environment variables the fallback detection reads.
#[derive(Debug)]
pub struct EnvSnapshot {
    pub display: Option<String>,
    pub wayland_display: Option<String>,
    pub xauthority: Option<String>,
    /// `UID`
    pub uid: Option<String>,
    /// `USER`
    pub user: Option<String>,
}

pub open spec fn env_uid_spec(env: EnvSnapshot) -> u32 {
    match env.uid {
        Some(s) => match parse_unsigned(s@, u32::MAX as nat) {
            Some(v) => v as u32,
            None => 1000,
        },
        None => 1000,
    }
}

pub open spec fn uid_name(uid: u32) -> Seq<char> {
    "uid"@ + decimal_seq(uid as nat)
}

pub open spec fn env_username_spec(env: EnvSnapshot) -> Seq<char> {
    match env.user {
        Some(u) => u@,
        None => uid_name(env_uid_spec(env)),
    }
}

/// `uid{n}`, the name used for a session without a user name.
pub fn uid_username(uid: u32) -> (s: String)
    ensures
        s@ == uid_name(uid),
{
    let mut s = String::from_str("uid");
    push_decimal(&mut s, uid as u64);
    s
}

/// `UID` parsed, or 1000.
pub fn env_uid(env: &EnvSnapshot) -> (u: u32)
    ensures
        u == env_uid_spec(*env),
{
    match &env.uid {
        Some(s) => match parse_u32(s.as_str()) {
            Some(v) => v,
            None => 1000,
        },
        None => 1000,
    }
}

/// `USER`, or `uid{UID}`.
pub fn env_username(env: &EnvSnapshot) -> (s: String)
    ensures
        s@ == env_username_spec(*env),
{
    match &env.user {
        Some(u) => u.clone(),
        None => uid_username(env_uid(env)),
    }
}

/// Whether the fallback needs the user's desktop name (it does whenever a
/// display variable is set).
pub fn env_needs_desktop(env: &EnvSnapshot) -> (b: bool)
    ensures
        b == (env.wayland_display is Some || env.display is Some),
{
    env.wayland_display.is_some() || env.display.is_some()
}

pub open spec fn is_gnome_name(d: Seq<char>) -> bool {
    d == "gnome"@ || d == "ubuntu"@
}

/// The session the environment describes, before the preference applies.
pub open spec fn env_session_spec(env: EnvSnapshot, desktop: Option<Seq<char>>) -> Result<
    SessionInfoView,
    SessionErrorView,
> {
    let uid = env_uid_spec(env);
    let username = env_username_spec(env);
    if env.wayland_display is Some {
        let kind = match desktop {
            Some(d) => if is_gnome_name(d) {
                Some(BackendKind::GnomeWayland)
            } else if d == "sway"@ || d == "hyprland"@ {
                Some(BackendKind::WlrootsWayland)
            } else {
                None
            },
            None => None,
        };
        match kind {
            Some(k) => Ok(
                SessionInfoView {
                    backend_kind: k,
                    display: None,
                    wayland_display: ov(env.wayland_display),
                    xauthority: ov(env.xauthority),
                    uid,
                    username,
                    desktop,
                },
            ),
            None => Err(SessionErrorView::UnsupportedEnvDesktop),
        }
    } else if env.display is Some {
        Ok(
            SessionInfoView {
                backend_kind: BackendKind::X11,
                display: ov(env.display),
                wayland_display: None,
                xauthority: ov(env.xauthority),
                uid,
                username,
                desktop,
            },
        )
    } else {
        Err(SessionErrorView::NoDisplay)
    }
}

pub open spec fn env_outcome(env: EnvSnapshot, desktop: Option<Seq<char>>, preference: BackendPreference) -> Result<
    SessionInfoView,
    SessionErrorView,
> {
    match env_session_spec(env, desktop) {
        Ok(info) => preference_outcome(info, preference),
        Err(e) => Err(e),
    }
}

/// Marker for the detection entry points.
pub struct SessionDetector;

impl SessionDetector {
    /// Applies the configured backend preference to a detected session.
    pub fn apply_preference(info: SessionInfo, preference: BackendPreference) -> (r: Result<
        SessionInfo,
        SessionError,
    >)
        ensures
            result_view(r) == preference_outcome(info@, preference),
    {
        match preference {
            BackendPreference::Auto => Ok(info),
            BackendPreference::X11 => {
                if info.backend_kind != BackendKind::X11 {
                    return Err(SessionError::PreferenceX11 { actual: info.backend_kind });
                }
                Ok(info)
            },
            BackendPreference::Gnome => {
                if info.backend_kind != BackendKind::GnomeWayland {
                    return Err(SessionError::PreferenceGnome);
                }
                Ok(info)
            },
            BackendPreference::Wayvnc => {
                if info.backend_kind != BackendKind::WlrootsWayland {
                    return Err(SessionError::PreferenceWayvnc);
                }
                Ok(info)
            },
        }
    }

    /// The session the environment variables describe (`desktop` is the
    /// user's desktop name, asked for when [`env_needs_desktop`]), with the
    /// preference applied.
    pub fn from_env(env: &EnvSnapshot, desktop: Option<String>, preference: BackendPreference) -> (r: Result<
        SessionInfo,
        SessionError,
    >)
        ensures
            result_view(r) == env_outcome(*env, ov(desktop), preference),
    {
        let uid = env_uid(env);
        let username = env_username(env);
        let info = if env.wayland_display.is_some() {
            let kind = match &desktop {
                Some(d) => if str_eq(d.as_str(), "gnome") || str_eq(d.as_str(), "ubuntu") {
                    BackendKind::GnomeWayland
                } else if str_eq(d.as_str(), "sway") || str_eq(d.as_str(), "hyprland") {
                    BackendKind::WlrootsWayland
                } else {
                    return Err(SessionError::UnsupportedEnvDesktop);
                },
                None => return Err(SessionError::UnsupportedEnvDesktop),
            };
            SessionInfo {
                backend_kind: kind,
                display: None,
                wayland_display: copy_opt(&env.wayland_display),
                xauthority: copy_opt(&env.xauthority),
                uid,
                username,
                desktop,
            }
        } else if env.display.is_some() {
            SessionInfo {
                backend_kind: BackendKind::X11,
                display: copy_opt(&env.display),
                wayland_display: None,
                xauthority: copy_opt(&env.xauthority),
                uid,
                username,
                desktop,
            }
        } else {
            return Err(SessionError::NoDisplay);
        };
        Self::apply_preference(info, preference)
    }

    /// Detection: the session `loginctl` found, with the preference applied;
    /// when `loginctl` found none, the environment fallback.
    pub fn detect(
        loginctl: Result<SessionInfo, SessionError>,
        env: &EnvSnapshot,
        env_desktop: Option<String>,
        preference: BackendPreference,
    ) -> (r: Result<SessionInfo, SessionError>)
        ensures
            match loginctl {
                Ok(info) => result_view(r) == preference_outcome(info@, preference),
                Err(_) => result_view(r) == env_outcome(*env, ov(env_desktop), preference),
            },
    {
        match loginctl {
            Ok(info) => Self::apply_preference(info, preference),
            Err(_) => Self::from_env(env, env_desktop, preference),
        }
    }
}


// ---------------------------------------------------------------------
// loginctl
// ---------------------------------------------------------------------

/// A session listed by `loginctl list-sessions --no-legend`.
#[derive(Debug)]
pub struct ListedSession {
    pub id: String,
    pub uid: u32,
}

/// A listing line with at least three fields and a non-zero (or unparsable,
/// hence zero) uid is skipped; otherwise it names the session id and uid.
pub open spec fn listed_of_line(line: Seq<char>) -> Option<(Seq<char>, u32)> {
    let w = words_seq(line);
    if w.len() < 3 {
        None
    } else {
        let uid: u32 = match parse_unsigned(w[1], u32::MAX as nat) {
            Some(v) => v as u32,
            None => 0,
        };
        if uid == 0 {
            None
        } else {
            Some((w[0], uid))
        }
    }
}

pub open spec fn listed_of_lines(ls: Seq<Seq<char>>) -> Seq<(Seq<char>, u32)>
    decreases ls.len(),
{
    if ls.len() == 0 {
        Seq::empty()
    } else {
        let rest = listed_of_lines(ls.drop_last());
        match listed_of_line(ls.last()) {
            Some(x) => rest.push(x),
            None => rest,
        }
    }
}

pub open spec fn listed_views(v: Seq<ListedSession>) -> Seq<(Seq<char>, u32)> {
    v.map_values(|s: ListedSession| (s.id@, s.uid))
}

/// The candidate sessions of a `loginctl list-sessions` listing, in order.
pub fn parse_session_list(stdout: &str) -> (r: Vec<ListedSession>)
    ensures
        listed_views(r@) == listed_of_lines(lines_seq(stdout@)),
{
    let ls = lines(stdout);
    let mut out: Vec<ListedSession> = Vec::new();
    let mut i: usize = 0;
    assert(views(ls@).subrange(0, 0) =~= Seq::<Seq<char>>::empty());
    while i < ls.len()
        invariant
            views(ls@) == lines_seq(stdout@),
            i <= ls@.len(),
            listed_views(out@) == listed_of_lines(views(ls@).subrange(0, i as int)),
        decreases ls@.len() - i,
    {
        let ghost sub = views(ls@).subrange(0, i + 1);
        assert(sub.drop_last() =~= views(ls@).subrange(0, i as int));
        assert(sub.last() == ls@[i as int]@);
        let parts = split_whitespace(ls[i].as_str());
        if parts.len() >= 3 {
            assert(views(parts@)[1] == parts@[1]@);
            assert(views(parts@)[0] == parts@[0]@);
            let uid: u32 = match parse_u32(parts[1].as_str()) {
                Some(v) => v,
                None => 0,
            };
            if uid != 0 {
                let ghost old_out = out@;
                out.push(ListedSession { id: parts[0].clone(), uid });
                assert(listed_views(out@) =~= listed_views(old_out).push((parts@[0]@, uid)));
            }
        }
        i = i + 1;
    }
    assert(views(ls@).subrange(0, ls@.len() as int) =~= views(ls@));
    out
}

/// The properties `loginctl show-session -p Type -p Display -p Name -p Active` printed.
#[derive(Debug)]
pub struct ShowSession {
    pub session_type: String,
    pub display: Option<String>,
    pub username: Option<String>,
    pub active: bool,
}

pub struct ShowView {
    pub session_type: Seq<char>,
    pub display: Option<Seq<char>>,
    pub username: Option<Seq<char>>,
    pub active: bool,
}

impl View for ShowSession {
    type V = ShowView;

    open spec fn view(&self) -> ShowView {
        ShowView {
            session_type: self.session_type@,
            display: ov(self.display),
            username: ov(self.username),
            active: self.active,
        }
    }
}

pub open spec fn after(l: Seq<char>, p: Seq<char>) -> Seq<char> {
    l.subrange(p.len() as int, l.len() as int)
}

/// One line's effect: `Type=` and `Name=` set their value, a non-empty
/// `Display=` sets the display, `Active=yes` marks the session active.
pub open spec fn show_step(acc: ShowView, l: Seq<char>) -> ShowView {
    if seq_starts_with(l, "Type="@) {
        ShowView {
            session_type: after(l, "Type="@),
            display: acc.display,
            username: acc.username,
            active: acc.active,
        }
    } else if seq_starts_with(l, "Display="@) {
        if after(l, "Display="@).len() > 0 {
            ShowView {
                session_type: acc.session_type,
                display: Some(after(l, "Display="@)),
                username: acc.username,
                active: acc.active,
            }
        } else {
            acc
        }
    } else if seq_starts_with(l, "Name="@) {
        ShowView {
            session_type: acc.session_type,
            display: acc.display,
            username: Some(after(l, "Name="@)),
            active: acc.active,
        }
    } else if l == "Active=yes"@ {
        ShowView {
            session_type: acc.session_type,
            display: acc.display,
            username: acc.username,
            active: true,
        }
    } else {
        acc
    }
}

pub open spec fn show_of_lines(ls: Seq<Seq<char>>) -> ShowView
    decreases ls.len(),
{
    if ls.len() == 0 {
        ShowView { session_type: Seq::empty(), display: None, username: None, active: false }
    } else {
        show_step(show_of_lines(ls.drop_last()), ls.last())
    }
}

/// Reads the output of `loginctl show-session`.
pub fn parse_show_session(text: &str) -> (r: ShowSession)
    ensures
        r@ == show_of_lines(lines_seq(text@)),
{
    let ls = lines(text);
    let mut acc = ShowSession {
        session_type: String::new(),
        display: None,
        username: None,
        active: false,
    };
    let mut i: usize = 0;
    assert(views(ls@).subrange(0, 0) =~= Seq::<Seq<char>>::empty());
    while i < ls.len()
        invariant
            views(ls@) == lines_seq(text@),
            i <= ls@.len(),
            acc@ == show_of_lines(views(ls@).subrange(0, i as int)),
        decreases ls@.len() - i,
    {
        let ghost sub = views(ls@).subrange(0, i + 1);
        assert(sub.drop_last() =~= views(ls@).subrange(0, i as int));
        assert(sub.last() == ls@[i as int]@);
        let l = ls[i].as_str();
        if let Some(v) = strip_prefix(l, "Type=") {
            acc.session_type = v;
        } else if let Some(v) = strip_prefix(l, "Display=") {
            if v.unicode_len() > 0 {
                acc.display = Some(v);
            }
        } else if let Some(v) = strip_prefix(l, "Name=") {
            acc.username = Some(v);
        } else if str_eq(l, "Active=yes") {
            acc.active = true;
        }
        i = i + 1;
    }
    assert(views(ls@).subrange(0, ls@.len() as int) =~= views(ls@));
    acc
}

pub open spec fn loginctl_username_spec(show: ShowView, uid: u32) -> Seq<char> {
    match show.username {
        Some(u) => u,
        None => uid_name(uid),
    }
}

/// The user of a listed session: its `Name=`, or `uid{n}`.
pub fn loginctl_username(show: &ShowSession, uid: u32) -> (s: String)
    ensures
        s@ == loginctl_username_spec(show@, uid),
{
    match &show.username {
        Some(u) => u.clone(),
        None => uid_username(uid),
    }
}

pub open spec fn is_wlroots_name(d: Seq<char>) -> bool {
    d == "sway"@ || d == "hyprland"@ || d == "wayfire"@
}

/// The backend a session type and desktop call for.
pub open spec fn classify_spec(session_type: Seq<char>, desktop: Option<Seq<char>>) -> Result<
    BackendKind,
    SessionErrorView,
> {
    if session_type == "x11"@ {
        Ok(BackendKind::X11)
    } else if session_type == "wayland"@ {
        match desktop {
            Some(d) => if is_gnome_name(d) {
                Ok(BackendKind::GnomeWayland)
            } else if is_wlroots_name(d) {
                Ok(BackendKind::WlrootsWayland)
            } else {
                Err(SessionErrorView::UnsupportedWaylandDesktop { desktop: d })
            },
            None => Err(SessionErrorView::UnrecognizedWayland),
        }
    } else {
        Err(SessionErrorView::UnsupportedSessionType { session_type })
    }
}

/// Chooses the backend for a `loginctl` session type and desktop name.
pub fn classify_session(session_type: &str, desktop: &Option<String>) -> (r: Result<BackendKind, SessionError>)
    ensures
        match r {
            Ok(k) => classify_spec(session_type@, ov(*desktop)) == Ok::<BackendKind, SessionErrorView>(k),
            Err(e) => classify_spec(session_type@, ov(*desktop)) == Err::<BackendKind, SessionErrorView>(e@),
        },
{
    if str_eq(session_type, "x11") {
        Ok(BackendKind::X11)
    } else if str_eq(session_type, "wayland") {
        match desktop {
            Some(d) => {
                let ds = d.as_str();
                if str_eq(ds, "gnome") || str_eq(ds, "ubuntu") {
                    Ok(BackendKind::GnomeWayland)
                } else if str_eq(ds, "sway") || str_eq(ds, "hyprland") || str_eq(ds, "wayfire") {
                    Ok(BackendKind::WlrootsWayland)
                } else {
                    Err(SessionError::UnsupportedWaylandDesktop { desktop: d.clone() })
                }
            },
            None => Err(SessionError::UnrecognizedWayland),
        }
    } else {
        Err(SessionError::UnsupportedSessionType { session_type: String::from_str(session_type) })
    }
}

/// The backend follows the session type and desktop name: on Wayland, the
/// wlroots desktops `sway`, `hyprland` and `wayfire` get wayvnc, `gnome` and
/// `ubuntu` get GNOME's own server, any other named desktop is refused with
/// its name, and a nameless one is unrecognised; an X11 session is X11
/// whatever the desktop; any other session type is refused with its type.
pub proof fn law_classify_by_desktop(d: Seq<char>, t: Seq<char>)
    ensures
        (d == "sway"@ || d == "hyprland"@ || d == "wayfire"@) ==> classify_spec("wayland"@, Some(d))
            == Ok::<BackendKind, SessionErrorView>(BackendKind::WlrootsWayland),
        (d == "gnome"@ || d == "ubuntu"@) ==> classify_spec("wayland"@, Some(d)) == Ok::<
            BackendKind,
            SessionErrorView,
        >(BackendKind::GnomeWayland),
        !(d == "sway"@ || d == "hyprland"@ || d == "wayfire"@ || d == "gnome"@ || d == "ubuntu"@)
            ==> classify_spec("wayland"@, Some(d)) == Err::<BackendKind, SessionErrorView>(
            SessionErrorView::UnsupportedWaylandDesktop { desktop: d },
        ),
        classify_spec("wayland"@, None) == Err::<BackendKind, SessionErrorView>(
            SessionErrorView::UnrecognizedWayland,
        ),
        classify_spec("x11"@, Some(d)) == Ok::<BackendKind, SessionErrorView>(BackendKind::X11),
        t != "x11"@ && t != "wayland"@ ==> classify_spec(t, Some(d)) == Err::<BackendKind, SessionErrorView>(
            SessionErrorView::UnsupportedSessionType { session_type: t },
        ),
{
    reveal_strlit("x11");
    reveal_strlit("wayland");
    reveal_strlit("sway");
    reveal_strlit("hyprland");
    reveal_strlit("wayfire");
    reveal_strlit("gnome");
    reveal_strlit("ubuntu");
    assert("gnome"@.len() == 5 && "ubuntu"@.len() == 6);
    assert("x11"@.len() == 3 && "wayland"@.len() == 7);
    assert("wayland"@ != "x11"@);
    if d == "sway"@ || d == "hyprland"@ || d == "wayfire"@ {
        assert(d.len() == 4 || d.len() == 8 || d.len() == 7);
        assert(!is_gnome_name(d));
    }
}

/// The session an active `loginctl` entry describes, given the display and
/// X authority file found for it and the user's desktop name.
pub open spec fn loginctl_outcome(
    show: ShowView,
    uid: u32,
    display: Option<Seq<char>>,
    xauthority: Option<Seq<char>>,
    desktop: Option<Seq<char>>,
) -> Result<SessionInfoView, SessionErrorView> {
    match classify_spec(show.session_type, desktop) {
        Err(e) => Err(e),
        Ok(k) => Ok(
            SessionInfoView {
                backend_kind: k,
                display,
                wayland_display: if show.session_type == "wayland"@ {
                    Some("wayland-0"@)
                } else {
                    display
                },
                xauthority,
                uid,
                username: loginctl_username_spec(show, uid),
                desktop,
            },
        ),
    }
}

/// Assembles the session for an active `loginctl` entry.
pub fn finish_loginctl_session(
    show: &ShowSession,
    uid: u32,
    display: Option<String>,
    xauthority: Option<String>,
    desktop: Option<String>,
) -> (r: Result<SessionInfo, SessionError>)
    ensures
        result_view(r) == loginctl_outcome(show@, uid, ov(display), ov(xauthority), ov(desktop)),
{
    let kind = match classify_session(show.session_type.as_str(), &desktop) {
        Ok(k) => k,
        Err(e) => return Err(e),
    };
    let username = loginctl_username(show, uid);
    let wayland_display = if str_eq(show.session_type.as_str(), "wayland") {
        Some(String::from_str("wayland-0"))
    } else {
        copy_opt(&display)
    };
    Ok(
        SessionInfo {
            backend_kind: kind,
            display,
            wayland_display,
            xauthority,
            uid,
            username,
            desktop,
        },
    )
}

// ---------------------------------------------------------------------
// Paths and probe outputs
// ---------------------------------------------------------------------

pub open spec fn runtime_dir_spec(uid: u32) -> Seq<char> {
    "/run/user/"@ + decimal_seq(uid as nat)
}

/// `/run/user/{uid}`.
pub fn runtime_dir(uid: u32) -> (s: String)
    ensures
        s@ == runtime_dir_spec(uid),
{
    let mut s = String::from_str("/run/user/");
    push_decimal(&mut s, uid as u64);
    s
}

/// `/run/user/{uid}/gdm/Xauthority`.
pub fn gdm_xauthority_path(uid: u32) -> (s: String)
    ensures
        s@ == runtime_dir_spec(uid) + "/gdm/Xauthority"@,
{
    let mut s = runtime_dir(uid);
    s.append("/gdm/Xauthority");
    s
}

/// Whether the scan of `loginctl` sessions takes this one: its properties
/// were read (`None` when `show-session` failed), it is active, and it is a
/// graphical (X11 or Wayland) session; otherwise the scan goes on.
pub fn loginctl_scan_step(show: &Option<ShowSession>) -> (take: bool)
    ensures
        take == (show matches Some(s) && s.active && (s.session_type@ == "x11"@ || s.session_type@
            == "wayland"@)),
{
    match show {
        Some(s) => s.active && (str_eq(s.session_type.as_str(), "x11") || str_eq(s.session_type.as_str(), "wayland")),
        None => false,
    }
}

/// Where an X11 session's display is looked for after `Display=`, in order.
#[derive(Debug, Clone, Copy, PartialEq, Eq, Structural)]
pub enum DisplaySource {
    /// The user's line in `who`.
    Who,
    /// The user's sockets in `/tmp/.X11-unix`.
    X11Sockets,
    /// `DISPLAY` in the user's login shell.
    UserEnv,
}

pub open spec fn opt_views(v: Seq<Option<String>>) -> Seq<Option<Seq<char>>> {
    v.map_values(|o: Option<String>| ov(o))
}

/// The first value present, in order.
pub open spec fn first_found(s: Seq<Option<Seq<char>>>) -> Option<Seq<char>>
    decreases s.len(),
{
    if s.len() == 0 {
        None
    } else {
        match s[0] {
            Some(x) => Some(x),
            None => first_found(s.drop_first()),
        }
    }
}

/// The source tried after `n` sources (`Display=` first) gave nothing.
pub open spec fn source_after(n: int) -> DisplaySource {
    if n == 1 {
        DisplaySource::Who
    } else if n == 2 {
        DisplaySource::X11Sockets
    } else {
        DisplaySource::UserEnv
    }
}

/// One step of finding a session's display. `found` holds what the sources
/// tried so far gave, in order: `Display=`, then `who`, `/tmp/.X11-unix`
/// and the user's `DISPLAY`. A non-X11 session takes `Display=` as it is.
/// An X11 session takes the first display found; while none is found, the
/// next source is asked for; when all four gave nothing, it has none (no
/// default `:0` is assumed).
pub fn next_display_source(session_type: &str, found: &Vec<Option<String>>) -> (r: Result<Option<String>, DisplaySource>)
    requires
        1 <= found@.len() <= 4,
    ensures
        session_type@ != "x11"@ ==> (r matches Ok(d) && ov(d) == ov(found@[0])),
        session_type@ == "x11"@ ==> match first_found(opt_views(found@)) {
            Some(d) => r matches Ok(Some(x)) && x@ == d,
            None => if found@.len() < 4 {
                r == Err::<Option<String>, DisplaySource>(source_after(found@.len() as int))
            } else {
                r matches Ok(None)
            },
        },
{
    if !str_eq(session_type, "x11") {
        return Ok(copy_opt(&found[0]));
    }
    let ghost v = opt_views(found@);
    let n = found.len();
    let mut i: usize = 0;
    assert(v.subrange(0, n as int) =~= v);
    while i < n
        invariant
            session_type@ == "x11"@,
            n == found@.len(),
            v == opt_views(found@),
            i <= n,
            first_found(v) == first_found(v.subrange(i as int, n as int)),
        decreases n - i,
    {
        assert(v.subrange(i as int, n as int).drop_first() =~= v.subrange(i + 1, n as int));
        assert(v.subrange(i as int, n as int)[0] == ov(found@[i as int]));
        match &found[i] {
            Some(d) => return Ok(Some(d.clone())),
            None => {},
        }
        i = i + 1;
    }
    assert(v.subrange(n as int, n as int) =~= Seq::<Option<Seq<char>>>::empty());
    if n == 1 {
        Err(DisplaySource::Who)
    } else if n == 2 {
        Err(DisplaySource::X11Sockets)
    } else if n == 3 {
        Err(DisplaySource::UserEnv)
    } else {
        Ok(None)
    }
}

/// The X authority file of an active session: for `x11`, the one found in
/// the runtime directory, else GDM's path; otherwise the one the Xwayland
/// glob found, else the one found in the runtime directory.
pub fn xauthority_for(session_type: &str, uid: u32, resolved: Option<String>, globbed: Option<String>) -> (r: Option<String>)
    ensures
        session_type@ == "x11"@ ==> ov(r) == match resolved {
            Some(p) => Some(p@),
            None => Some(runtime_dir_spec(uid) + "/gdm/Xauthority"@),
        },
        session_type@ != "x11"@ ==> ov(r) == match globbed {
            Some(g) => Some(g@),
            None => ov(resolved),
        },
{
    if str_eq(session_type, "x11") {
        match resolved {
            Some(p) => Some(p),
            None => Some(gdm_xauthority_path(uid)),
        }
    } else {
        match globbed {
            Some(g) => Some(g),
            None => resolved,
        }
    }
}

/// `/run/user/{uid}/.mutter-Xwaylandauth.*`.
pub fn xwayland_auth_glob(uid: u32) -> (s: String)
    ensures
        s@ == runtime_dir_spec(uid) + "/.mutter-Xwaylandauth.*"@,
{
    let mut s = runtime_dir(uid);
    s.append("/.mutter-Xwaylandauth.*");
    s
}

/// The index of the last `c` in `s`.
pub open spec fn last_index_of(s: Seq<char>, c: char) -> Option<int>
    decreases s.len(),
{
    if s.len() == 0 {
        None
    } else if s.last() == c {
        Some(s.len() - 1)
    } else {
        last_index_of(s.drop_last(), c)
    }
}

/// The directory of a glob pattern (before its last `/`) and the text after
/// its last `*`; `None` when it lacks either.
pub open spec fn glob_parts_spec(pattern: Seq<char>) -> Option<(Seq<char>, Seq<char>)> {
    match (last_index_of(pattern, '/'), last_index_of(pattern, '*')) {
        (Some(i), Some(j)) => Some((pattern.subrange(0, i), pattern.subrange(j + 1, pattern.len() as int))),
        _ => None,
    }
}

fn last_index(v: &Vec<char>, c: char) -> (r: Option<usize>)
    ensures
        match r {
            Some(k) => last_index_of(v@, c) == Some(k as int) && k < v@.len(),
            None => last_index_of(v@, c) is None,
        },
{
    let mut k: usize = v.len();
    assert(v@.subrange(0, k as int) =~= v@);
    while k > 0
        invariant
            k <= v.len(),
            last_index_of(v@, c) == last_index_of(v@.subrange(0, k as int), c),
        decreases k,
    {
        assert(v@.subrange(0, k as int).drop_last() =~= v@.subrange(0, k - 1));
        if v[k - 1] == c {
            return Some(k - 1);
        }
        k = k - 1;
    }
    None
}

/// Splits the X authority glob the way the lookup reads it: the directory to
/// scan, and the suffix after the `*` that names must start with.
pub fn glob_parts(pattern: &str) -> (r: Option<(String, String)>)
    ensures
        match glob_parts_spec(pattern@) {
            Some((base, suffix)) => r matches Some((b, x)) && b@ == base && x@ == suffix,
            None => r is None,
        },
{
    let v = to_chars(pattern);
    let n = v.len();
    let slash = last_index(&v, '/');
    let star = last_index(&v, '*');
    match slash {
        Some(i) => match star {
            Some(j) => {
                let base = string_from_range(v.as_slice(), 0, i);
                assert(j < n);
                let suffix = string_from_range(v.as_slice(), j + 1, n);
                Some((base, suffix))
            },
            None => None,
        },
        None => None,
    }
}

/// Whether a directory entry answers the X authority glob: its name starts
/// with the glob's suffix (leading dots dropped) or holds `Xwaylandauth`.
pub open spec fn glob_entry_matches_spec(name: Seq<char>, suffix: Seq<char>) -> bool {
    seq_starts_with(name, trim_start_char_seq(suffix, '.')) || seq_contains_seq(name, "Xwaylandauth"@)
}

pub fn glob_entry_matches(name: &str, suffix: &str) -> (b: bool)
    ensures
        b == glob_entry_matches_spec(name@, suffix@),
{
    let t = trim_start_char(suffix, '.');
    starts_with(name, t.as_str()) || contains(name, "Xwaylandauth")
}

/// Whether a file in the user's runtime directory is an X authority file.
pub fn is_xauthority_file_name(name: &str) -> (b: bool)
    ensures
        b == (seq_starts_with(name@, ".mutter-Xwaylandauth"@) || name@ == "Xauthority"@),
{
    starts_with(name, ".mutter-Xwaylandauth") || str_eq(name, "Xauthority")
}

/// An X display name: `:` followed by colons and digits.
pub open spec fn is_display_token(w: Seq<char>) -> bool {
    &&& w.len() > 0
    &&& w[0] == ':'
    &&& forall|i: int| 0 <= i < w.len() ==> #[trigger] w[i] == ':' || is_ascii_digit(w[i])
}

/// The display `who` reports for the user: scanning lines in order, a line
/// without fields ends the scan, a line of the user's with a display field
/// gives it, a line of the user's without a second field ends the scan.
pub open spec fn who_display(ls: Seq<Seq<char>>, user: Seq<char>) -> Option<Seq<char>>
    decreases ls.len(),
{
    if ls.len() == 0 {
        None
    } else {
        let w = words_seq(ls[0]);
        if w.len() == 0 {
            None
        } else if w[0] != user {
            who_display(ls.drop_first(), user)
        } else if w.len() < 2 {
            None
        } else if is_display_token(w[1]) {
            Some(w[1])
        } else {
            who_display(ls.drop_first(), user)
        }
    }
}

fn display_token(w: &str) -> (b: bool)
    ensures
        b == is_display_token(w@),
{
    let v = to_chars(w);
    if v.len() == 0 || v[0] != ':' {
        return false;
    }
    let mut i: usize = 0;
    while i < v.len()
        invariant
            v@ == w@,
            i <= v@.len(),
            forall|k: int| 0 <= k < i ==> #[trigger] v@[k] == ':' || is_ascii_digit(v@[k]),
        decreases v@.len() - i,
    {
        let c = v[i];
        if !(c == ':' || ('0' <= c && c <= '9')) {
            assert(!(v@[i as int] == ':' || is_ascii_digit(v@[i as int])));
            return false;
        }
        i = i + 1;
    }
    true
}

/// The user's display from the output of `who`.
pub fn display_from_who_output(output: &str, username: &str) -> (r: Option<String>)
    ensures
        ov(r) == who_display(lines_seq(output@), username@),
{
    let ls = lines(output);
    let n = ls.len();
    let mut i: usize = 0;
    assert(views(ls@).subrange(0, n as int) =~= views(ls@));
    while i < n
        invariant
            n == ls@.len(),
            views(ls@) == lines_seq(output@),
            i <= n,
            who_display(lines_seq(output@), username@) == who_display(
                views(ls@).subrange(i as int, n as int),
                username@,
            ),
        decreases n - i,
    {
        let ghost sub = views(ls@).subrange(i as int, n as int);
        assert(sub.drop_first() =~= views(ls@).subrange(i + 1, n as int));
        assert(sub[0] == ls@[i as int]@);
        let parts = split_whitespace(ls[i].as_str());
        if parts.len() == 0 {
            return None;
        }
        assert(views(parts@)[0] == parts@[0]@);
        if str_eq(parts[0].as_str(), username) {
            if parts.len() < 2 {
                return None;
            }
            assert(views(parts@)[1] == parts@[1]@);
            if display_token(parts[1].as_str()) {
                return Some(parts[1].clone());
            }
        }
        i = i + 1;
    }
    assert(views(ls@).subrange(n as int, n as int) =~= Seq::<Seq<char>>::empty());
    None
}

/// The display from `runuser ... printf "$DISPLAY"`: the trimmed output when
/// it starts with `:`.
pub fn display_from_env_output(stdout: &str) -> (r: Option<String>)
    ensures
        ({
            let t = trim_seq(stdout@);
            if t.len() > 0 && t[0] == ':' {
                ov(r) == Some(t)
            } else {
                r is None
            }
        }),
{
    let t = trim(stdout);
    let v = to_chars(t.as_str());
    if v.len() == 0 || v[0] != ':' {
        None
    } else {
        Some(t)
    }
}

/// The desktop name from `echo $XDG_CURRENT_DESKTOP`: trimmed, lower-cased,
/// first `:`-separated entry; `None` when empty.
pub fn desktop_from_output(stdout: &str) -> (r: Option<String>)
    ensures
        ({
            let l = unicode_lowercase(trim_seq(stdout@));
            if l.len() == 0 {
                r is None
            } else {
                ov(r) == Some(split_seq(l, ':')[0])
            }
        }),
{
    let l = to_lowercase(trim(stdout).as_str());
    if l.unicode_len() == 0 {
        return None;
    }
    let pieces = split_char(l.as_str(), ':');
    proof {
        lemma_split_from_nonempty(l@, ':', Seq::empty());
        assert(views(pieces@)[0] == pieces@[0]@);
    }
    Some(pieces[0].clone())
}

// ---------------------------------------------------------------------
// X11 sockets
// ---------------------------------------------------------------------

/// An entry of `/tmp/.X11-unix`: its name and owner (`None` when its
/// metadata could not be read).
#[derive(Debug)]
pub struct SocketEntry {
    pub name: String,
    pub owner: Option<u32>,
}

/// `X{n}` names display `n`.
pub open spec fn x11_socket_number(name: Seq<char>) -> Option<nat> {
    if name.len() > 0 && name[0] == 'X' {
        parse_unsigned(name.drop_first(), u32::MAX as nat)
    } else {
        None
    }
}

/// Displays owned by `uid`, or `None` when a display socket's owner is
/// unknown (the scan gives up).
pub open spec fn x11_scan(es: Seq<SocketEntry>, uid: u32) -> Option<Seq<nat>>
    decreases es.len(),
{
    if es.len() == 0 {
        Some(Seq::empty())
    } else {
        match x11_scan(es.drop_last(), uid) {
            None => None,
            Some(found) => match x11_socket_number(es.last().name@) {
                None => Some(found),
                Some(n) => match es.last().owner {
                    None => None,
                    Some(o) => if o == uid {
                        Some(found.push(n))
                    } else {
                        Some(found)
                    },
                },
            },
        }
    }
}

pub open spec fn max_of(s: Seq<nat>) -> Option<nat>
    decreases s.len(),
{
    if s.len() == 0 {
        None
    } else {
        match max_of(s.drop_last()) {
            None => Some(s.last()),
            Some(m) => Some(if m >= s.last() {
                m
            } else {
                s.last()
            }),
        }
    }
}

/// The highest-numbered display socket the user owns.
pub open spec fn x11_display_spec(es: Seq<SocketEntry>, uid: u32) -> Option<Seq<char>> {
    match x11_scan(es, uid) {
        None => None,
        Some(found) => match max_of(found) {
            None => None,
            Some(m) => Some(":"@ + decimal_seq(m)),
        },
    }
}

proof fn lemma_x11_scan_none_extends(es: Seq<SocketEntry>, k: int, uid: u32)
    requires
        0 <= k <= es.len(),
        x11_scan(es.subrange(0, k), uid) is None,
    ensures
        x11_scan(es, uid) is None,
    decreases es.len() - k,
{
    if k < es.len() {
        let sub = es.subrange(0, k + 1);
        assert(sub.drop_last() =~= es.subrange(0, k));
        lemma_x11_scan_none_extends(es, k + 1, uid);
    } else {
        assert(es.subrange(0, k) =~= es);
    }
}

/// The display of the highest-numbered `X{n}` socket owned by `uid`.
pub fn display_from_x11_sockets(entries: &Vec<SocketEntry>, uid: u32) -> (r: Option<String>)
    ensures
        ov(r) == x11_display_spec(entries@, uid),
{
    let n = entries.len();
    let mut best: Option<u32> = None;
    let mut i: usize = 0;
    let ghost mut found: Seq<nat> = Seq::empty();
    assert(entries@.subrange(0, 0) =~= Seq::<SocketEntry>::empty());
    while i < n
        invariant
            n == entries@.len(),
            i <= n,
            x11_scan(entries@.subrange(0, i as int), uid) == Some(found),
            match max_of(found) {
                None => best is None,
                Some(m) => best == Some(m as u32) && m <= u32::MAX,
            },
            forall|k: int| 0 <= k < found.len() ==> #[trigger] found[k] <= u32::MAX,
        decreases n - i,
    {
        let ghost sub = entries@.subrange(0, i + 1);
        assert(sub.drop_last() =~= entries@.subrange(0, i as int));
        assert(sub.last() == entries@[i as int]);
        let e = &entries[i];
        let v = to_chars(e.name.as_str());
        if v.len() > 0 && v[0] == 'X' {
            let rest = string_from_range(v.as_slice(), 1, v.len());
            assert(rest@ =~= e.name@.drop_first());
            match parse_u32(rest.as_str()) {
                Some(num) => {
                    assert(x11_socket_number(e.name@) == Some(num as nat));
                    match e.owner {
                        None => {
                            assert(x11_scan(sub, uid) is None);
                            proof {
                                lemma_x11_scan_none_extends(entries@, i + 1, uid);
                            }
                            return None;
                        },
                        Some(o) => {
                            if o == uid {
                                proof {
                                    let old_found = found;
                                    found = found.push(num as nat);
                                    assert(found.drop_last() =~= old_found);
                                }
                                best = match best {
                                    None => Some(num),
                                    Some(b) => Some(if b >= num {
                                        b
                                    } else {
                                        num
                                    }),
                                };
                            }
                        },
                    }
                },
                None => {
                    assert(x11_socket_number(e.name@) is None);
                },
            }
        } else {
            assert(x11_socket_number(e.name@) is None);
        }
        i = i + 1;
    }
    assert(entries@.subrange(0, n as int) =~= entries@);
    assert(best is None ==> found.len() == 0);
    match best {
        None => None,
        Some(m) => {
            let mut s = String::from_str(":");
            push_decimal(&mut s, m as u64);
            Some(s)
        },
    }
}

} // verus!
