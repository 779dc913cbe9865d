//! VNC backends: X11 screen scraping (x0tigervncserver), GNOME
//! (gnome-remote-desktop), wlroots (wayvnc). This module holds their
//! settings and the commands they run; processes are started by the caller.

use vstd::prelude::*;
use crate::protocol::AgentConfig;
use crate::session::{copy_opt, ov, SessionInfo};
use crate::text::{trim, trim_seq};
use crate::web::arg_views;
use vstd::string::*;
use vstd::utf8::{decode_utf8, valid_utf8};

verus! {

/// Every backend serves VNC on this localhost port.
pub const LOCAL_PORT: u16 = 5900;

/// After starting the screen server, the port is polled this many times…
pub const X11_START_POLLS: u32 = 40;
/// …this many milliseconds apart.
pub const X11_START_POLL_MS: u64 = 250;
/// After configuring gnome-remote-desktop, the port is polled this many times…
pub const GNOME_START_POLLS: u32 = 30;
/// …this many milliseconds apart.
pub const GNOME_START_POLL_MS: u64 = 1000;
/// After starting wayvnc, the port is polled this many times…
pub const WAYVNC_START_POLLS: u32 = 20;
/// …this many milliseconds apart.
pub const WAYVNC_START_POLL_MS: u64 = 300;

/// A VNC backend's fixed facts.
pub trait VncBackend {
    /// The localhost port the backend's VNC server listens on.
    fn local_port(&self) -> (p: u16)
        ensures
            p == LOCAL_PORT,
    ;
}

/// Why a backend cannot be used.
#[derive(Debug)]
pub enum BackendError {
    GrdctlMissing,
    WayvncMissing,
    ScreenServerMissing,
}

pub open spec fn backend_error_text(e: BackendError) -> Seq<char> {
    match e {
        BackendError::GrdctlMissing => "grdctl not found. Install: apt install gnome-remote-desktop"@,
        BackendError::WayvncMissing => "wayvnc not found. Install: apt install wayvnc"@,
        BackendError::ScreenServerMissing => "screen VNC server not found (need x0tigervncserver).\nOn Ubuntu: sudo apt install tigervnc-scraping-server tigervnc-common\nOr re-run: curl -fsSL …/install | sudo bash -s -- --role agent"@,
    }
}

impl BackendError {
    pub fn message(&self) -> (m: String)
        ensures
            m@ == backend_error_text(*self),
    {
        match self {
            BackendError::GrdctlMissing => String::from_str(
                "grdctl not found. Install: apt install gnome-remote-desktop",
            ),
            BackendError::WayvncMissing => String::from_str("wayvnc not found. Install: apt install wayvnc"),
            BackendError::ScreenServerMissing => String::from_str(
                "screen VNC server not found (need x0tigervncserver).\nOn Ubuntu: sudo apt install tigervnc-scraping-server tigervnc-common\nOr re-run: curl -fsSL …/install | sudo bash -s -- --role agent",
            ),
        }
    }
}

fn s(t: &str) -> (r: String)
    ensures
        r@ == t@,
{
    String::from_str(t)
}

fn push_arg(c: &mut Vec<String>, a: &str)
    ensures
        arg_views(final(c)@) == arg_views(old(c)@).push(a@),
{
    let ghost before = c@;
    c.push(String::from_str(a));
    assert(arg_views(c@) =~= arg_views(before).push(a@));
}

fn push_owned(c: &mut Vec<String>, a: String)
    ensures
        arg_views(final(c)@) == arg_views(old(c)@).push(a@),
{
    let ghost before = c@;
    let ghost av = a@;
    c.push(a);
    assert(arg_views(c@) =~= arg_views(before).push(av));
}

// ---------------------------------------------------------------------
// Locating the screen-scraping server
// ---------------------------------------------------------------------

/// The binary names tried, in order (distributions renamed it).
pub fn vnc_server_candidates() -> (v: Vec<&'static str>)
    ensures
        v@.len() == 2,
        v@[0]@ == "x0tigervncserver"@,
        v@[1]@ == "x0vncserver"@,
{
    let mut v: Vec<&'static str> = Vec::new();
    v.push("x0tigervncserver");
    v.push("x0vncserver");
    v
}

/// The path `which` printed: trimmed, when non-empty.
pub fn which_output_path(stdout: &str) -> (r: Option<String>)
    ensures
        trim_seq(stdout@).len() > 0 ==> ov(r) == Some(trim_seq(stdout@)),
        trim_seq(stdout@).len() == 0 ==> r is None,
{
    let t = trim(stdout);
    if t.unicode_len() > 0 {
        Some(t)
    } else {
        None
    }
}

/// The screen-sharing server: the first candidate that was found
/// (`found[i]` is where candidate `i` was found, if anywhere).
pub fn screen_share_vnc_server(found: &Vec<Option<String>>) -> (r: Result<String, BackendError>)
    ensures
        match r {
            Ok(p) => exists|i: int|
                0 <= i < found@.len() && ov(found@[i]) == Some(p@) && forall|j: int|
                    0 <= j < i ==> #[trigger] found@[j] is None,
            Err(e) => e is ScreenServerMissing && forall|i: int| 0 <= i < found@.len() ==> #[trigger] found@[i] is None,
        },
{
    let mut i: usize = 0;
    while i < found.len()
        invariant
            i <= found@.len(),
            forall|j: int| 0 <= j < i ==> #[trigger] found@[j] is None,
        decreases found@.len() - i,
    {
        match &found[i] {
            Some(p) => return Ok(p.clone()),
            None => {},
        }
        i = i + 1;
    }
    Err(BackendError::ScreenServerMissing)
}

// ---------------------------------------------------------------------
// X11
// ---------------------------------------------------------------------

/// The X11 backend's settings.
#[derive(Debug)]
pub struct X11Backend {
    pub display: String,
    pub username: String,
    pub xauthority: Option<String>,
    pub password_file: String,
}

impl X11Backend {
    /// Display `:0` and password file `/etc/urc/vncpasswd` unless the
    /// session and configuration say otherwise.
    pub fn new(config: &AgentConfig, session: &SessionInfo) -> (x: X11Backend)
        ensures
            x.display@ == match session.display {
                Some(d) => d@,
                None => ":0"@,
            },
            x.username@ == session.username@,
            ov(x.xauthority) == ov(session.xauthority),
            x.password_file@ == match config.vnc_password_file {
                Some(p) => p@,
                None => "/etc/urc/vncpasswd"@,
            },
    {
        X11Backend {
            display: match &session.display {
                Some(d) => d.clone(),
                None => s(":0"),
            },
            username: session.username.clone(),
            xauthority: copy_opt(&session.xauthority),
            password_file: match &config.vnc_password_file {
                Some(p) => p.clone(),
                None => s("/etc/urc/vncpasswd"),
            },
        }
    }
}

impl VncBackend for X11Backend {
    fn local_port(&self) -> (p: u16) {
        LOCAL_PORT
    }
}

/// `runuser` arguments that start the screen server as the desktop user,
/// listening on localhost only with security type `None` (the TLS tunnel is
/// the wire security). `xauthority` is passed only when the file exists; the
/// password file likewise.
pub open spec fn x11_args_spec(
    username: Seq<char>,
    display: Seq<char>,
    xauthority: Option<Seq<char>>,
    vnc_bin: Seq<char>,
    password_file: Option<Seq<char>>,
) -> Seq<Seq<char>> {
    seq!["-u"@, username, "--"@, "env"@, "DISPLAY="@ + display] + match xauthority {
        Some(x) => seq!["XAUTHORITY="@ + x],
        None => Seq::empty(),
    } + seq![
        vnc_bin,
        "-display"@,
        display,
        "-rfbport"@,
        "5900"@,
        "-localhost"@,
        "yes"@,
        "-UseSHM"@,
        "1"@,
        "-FrameRate"@,
        "60"@,
        "-SecurityTypes"@,
        "None"@,
    ] + match password_file {
        Some(p) => seq!["-PasswordFile"@, p],
        None => Seq::empty(),
    }
}

pub fn x11_vnc_args(
    settings: &X11Backend,
    existing_xauthority: &Option<String>,
    vnc_bin: &str,
    existing_password_file: &Option<String>,
) -> (args: Vec<String>)
    ensures
        arg_views(args@) == x11_args_spec(
            settings.username@,
            settings.display@,
            ov(*existing_xauthority),
            vnc_bin@,
            ov(*existing_password_file),
        ),
{
    let mut args: Vec<String> = Vec::new();
    args.push(s("-u"));
    args.push(settings.username.clone());
    args.push(s("--"));
    args.push(s("env"));
    let mut d = s("DISPLAY=");
    d.append(settings.display.as_str());
    args.push(d);
    if let Some(x) = existing_xauthority {
        let mut a = s("XAUTHORITY=");
        a.append(x.as_str());
        args.push(a);
    }
    args.push(s(vnc_bin));
    args.push(s("-display"));
    args.push(settings.display.clone());
    args.push(s("-rfbport"));
    args.push(crate::decimal::decimal_string(LOCAL_PORT as u64));
    proof {
        reveal_with_fuel(crate::decimal::decimal_seq, 5);
    }
    args.push(s("-localhost"));
    args.push(s("yes"));
    args.push(s("-UseSHM"));
    args.push(s("1"));
    args.push(s("-FrameRate"));
    args.push(s("60"));
    args.push(s("-SecurityTypes"));
    args.push(s("None"));
    if let Some(p) = existing_password_file {
        args.push(s("-PasswordFile"));
        args.push(p.clone());
    }
    proof {
        reveal_strlit("5900");
        assert(crate::decimal::decimal_seq(5900) =~= "5900"@);
    }
    assert(arg_views(args@) =~= x11_args_spec(
        settings.username@,
        settings.display@,
        ov(*existing_xauthority),
        vnc_bin@,
        ov(*existing_password_file),
    ));
    args
}

// ---------------------------------------------------------------------
// wlroots
// ---------------------------------------------------------------------

/// The wayvnc backend's settings.
#[derive(Debug)]
pub struct WayvncBackend {
    pub wayland_display: String,
    pub password_file: Option<String>,
}

impl WayvncBackend {
    /// Needs wayvnc; the Wayland display defaults to `wayland-0`.
    pub fn new(config: &AgentConfig, session: &SessionInfo, wayvnc_found: bool) -> (r: Result<WayvncBackend, BackendError>)
        ensures
            !wayvnc_found ==> r matches Err(BackendError::WayvncMissing),
            wayvnc_found ==> (r matches Ok(w) && w.wayland_display@ == match session.wayland_display {
                Some(d) => d@,
                None => "wayland-0"@,
            } && ov(w.password_file) == ov(config.vnc_password_file)),
    {
        if !wayvnc_found {
            return Err(BackendError::WayvncMissing);
        }
        Ok(
            WayvncBackend {
                wayland_display: match &session.wayland_display {
                    Some(d) => d.clone(),
                    None => s("wayland-0"),
                },
                password_file: copy_opt(&config.vnc_password_file),
            },
        )
    }
}

impl VncBackend for WayvncBackend {
    fn local_port(&self) -> (p: u16) {
        LOCAL_PORT
    }
}

/// wayvnc's arguments: `-o 5900 -D`, plus `-P FILE` when the password file exists.
pub fn wayvnc_args(existing_password_file: &Option<String>) -> (args: Vec<String>)
    ensures
        arg_views(args@) == seq!["-o"@, "5900"@, "-D"@] + match ov(*existing_password_file) {
            Some(p) => seq!["-P"@, p],
            None => Seq::empty(),
        },
{
    let mut args: Vec<String> = Vec::new();
    args.push(s("-o"));
    args.push(s("5900"));
    args.push(s("-D"));
    if let Some(p) = existing_password_file {
        args.push(s("-P"));
        args.push(p.clone());
    }
    assert(arg_views(args@) =~= seq!["-o"@, "5900"@, "-D"@] + match ov(*existing_password_file) {
        Some(p) => seq!["-P"@, p],
        None => Seq::empty(),
    });
    args
}

// ---------------------------------------------------------------------
// GNOME
// ---------------------------------------------------------------------

/// The GNOME Remote Desktop backend.
#[derive(Debug)]
pub struct GnomeBackend {
    username: String,
    password_file: Option<String>,
}

impl GnomeBackend {
    pub closed spec fn user(&self) -> Seq<char> {
        self.username@
    }

    pub closed spec fn password_path(&self) -> Option<Seq<char>> {
        ov(self.password_file)
    }

    /// Needs `grdctl`; runs as the session's user with the configured
    /// password file.
    pub fn new(config: &AgentConfig, session: &SessionInfo, grdctl_found: bool) -> (r: Result<GnomeBackend, BackendError>)
        ensures
            !grdctl_found ==> r matches Err(BackendError::GrdctlMissing),
            grdctl_found ==> (r matches Ok(g) && g.user() == session.username@ && g.password_path() == ov(
                config.vnc_password_file,
            )),
    {
        if !grdctl_found {
            return Err(BackendError::GrdctlMissing);
        }
        Ok(
            GnomeBackend {
                username: session.username.clone(),
                password_file: copy_opt(&config.vnc_password_file),
            },
        )
    }

    pub fn password_file(&self) -> (p: Option<String>)
        ensures
            ov(p) == self.password_path(),
    {
        copy_opt(&self.password_file)
    }

    /// The `runuser` argument lists that configure and enable the VNC
    /// server, in order.
    pub fn setup_commands(&self, password: &str) -> (cmds: Vec<Vec<String>>)
        ensures
            cmds@.len() == 5,
            arg_views(cmds@[0]@) == seq!["-u"@, self.user(), "--"@, "grdctl"@, "vnc"@, "set-auth-method"@, "password"@],
            arg_views(cmds@[1]@) == seq!["-u"@, self.user(), "--"@, "grdctl"@, "vnc"@, "set-password"@, password@],
            arg_views(cmds@[2]@) == seq!["-u"@, self.user(), "--"@, "grdctl"@, "vnc"@, "disable-view-only"@],
            arg_views(cmds@[3]@) == seq!["-u"@, self.user(), "--"@, "grdctl"@, "vnc"@, "enable"@],
            arg_views(cmds@[4]@) == seq![
                "-u"@,
                self.user(),
                "--"@,
                "systemctl"@,
                "--user"@,
                "enable"@,
                "--now"@,
                "gnome-remote-desktop.service"@,
            ],
    {
        let mut cmds: Vec<Vec<String>> = Vec::new();
        let mut c = self.user_prefix();
        push_arg(&mut c, "grdctl");
        push_arg(&mut c, "vnc");
        push_arg(&mut c, "set-auth-method");
        push_arg(&mut c, "password");
        assert(arg_views(c@) =~= seq!["-u"@, self.user(), "--"@, "grdctl"@, "vnc"@, "set-auth-method"@, "password"@]);
        cmds.push(c);
        let mut c = self.user_prefix();
        push_arg(&mut c, "grdctl");
        push_arg(&mut c, "vnc");
        push_arg(&mut c, "set-password");
        push_arg(&mut c, password);
        assert(arg_views(c@) =~= seq!["-u"@, self.user(), "--"@, "grdctl"@, "vnc"@, "set-password"@, password@]);
        cmds.push(c);
        let mut c = self.user_prefix();
        push_arg(&mut c, "grdctl");
        push_arg(&mut c, "vnc");
        push_arg(&mut c, "disable-view-only");
        assert(arg_views(c@) =~= seq!["-u"@, self.user(), "--"@, "grdctl"@, "vnc"@, "disable-view-only"@]);
        cmds.push(c);
        let mut c = self.user_prefix();
        push_arg(&mut c, "grdctl");
        push_arg(&mut c, "vnc");
        push_arg(&mut c, "enable");
        assert(arg_views(c@) =~= seq!["-u"@, self.user(), "--"@, "grdctl"@, "vnc"@, "enable"@]);
        cmds.push(c);
        let mut c = self.user_prefix();
        push_arg(&mut c, "systemctl");
        push_arg(&mut c, "--user");
        push_arg(&mut c, "enable");
        push_arg(&mut c, "--now");
        push_arg(&mut c, "gnome-remote-desktop.service");
        assert(arg_views(c@) =~= seq![
            "-u"@,
            self.user(),
            "--"@,
            "systemctl"@,
            "--user"@,
            "enable"@,
            "--now"@,
            "gnome-remote-desktop.service"@,
        ]);
        cmds.push(c);
        cmds
    }

    /// The `runuser` arguments that disable the VNC server.
    pub fn stop_command(&self) -> (c: Vec<String>)
        ensures
            arg_views(c@) == seq!["-u"@, self.user(), "--"@, "grdctl"@, "vnc"@, "disable"@],
    {
        let mut c = self.user_prefix();
        push_arg(&mut c, "grdctl");
        push_arg(&mut c, "vnc");
        push_arg(&mut c, "disable");
        assert(arg_views(c@) =~= seq!["-u"@, self.user(), "--"@, "grdctl"@, "vnc"@, "disable"@]);
        c
    }

    fn user_prefix(&self) -> (c: Vec<String>)
        ensures
            arg_views(c@) == seq!["-u"@, self.user(), "--"@],
    {
        let mut c: Vec<String> = Vec::new();
        push_arg(&mut c, "-u");
        push_owned(&mut c, self.username.clone());
        push_arg(&mut c, "--");
        assert(arg_views(c@) =~= seq!["-u"@, self.user(), "--"@]);
        c
    }
}

impl VncBackend for GnomeBackend {
    fn local_port(&self) -> (p: u16) {
        LOCAL_PORT
    }
}

/// What `String::from_utf8_lossy` gives for these bytes (invalid sequences
/// become U+FFFD).
pub uninterp spec fn utf8_lossy_text(bytes: Seq<u8>) -> Seq<char>;

/// std's `String::from_utf8_lossy`. Contract: the named lossy decoding; for
/// valid UTF-8 it is the exact decoding (as its documentation states).
#[verifier::external_body]
fn utf8_lossy(bytes: &[u8]) -> (t: String)
    ensures
        t@ == utf8_lossy_text(bytes@),
        valid_utf8(bytes@) ==> t@ == decode_utf8(bytes@),
{
    String::from_utf8_lossy(bytes).into_owned()
}

/// The VNC password: the first 8 bytes of the password file (decoded
/// leniently) when it holds at least 8, otherwise `urc-default`.
pub fn vnc_password(file_bytes: &Option<Vec<u8>>) -> (p: String)
    ensures
        match file_bytes {
            Some(b) => if b@.len() >= 8 {
                p@ == utf8_lossy_text(b@.subrange(0, 8))
            } else {
                p@ == "urc-default"@
            },
            None => p@ == "urc-default"@,
        },
{
    match file_bytes {
        Some(b) => {
            if b.len() >= 8 {
                let head = vstd::slice::slice_subrange(b.as_slice(), 0, 8);
                utf8_lossy(head)
            } else {
                s("urc-default")
            }
        },
        None => s("urc-default"),
    }
}

} // verus!
