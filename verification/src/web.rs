//! The unified web app's decisions: clipboard helper commands, clipboard
//! replies, and embedded asset replies.

use vstd::prelude::*;
use crate::session::{copy_opt, ov, SessionInfo};
use crate::text::{contains, seq_contains_seq, str_eq};
use vstd::string::*;

verus! {

/// An idle WebSocket VNC stream gets a Ping this often, so that NATs and
/// proxies between the browser and the agent keep it open.
pub const WS_KEEPALIVE_SECS: u64 = 25;

/// Identity for running clipboard helpers (xclip) inside the user's X session.
#[derive(Debug, Clone)]
pub struct DesktopSession {
    pub username: String,
    pub display: String,
    pub xauthority: Option<String>,
}

impl DesktopSession {
    /// The clipboard identity of a detected session: its user, its display
    /// (`:0` when it has none) and its X authority file.
    pub fn for_session(session: &SessionInfo) -> (d: DesktopSession)
        ensures
            d.username@ == session.username@,
            d.display@ == match session.display {
                Some(x) => x@,
                None => ":0"@,
            },
            ov(d.xauthority) == ov(session.xauthority),
    {
        DesktopSession {
            username: session.username.clone(),
            display: match &session.display {
                Some(x) => x.clone(),
                None => String::from_str(":0"),
            },
            xauthority: copy_opt(&session.xauthority),
        }
    }
}

/// A process to run: program, arguments, extra environment.
#[derive(Debug)]
pub struct CommandSpec {
    pub program: String,
    pub args: Vec<String>,
    pub env: Vec<(String, String)>,
}

pub open spec fn arg_views(v: Seq<String>) -> Seq<Seq<char>> {
    v.map_values(|s: String| s@)
}

pub open spec fn env_views(v: Seq<(String, String)>) -> Seq<(Seq<char>, Seq<char>)> {
    v.map_values(|p: (String, String)| (p.0@, p.1@))
}

/// Whether the agent already runs as the desktop user (`USER` equals it).
pub fn running_as_desktop_user(user_env: &Option<String>, desktop: &DesktopSession) -> (b: bool)
    ensures
        b == (ov(*user_env) == Some(desktop.username@)),
{
    match user_env {
        Some(u) => str_eq(u.as_str(), desktop.username.as_str()),
        None => false,
    }
}

/// `-o` (read the selection) or `-i` (write it).
pub open spec fn xclip_mode(write: bool) -> Seq<char> {
    if write {
        "-i"@
    } else {
        "-o"@
    }
}

pub open spec fn xauth_arg(desktop: DesktopSession) -> Seq<Seq<char>> {
    match desktop.xauthority {
        Some(x) => seq!["XAUTHORITY="@ + x@],
        None => Seq::empty(),
    }
}

pub open spec fn xauth_env(desktop: DesktopSession) -> Seq<(Seq<char>, Seq<char>)> {
    match desktop.xauthority {
        Some(x) => seq![("XAUTHORITY"@, x@)],
        None => Seq::empty(),
    }
}

fn s(t: &str) -> (r: String)
    ensures
        r@ == t@,
{
    String::from_str(t)
}

/// The xclip invocation for a selection: xclip itself with `DISPLAY` (and
/// `XAUTHORITY`) set when the agent runs as the desktop user, otherwise via
/// `runuser -u USER -- env DISPLAY=.. [XAUTHORITY=..] xclip ...`.
pub fn xclip_command(desktop: &DesktopSession, selection: &str, write: bool, as_target: bool) -> (c: CommandSpec)
    ensures
        as_target ==> c.program@ == "xclip"@ && arg_views(c.args@) == seq![
            "-selection"@,
            selection@,
            xclip_mode(write),
        ] && env_views(c.env@) == seq![("DISPLAY"@, desktop.display@)] + xauth_env(*desktop),
        !as_target ==> c.program@ == "runuser"@ && arg_views(c.args@) == seq![
            "-u"@,
            desktop.username@,
            "--"@,
            "env"@,
            "DISPLAY="@ + desktop.display@,
        ] + xauth_arg(*desktop) + seq!["xclip"@, "-selection"@, selection@, xclip_mode(write)]
            && c.env@.len() == 0,
{
    let mode = if write {
        "-i"
    } else {
        "-o"
    };
    if as_target {
        let mut env: Vec<(String, String)> = Vec::new();
        env.push((s("DISPLAY"), desktop.display.clone()));
        if let Some(x) = &desktop.xauthority {
            env.push((s("XAUTHORITY"), x.clone()));
        }
        let mut args: Vec<String> = Vec::new();
        args.push(s("-selection"));
        args.push(s(selection));
        args.push(s(mode));
        assert(arg_views(args@) =~= seq!["-selection"@, selection@, xclip_mode(write)]);
        assert(env_views(env@) =~= seq![("DISPLAY"@, desktop.display@)] + xauth_env(*desktop));
        CommandSpec { program: s("xclip"), args, env }
    } else {
        let mut args: Vec<String> = Vec::new();
        args.push(s("-u"));
        args.push(desktop.username.clone());
        args.push(s("--"));
        args.push(s("env"));
        let mut d = s("DISPLAY=");
        d.append(desktop.display.as_str());
        args.push(d);
        if let Some(x) = &desktop.xauthority {
            let mut a = s("XAUTHORITY=");
            a.append(x.as_str());
            args.push(a);
        }
        args.push(s("xclip"));
        args.push(s("-selection"));
        args.push(s(selection));
        args.push(s(mode));
        assert(arg_views(args@) =~= seq!["-u"@, desktop.username@, "--"@, "env"@, "DISPLAY="@ + desktop.display@]
            + xauth_arg(*desktop) + seq!["xclip"@, "-selection"@, selection@, xclip_mode(write)]);
        CommandSpec { program: s("runuser"), args, env: Vec::new() }
    }
}

/// The selections a clipboard write fills, in order: `CLIPBOARD` (Ctrl+V)
/// then `PRIMARY` (middle click).
pub fn clipboard_selections() -> (v: Vec<&'static str>)
    ensures
        v@.len() == 2,
        v@[0]@ == "clipboard"@,
        v@[1]@ == "primary"@,
{
    let mut v: Vec<&'static str> = Vec::new();
    v.push("clipboard");
    v.push("primary");
    v
}

/// An HTTP reply.
#[derive(Debug)]
pub struct WebReply {
    pub status: u16,
    pub content_type: Option<String>,
    pub body: Vec<u8>,
}

pub open spec fn text_body(t: Seq<char>) -> Seq<u8> {
    vstd::utf8::encode_utf8(t)
}

pub(crate) fn text_bytes(t: &str) -> (b: Vec<u8>)
    ensures
        b@ == text_body(t@),
{
    t.as_bytes_vec()
}

pub open spec fn plain_text_type() -> Seq<char> {
    "text/plain; charset=utf-8"@
}

/// Whether a clipboard read error means "nothing copied yet".
pub open spec fn is_empty_clipboard_error(message: Seq<char>) -> bool {
    seq_contains_seq(message, "exit code"@) || seq_contains_seq(message, "no such"@)
}

/// The reply to `GET /api/clipboard`: the selection as plain text; an empty
/// one when the read failed in a way that means nothing was copied; 500 with
/// the error otherwise.
pub fn clipboard_get_reply(read: Result<String, String>) -> (r: WebReply)
    ensures
        match read {
            Ok(t) => r.status == 200 && ov(r.content_type) == Some(plain_text_type()) && r.body@
                == text_body(t@),
            Err(m) => if is_empty_clipboard_error(m@) {
                r.status == 200 && ov(r.content_type) == Some(plain_text_type()) && r.body@.len() == 0
            } else {
                r.status == 500 && r.content_type is None && r.body@ == text_body(m@)
            },
        },
{
    match read {
        Ok(t) => WebReply {
            status: 200,
            content_type: Some(s("text/plain; charset=utf-8")),
            body: text_bytes(t.as_str()),
        },
        Err(m) => {
            if contains(m.as_str(), "exit code") || contains(m.as_str(), "no such") {
                WebReply {
                    status: 200,
                    content_type: Some(s("text/plain; charset=utf-8")),
                    body: Vec::new(),
                }
            } else {
                WebReply { status: 500, content_type: None, body: text_bytes(m.as_str()) }
            }
        },
    }
}

/// The reply to `POST /api/clipboard`: `ok`, or 500 with the first failure.
pub fn clipboard_set_reply(failure: Option<String>) -> (r: WebReply)
    ensures
        match failure {
            None => r.status == 200 && r.body@ == text_body("ok"@),
            Some(m) => r.status == 500 && r.body@ == text_body(m@),
        },
        r.content_type is None,
{
    match failure {
        None => WebReply { status: 200, content_type: None, body: text_bytes("ok") },
        Some(m) => WebReply { status: 500, content_type: None, body: text_bytes(m.as_str()) },
    }
}

/// The MIME type mime_guess gives a path: the first type registered for its
/// extension, or `application/octet-stream`.
pub uninterp spec fn mime_for_path(path: Seq<char>) -> Seq<char>;

/// `mime_guess::from_path(path).first_or_octet_stream()` rendered as text.
/// Contract: the result is the named type for `path` (a function of the path
/// alone); the extension table itself is left unsaid.
#[verifier::external_body]
fn guess_mime(path: &str) -> (m: String)
    ensures
        m@ == mime_for_path(path@),
{
    let mime = mime_guess::from_path(path).first_or_octet_stream();
    mime.as_ref().to_string()
}

/// The reply for an embedded asset: 404 `not found` when absent, otherwise
/// its bytes with the MIME type guessed from its path.
pub fn embedded_reply(path: &str, asset: Option<Vec<u8>>) -> (r: WebReply)
    ensures
        match asset {
            None => r.status == 404 && r.content_type is None && r.body@ == text_body("not found"@),
            Some(data) => r.status == 200 && ov(r.content_type) == Some(mime_for_path(path@))
                && r.body@ == data@,
        },
{
    match asset {
        None => WebReply { status: 404, content_type: None, body: text_bytes("not found") },
        Some(data) => WebReply { status: 200, content_type: Some(guess_mime(path)), body: data },
    }
}

} // verus!
