use urc::session::{BackendKind, SessionInfo};
use urc::files::{safe_path, sort_listing, ListEntry, PathError};
use urc::web::{
    clipboard_get_reply, clipboard_selections, clipboard_set_reply, embedded_reply, running_as_desktop_user,
    xclip_command, DesktopSession,
};

#[test]
fn safe_path_joins_normal_segments() {
    assert_eq!(safe_path("/home", "alice/docs/a.txt"), Ok("/home/alice/docs/a.txt".to_string()));
    assert_eq!(safe_path("/home", "//alice/./docs//a.txt"), Ok("/home/alice/docs/a.txt".to_string()));
    assert_eq!(safe_path("/home/", "x"), Ok("/home/x".to_string()));
    assert_eq!(safe_path("/home", ""), Ok("/home".to_string()));
}

#[test]
fn safe_path_refuses_parent_segments() {
    assert_eq!(safe_path("/home", "../etc/passwd"), Err(PathError::BadRequest));
    assert_eq!(safe_path("/home", "alice/../../etc"), Err(PathError::BadRequest));
    assert_eq!(safe_path("/home", "/a/.."), Err(PathError::BadRequest));
    assert_eq!(PathError::BadRequest.status_code(), 400);
    // A name that merely starts with dots is an ordinary segment.
    assert_eq!(safe_path("/home", "...x"), Ok("/home/...x".to_string()));
}

fn e(name: &str, is_dir: bool, size: u64) -> ListEntry {
    ListEntry { name: name.to_string(), is_dir, size }
}

#[test]
fn listing_puts_directories_first_then_names_case_insensitively() {
    let sorted = sort_listing(vec![e("b.txt", false, 1), e("Zeta", true, 0), e("A.txt", false, 2), e("alpha", true, 0), e("a.TXT", false, 3)]);
    let names: Vec<&str> = sorted.iter().map(|x| x.name.as_str()).collect();
    assert_eq!(names, vec!["alpha", "Zeta", "A.txt", "a.TXT", "b.txt"]);
    assert_eq!(sorted[2].size, 2);
}

fn desk(xauth: Option<&str>) -> DesktopSession {
    DesktopSession { username: "alice".to_string(), display: ":0".to_string(), xauthority: xauth.map(String::from) }
}

#[test]
fn xclip_runs_directly_or_through_runuser() {
    assert!(running_as_desktop_user(&Some("alice".to_string()), &desk(None)));
    assert!(!running_as_desktop_user(&None, &desk(None)));
    let direct = xclip_command(&desk(Some("/x/auth")), "primary", true, true);
    assert_eq!(direct.program, "xclip");
    assert_eq!(direct.args, vec!["-selection", "primary", "-i"]);
    assert_eq!(
        direct.env,
        vec![("DISPLAY".to_string(), ":0".to_string()), ("XAUTHORITY".to_string(), "/x/auth".to_string())]
    );
    let wrapped = xclip_command(&desk(Some("/x/auth")), "clipboard", false, false);
    assert_eq!(wrapped.program, "runuser");
    assert_eq!(
        wrapped.args,
        vec!["-u", "alice", "--", "env", "DISPLAY=:0", "XAUTHORITY=/x/auth", "xclip", "-selection", "clipboard", "-o"]
    );
    assert!(wrapped.env.is_empty());
    assert_eq!(clipboard_selections(), vec!["clipboard", "primary"]);
}

#[test]
fn clipboard_replies() {
    let r = clipboard_get_reply(Ok("hello".to_string()));
    assert_eq!(r.status, 200);
    assert_eq!(r.content_type.as_deref(), Some("text/plain; charset=utf-8"));
    assert_eq!(r.body, b"hello");
    let r = clipboard_get_reply(Err("xclip: exit code 1".to_string()));
    assert_eq!((r.status, r.body.len()), (200, 0));
    let r = clipboard_get_reply(Err("permission denied".to_string()));
    assert_eq!(r.status, 500);
    assert_eq!(r.body, b"permission denied");
    assert_eq!(clipboard_set_reply(None).body, b"ok");
    let r = clipboard_set_reply(Some("spawn xclip".to_string()));
    assert_eq!((r.status, r.body.as_slice()), (500, b"spawn xclip".as_slice()));
}

#[test]
fn embedded_assets_get_a_guessed_mime_type() {
    let r = embedded_reply("index.html", Some(b"<html>".to_vec()));
    assert_eq!(r.status, 200);
    assert_eq!(r.content_type.as_deref(), Some("text/html"));
    assert_eq!(r.body, b"<html>");
    let r = embedded_reply("app.js", Some(vec![]));
    assert_eq!(r.content_type.as_deref(), Some("text/javascript"));
    let r = embedded_reply("blob.unknownext", Some(vec![1]));
    assert_eq!(r.content_type.as_deref(), Some("application/octet-stream"));
    let r = embedded_reply("missing.css", None);
    assert_eq!((r.status, r.body.as_slice()), (404, b"not found".as_slice()));
}

#[test]
fn desktop_identity_of_a_session() {
    let s = SessionInfo {
        backend_kind: BackendKind::X11,
        display: None,
        wayland_display: None,
        xauthority: Some("/x".to_string()),
        uid: 1000,
        username: "alice".to_string(),
        desktop: None,
    };
    let d = DesktopSession::for_session(&s);
    assert_eq!((d.username.as_str(), d.display.as_str(), d.xauthority.as_deref()), ("alice", ":0", Some("/x")));
}

#[test]
fn idle_streams_are_pinged_within_thirty_seconds() {
    assert!(urc::web::WS_KEEPALIVE_SECS < 30);
    assert!(urc::relay::RELAY_KEEPALIVE_SECS < 30);
}
