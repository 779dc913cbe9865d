use urc::session::{loginctl_scan_step, next_display_source, DisplaySource};
use urc::protocol::BackendPreference;
use urc::session::{
    classify_session, desktop_from_output, display_from_env_output, display_from_who_output,
    display_from_x11_sockets, env_needs_desktop, finish_loginctl_session, gdm_xauthority_path, glob_entry_matches,
    glob_parts, is_xauthority_file_name, loginctl_username, parse_session_list, parse_show_session, runtime_dir,
    xwayland_auth_glob, BackendKind, EnvSnapshot, SessionDetector, SessionError, SessionInfo, SocketEntry,
};

fn env(display: Option<&str>, wayland: Option<&str>, uid: Option<&str>, user: Option<&str>) -> EnvSnapshot {
    EnvSnapshot {
        display: display.map(String::from),
        wayland_display: wayland.map(String::from),
        xauthority: Some("/home/u/.Xauthority".to_string()),
        uid: uid.map(String::from),
        user: user.map(String::from),
    }
}

fn x11_info() -> SessionInfo {
    SessionInfo {
        backend_kind: BackendKind::X11,
        display: Some(":0".to_string()),
        wayland_display: Some(":0".to_string()),
        xauthority: None,
        uid: 1000,
        username: "alice".to_string(),
        desktop: None,
    }
}

#[test]
fn preference_filters_sessions() {
    assert!(SessionDetector::apply_preference(x11_info(), BackendPreference::Auto).is_ok());
    assert!(SessionDetector::apply_preference(x11_info(), BackendPreference::X11).is_ok());
    let e = SessionDetector::apply_preference(x11_info(), BackendPreference::Gnome).err().unwrap();
    assert_eq!(e.message(), "backend preference gnome but session is not GNOME Wayland");
    let e = SessionDetector::apply_preference(x11_info(), BackendPreference::Wayvnc).err().unwrap();
    assert_eq!(e.message(), "backend preference wayvnc but session is not wlroots Wayland");
    let mut g = x11_info();
    g.backend_kind = BackendKind::GnomeWayland;
    let e = SessionDetector::apply_preference(g, BackendPreference::X11).err().unwrap();
    assert_eq!(
        e.message(),
        "backend preference x11 but active session is GnomeWayland. Log in on Xorg or set backend = \"auto\"."
    );
}

#[test]
fn environment_fallback() {
    let e = env(Some(":1"), None, Some("1001"), None);
    assert!(env_needs_desktop(&e));
    assert!(!env_needs_desktop(&env(None, None, None, None)));
    let info = SessionDetector::from_env(&e, None, BackendPreference::Auto).unwrap();
    assert_eq!(info.backend_kind, BackendKind::X11);
    assert_eq!(info.display.as_deref(), Some(":1"));
    assert_eq!(info.uid, 1001);
    assert_eq!(info.username, "uid1001");
    let w = env(None, Some("wayland-0"), Some("x"), Some("bob"));
    assert!(env_needs_desktop(&w));
    let info = SessionDetector::from_env(&w, Some("sway".to_string()), BackendPreference::Auto).unwrap();
    assert_eq!(info.backend_kind, BackendKind::WlrootsWayland);
    assert_eq!(info.uid, 1000);
    assert_eq!(info.username, "bob");
    assert!(info.display.is_none());
    let e = SessionDetector::from_env(&w, Some("kde".to_string()), BackendPreference::Auto).err().unwrap();
    assert!(matches!(e, SessionError::UnsupportedEnvDesktop));
    let none = env(None, None, None, None);
    let e = SessionDetector::from_env(&none, None, BackendPreference::Auto).err().unwrap();
    assert_eq!(e.message(), "no DISPLAY or WAYLAND_DISPLAY and loginctl found no session");
}

#[test]
fn detect_prefers_loginctl() {
    let e = env(Some(":5"), None, None, None);
    let r = SessionDetector::detect(Ok(x11_info()), &e, None, BackendPreference::Auto).unwrap();
    assert_eq!(r.username, "alice");
    let r = SessionDetector::detect(Err(SessionError::NoActiveSession), &e, None, BackendPreference::Auto).unwrap();
    assert_eq!(r.display.as_deref(), Some(":5"));
}

#[test]
fn loginctl_listing_and_show() {
    let listed = parse_session_list("  3 1000 alice seat0 tty2\n c1 0 gdm seat0\n 7 abc bob\n short 1001\n");
    assert_eq!(listed.len(), 1);
    assert_eq!(listed[0].id, "3");
    assert_eq!(listed[0].uid, 1000);
    let show = parse_show_session("Type=x11\nDisplay=\nName=alice\nActive=yes\n");
    assert_eq!(show.session_type, "x11");
    assert!(show.display.is_none());
    assert_eq!(show.username.as_deref(), Some("alice"));
    assert!(show.active);
    assert_eq!(loginctl_username(&show, 1000), "alice");
    let anon = parse_show_session("Type=wayland\nDisplay=:0\nActive=no");
    assert_eq!(anon.display.as_deref(), Some(":0"));
    assert!(!anon.active);
    assert_eq!(loginctl_username(&anon, 1002), "uid1002");
}

#[test]
fn classification() {
    assert_eq!(classify_session("x11", &None).unwrap(), BackendKind::X11);
    assert_eq!(classify_session("wayland", &Some("ubuntu".to_string())).unwrap(), BackendKind::GnomeWayland);
    assert_eq!(classify_session("wayland", &Some("wayfire".to_string())).unwrap(), BackendKind::WlrootsWayland);
    let e = classify_session("wayland", &Some("kde".to_string())).err().unwrap();
    assert_eq!(
        e.message(),
        "Wayland session detected (desktop=Some(\"kde\")) but desktop environment is not supported. Supported: GNOME (gnome-remote-desktop) or wlroots (wayvnc). See docs/headless-server.md"
    );
    let e = classify_session("wayland", &None).err().unwrap();
    assert!(matches!(e, SessionError::UnrecognizedWayland));
    let e = classify_session("tty", &None).err().unwrap();
    assert_eq!(e.message(), "unsupported session type: tty");
    assert!(SessionError::NoActiveSession.message().starts_with("no active graphical session found."));
}

#[test]
fn finishing_a_loginctl_session() {
    let show = parse_show_session("Type=wayland\nName=carol\nActive=yes");
    let info = finish_loginctl_session(&show, 1003, None, Some("/run/user/1003/.mutter-Xwaylandauth.AB".to_string()), Some("gnome".to_string())).unwrap();
    assert_eq!(info.backend_kind, BackendKind::GnomeWayland);
    assert_eq!(info.wayland_display.as_deref(), Some("wayland-0"));
    assert_eq!(info.username, "carol");
    let xshow = parse_show_session("Type=x11\nName=dave\nActive=yes");
    let info = finish_loginctl_session(&xshow, 1004, Some(":2".to_string()), None, None).unwrap();
    assert_eq!(info.display.as_deref(), Some(":2"));
    assert_eq!(info.wayland_display.as_deref(), Some(":2"));
}

#[test]
fn runtime_paths() {
    assert_eq!(runtime_dir(1000), "/run/user/1000");
    assert_eq!(gdm_xauthority_path(1000), "/run/user/1000/gdm/Xauthority");
    assert_eq!(xwayland_auth_glob(42), "/run/user/42/.mutter-Xwaylandauth.*");
    assert!(is_xauthority_file_name(".mutter-Xwaylandauth.XYZ"));
    assert!(is_xauthority_file_name("Xauthority"));
    assert!(!is_xauthority_file_name("bus"));
}

#[test]
fn xauthority_glob_reading() {
    let (base, suffix) = glob_parts("/run/user/42/.mutter-Xwaylandauth.*").unwrap();
    assert_eq!(base, "/run/user/42");
    assert_eq!(suffix, "");
    // The empty suffix accepts any entry, as the lookup always did.
    assert!(glob_entry_matches("bus", &suffix));
    assert!(glob_entry_matches("x-Xwaylandauth-1", ".Z"));
    assert!(!glob_entry_matches("bus", ".Z"));
    assert!(glob_entry_matches("Zeta", ".Z"));
    assert!(glob_parts("no-slash*").is_none());
}

#[test]
fn display_discovery() {
    let who = "root     tty1  2024-01-01\nalice    :1    2024-01-01 (:1)\n";
    assert_eq!(display_from_who_output(who, "alice").as_deref(), Some(":1"));
    assert_eq!(display_from_who_output(who, "bob"), None);
    assert_eq!(display_from_who_output("alice pts/0\nalice :0\n", "alice").as_deref(), Some(":0"));
    assert_eq!(display_from_env_output("  :3\n").as_deref(), Some(":3"));
    assert_eq!(display_from_env_output("localhost:10"), None);
    assert_eq!(desktop_from_output(" ubuntu:GNOME\n").as_deref(), Some("ubuntu"));
    assert_eq!(desktop_from_output("  \n"), None);
    let socks = vec![
        SocketEntry { name: "X0".to_string(), owner: Some(0) },
        SocketEntry { name: "X2".to_string(), owner: Some(1000) },
        SocketEntry { name: "X10".to_string(), owner: Some(1000) },
        SocketEntry { name: "Xbad".to_string(), owner: Some(1000) },
    ];
    assert_eq!(display_from_x11_sockets(&socks, 1000).as_deref(), Some(":10"));
    assert_eq!(display_from_x11_sockets(&socks, 7), None);
}

#[test]
fn xauthority_choice_per_session_type() {
    let x = urc::session::xauthority_for("x11", 1000, None, Some("/g".to_string()));
    assert_eq!(x.as_deref(), Some("/run/user/1000/gdm/Xauthority"));
    let x = urc::session::xauthority_for("x11", 1000, Some("/r".to_string()), None);
    assert_eq!(x.as_deref(), Some("/r"));
    let w = urc::session::xauthority_for("wayland", 1000, Some("/r".to_string()), Some("/g".to_string()));
    assert_eq!(w.as_deref(), Some("/g"));
    let w = urc::session::xauthority_for("wayland", 1000, Some("/r".to_string()), None);
    assert_eq!(w.as_deref(), Some("/r"));
    assert_eq!(urc::session::xauthority_for("wayland", 1000, None, None), None);
}

#[test]
fn the_scan_takes_active_graphical_sessions_only() {
    assert!(loginctl_scan_step(&Some(parse_show_session("Type=x11\nActive=yes"))));
    assert!(loginctl_scan_step(&Some(parse_show_session("Type=wayland\nActive=yes"))));
    assert!(!loginctl_scan_step(&Some(parse_show_session("Type=tty\nActive=yes"))));
    assert!(!loginctl_scan_step(&Some(parse_show_session("Type=x11\nActive=no"))));
    assert!(!loginctl_scan_step(&None));
}

#[test]
fn x11_display_fallback_order() {
    let s = |v: Option<&str>| v.map(String::from);
    assert_eq!(next_display_source("wayland", &vec![None]), Ok(None));
    assert_eq!(next_display_source("wayland", &vec![s(Some(":0"))]), Ok(s(Some(":0"))));
    assert_eq!(next_display_source("x11", &vec![s(Some(":1"))]), Ok(s(Some(":1"))));
    assert_eq!(next_display_source("x11", &vec![None]), Err(DisplaySource::Who));
    assert_eq!(next_display_source("x11", &vec![None, None]), Err(DisplaySource::X11Sockets));
    assert_eq!(next_display_source("x11", &vec![None, None, None]), Err(DisplaySource::UserEnv));
    assert_eq!(next_display_source("x11", &vec![None, None, s(Some(":1"))]), Ok(s(Some(":1"))));
    assert_eq!(next_display_source("x11", &vec![None, None, None, None]), Ok(None));
}
