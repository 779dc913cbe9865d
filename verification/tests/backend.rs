use urc::backend::{
    screen_share_vnc_server, vnc_password, vnc_server_candidates, wayvnc_args, which_output_path, x11_vnc_args,
    BackendError, GnomeBackend, VncBackend, WayvncBackend, X11Backend, LOCAL_PORT,
};
use urc::protocol::AgentConfig;
use urc::session::{BackendKind, SessionInfo};

fn session(kind: BackendKind, display: Option<&str>) -> SessionInfo {
    SessionInfo {
        backend_kind: kind,
        display: display.map(String::from),
        wayland_display: None,
        xauthority: Some("/run/user/1000/gdm/Xauthority".to_string()),
        uid: 1000,
        username: "alice".to_string(),
        desktop: None,
    }
}

#[test]
fn screen_server_lookup() {
    assert_eq!(vnc_server_candidates(), vec!["x0tigervncserver", "x0vncserver"]);
    assert_eq!(which_output_path("/usr/bin/x0vncserver\n").as_deref(), Some("/usr/bin/x0vncserver"));
    assert_eq!(which_output_path("  \n"), None);
    assert_eq!(screen_share_vnc_server(&vec![None, Some("/usr/bin/x0vncserver".to_string())]).unwrap(), "/usr/bin/x0vncserver");
    let e = screen_share_vnc_server(&vec![None, None]).err().unwrap();
    assert!(matches!(e, BackendError::ScreenServerMissing));
    assert!(e.message().starts_with("screen VNC server not found (need x0tigervncserver).\n"));
}

#[test]
fn x11_arguments() {
    let config = AgentConfig::default();
    let x = X11Backend::new(&config, &session(BackendKind::X11, None));
    assert_eq!(x.display, ":0");
    assert_eq!(x.password_file, "/etc/urc/vncpasswd");
    assert_eq!(x.local_port(), LOCAL_PORT);
    let args = x11_vnc_args(&x, &Some("/xa".to_string()), "/usr/bin/x0vncserver", &Some("/etc/urc/vncpasswd".to_string()));
    assert_eq!(
        args,
        vec![
            "-u", "alice", "--", "env", "DISPLAY=:0", "XAUTHORITY=/xa", "/usr/bin/x0vncserver", "-display", ":0",
            "-rfbport", "5900", "-localhost", "yes", "-UseSHM", "1", "-FrameRate", "60", "-SecurityTypes",
            "None", "-PasswordFile", "/etc/urc/vncpasswd"
        ]
    );
    let bare = x11_vnc_args(&x, &None, "x0vncserver", &None);
    assert_eq!(bare.len(), 18);
    assert_eq!(bare[4], "DISPLAY=:0");
    assert_eq!(bare[5], "x0vncserver");
}

#[test]
fn wayvnc_settings_and_arguments() {
    let config = AgentConfig::default();
    let e = WayvncBackend::new(&config, &session(BackendKind::WlrootsWayland, None), false).err().unwrap();
    assert_eq!(e.message(), "wayvnc not found. Install: apt install wayvnc");
    let w = WayvncBackend::new(&config, &session(BackendKind::WlrootsWayland, None), true).unwrap();
    assert_eq!(w.wayland_display, "wayland-0");
    assert_eq!(wayvnc_args(&None), vec!["-o", "5900", "-D"]);
    assert_eq!(wayvnc_args(&Some("/p".to_string())), vec!["-o", "5900", "-D", "-P", "/p"]);
}

#[test]
fn gnome_commands() {
    let config = AgentConfig::default();
    let e = GnomeBackend::new(&config, &session(BackendKind::GnomeWayland, None), false).err().unwrap();
    assert_eq!(e.message(), "grdctl not found. Install: apt install gnome-remote-desktop");
    let g = GnomeBackend::new(&config, &session(BackendKind::GnomeWayland, None), true).unwrap();
    assert_eq!(g.password_file().as_deref(), Some("/etc/urc/vncpasswd"));
    let cmds = g.setup_commands("s3cr3tpw");
    assert_eq!(cmds.len(), 5);
    assert_eq!(cmds[1], vec!["-u", "alice", "--", "grdctl", "vnc", "set-password", "s3cr3tpw"]);
    assert_eq!(cmds[4], vec!["-u", "alice", "--", "systemctl", "--user", "enable", "--now", "gnome-remote-desktop.service"]);
    assert_eq!(g.stop_command(), vec!["-u", "alice", "--", "grdctl", "vnc", "disable"]);
    assert_eq!(g.local_port(), 5900);
}

#[test]
fn vnc_password_takes_the_first_eight_bytes() {
    assert_eq!(vnc_password(&Some(b"abcdefghij".to_vec())), "abcdefgh");
    assert_eq!(vnc_password(&Some(b"short".to_vec())), "urc-default");
    assert_eq!(vnc_password(&None), "urc-default");
    assert_eq!(vnc_password(&Some(vec![0xff, b'b', b'c', b'd', b'e', b'f', b'g', b'h'])), "\u{fffd}bcdefgh");
}
