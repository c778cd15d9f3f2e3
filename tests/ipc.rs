use canviz::ipc::{slideshow_label, socket_path_in, IpcCommand, IpcResponse, MonitorStatus};

#[test]
fn socket_path_prefers_runtime_dir() {
    assert_eq!(socket_path_in(Some("/run/user/1000"), Some("/var/tmp"), 1000), "/run/user/1000/canviz-1000.sock");
    assert_eq!(socket_path_in(None, Some("/var/tmp"), 0), "/var/tmp/canviz-0.sock");
    assert_eq!(socket_path_in(None, None, 4294967295), "/tmp/canviz-4294967295.sock");
}

#[test]
fn slideshow_labels() {
    assert_eq!(slideshow_label(false, true), "disabled");
    assert_eq!(slideshow_label(true, true), "paused");
    assert_eq!(slideshow_label(true, false), "running");
}

#[test]
fn messages_carry_their_fields() {
    let c = IpcCommand::SetWallpaper { monitor: Some("DP-1".to_string()), path: "/img/b.png".to_string() };
    match c {
        IpcCommand::SetWallpaper { monitor, path } => {
            assert_eq!(monitor.as_deref(), Some("DP-1"));
            assert_eq!(path, "/img/b.png");
        }
        _ => panic!("wrong variant"),
    }
    let status = MonitorStatus {
        name: "DP-1".to_string(),
        wallpaper: None,
        workspace: Some(2),
        slideshow_active: false,
        slideshow_paused: false,
    };
    let r = IpcResponse::Status { monitors: vec![status] };
    match r {
        IpcResponse::Status { monitors } => assert_eq!(monitors[0].workspace, Some(2)),
        _ => panic!("wrong variant"),
    }
}
