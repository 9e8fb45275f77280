use lazymount::config::data_dir;
use lazymount::control::{
    client_socket_path, connect_error, control_error, frame, port_in_file, server_socket_path,
    unframe,
};
use lazymount::protocol::{ControlRequest, ControlResponse, MountInfo, RemoteInfo, ShareInfo};
use lazymount::text::decimal_text;
use lazymount::types::LazyMountError;
use std::path::PathBuf;

fn text(s: &str) -> String {
    s.to_string()
}

fn shown(path: PathBuf) -> String {
    path.into_os_string().into_string().unwrap()
}

#[test]
fn sockets_are_in_the_data_directory() {
    let data = shown(data_dir().unwrap());
    assert_eq!(shown(client_socket_path(true).unwrap()), format!("{data}/lazymount.sock"));
    assert_eq!(shown(client_socket_path(false).unwrap()), format!("{data}/lazymount.port"));
    assert_eq!(shown(server_socket_path(true).unwrap()), format!("{data}/lazymount-server.sock"));
    assert_eq!(shown(server_socket_path(false).unwrap()), format!("{data}/lazymount-server.port"));
}

#[test]
fn the_daemons_have_sockets_of_their_own() {
    for unix in [true, false] {
        assert_ne!(client_socket_path(unix).unwrap(), server_socket_path(unix).unwrap());
    }
}

#[test]
fn messages_are_read_back() {
    for message in [r#"{"type":"Status"}"#, "x", "a b"] {
        assert_eq!(frame(message), format!("{message}\n"));
        assert_eq!(unframe(&frame(message)).as_deref(), Some(message));
    }
}

#[test]
fn white_space_around_messages_is_dropped() {
    assert_eq!(unframe("  x \r\n").as_deref(), Some("x"));
    assert_eq!(unframe("  x ").as_deref(), Some("x"));
    assert_eq!(unframe("\n"), None);
    assert_eq!(unframe(" \t\r\n"), None);
    assert_eq!(unframe(""), None);
}

#[test]
fn failures_on_the_socket_are_worded() {
    assert_eq!(
        control_error("invalid request", "x"),
        LazyMountError::Control("invalid request: x".to_string())
    );
    assert_eq!(
        connect_error("at /d/lazymount.sock", "refused").message(),
        "control socket error: failed to connect to daemon at /d/lazymount.sock: refused. Is the \
         daemon running?"
    );
}

#[test]
fn ports_are_read_from_files() {
    assert_eq!(port_in_file(" 4242\n"), Some(4242));
    assert_eq!(port_in_file("x"), None);
    assert_eq!(port_in_file(""), None);
    for port in [0u16, 80, 65535] {
        assert_eq!(port_in_file(&decimal_text(port as u64)), Some(port));
    }
}

#[test]
fn copied_messages_hold_the_same() {
    let requests = [
        ControlRequest::Status,
        ControlRequest::Shutdown,
        ControlRequest::RemoteAdd {
            name: text("n"),
            host: text("h"),
            port: 1,
            auth: Some(text("u:p")),
        },
        ControlRequest::RemoteAdd { name: text("n"), host: text("h"), port: 1, auth: None },
        ControlRequest::RemoteRemove { name: text("n") },
        ControlRequest::RemoteList,
        ControlRequest::Connect { remote: text("r") },
        ControlRequest::Disconnect { remote: text("r") },
        ControlRequest::ShareAdd { name: text("n"), path: text("/p"), remote: Some(text("r")) },
        ControlRequest::ShareRemove { name: text("n") },
        ControlRequest::ShareList,
        ControlRequest::MountList,
        ControlRequest::MountStats { share_name: text("n") },
    ];
    for request in &requests {
        assert_eq!(&request.clone(), request);
    }
    let responses = [
        ControlResponse::Done,
        ControlResponse::Error { message: text("m") },
        ControlResponse::Status { role: text("r"), running: true, details: text("d") },
        ControlResponse::RemoteList {
            remotes: vec![RemoteInfo {
                name: text("n"),
                host: text("h"),
                port: 1,
                status: text("s"),
            }],
        },
        ControlResponse::ShareList {
            shares: vec![ShareInfo {
                name: text("n"),
                path: text("/p"),
                remotes: vec![text("r"), text("q")],
                status: text("s"),
            }],
        },
        ControlResponse::MountList {
            mounts: vec![
                MountInfo {
                    client_name: text("c"),
                    share_name: text("n"),
                    mount_point: text("/m"),
                    cache_size: text("0 B"),
                    status: text("s"),
                },
                MountInfo {
                    client_name: text("d"),
                    share_name: text("o"),
                    mount_point: text("/n"),
                    cache_size: text("1 B"),
                    status: text("t"),
                },
            ],
        },
        ControlResponse::MountStats {
            share_name: text("n"),
            cache_size_bytes: 1,
            cached_files: 2,
            bytes_transferred: 3,
            transfer_speed_bits: 4,
        },
    ];
    for response in &responses {
        assert_eq!(&response.clone(), response);
    }
}
