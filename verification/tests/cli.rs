use lazymount::cli::{
    overall_status, parse_host_port, plan, render, Command, Daemon, Line, Plan, DEFAULT_PORT,
};
use lazymount::client::{handle_client_request, ClientState, ClientTask};
use lazymount::config::{CacheConfig, ClientConfig};
use lazymount::mounts::MountManager;
use lazymount::protocol::{ControlRequest, ControlResponse, MountInfo, RemoteInfo, ShareInfo};
use lazymount::server::{handle_server_request, ServerTask};
use lazymount::types::LazyMountError;
use std::path::PathBuf;

fn text(s: &str) -> String {
    s.to_string()
}

fn dir(s: &str) -> PathBuf {
    PathBuf::from(s)
}

fn shown(response: ControlResponse) -> Vec<String> {
    let lines = render(&response, "1.5");
    assert!(lines.iter().all(|l| !l.error));
    lines.into_iter().map(|l| l.text).collect()
}

#[test]
fn addresses_are_taken_apart() {
    assert_eq!(parse_host_port("gpu.example.com:9000"), Ok((text("gpu.example.com"), 9000)));
    assert_eq!(parse_host_port("gpu.example.com"), Ok((text("gpu.example.com"), 8090)));
    assert_eq!(parse_host_port("::1:22"), Ok((text("::1"), 22)));
    assert_eq!(parse_host_port(":22"), Ok((text(""), 22)));
    assert_eq!(parse_host_port(""), Ok((text(""), 8090)));
    assert_eq!(parse_host_port("é:1"), Ok((text("é"), 1)));
    assert_eq!(DEFAULT_PORT, 8090);
    for s in ["host:", "host:x", "host:65536", "::"] {
        let e = parse_host_port(s).unwrap_err();
        assert_eq!(e, LazyMountError::Config(format!("invalid port in '{s}'")));
    }
}

#[test]
fn an_address_with_its_port_is_read_back() {
    for (host, port) in [("h", 0u16), ("a:b", 65535), ("", 80)] {
        assert_eq!(parse_host_port(&format!("{host}:{port}")), Ok((text(host), port)));
    }
}

#[test]
fn commands_are_planned() {
    let ask = |daemon: Daemon, request: ControlRequest| Ok(Plan::Ask { daemon, request });
    assert_eq!(
        plan(Command::ServerStart { port: 1, auth: Some(text("u:p")) }),
        Ok(Plan::StartServer { port: 1, auth: Some(text("u:p")) })
    );
    assert_eq!(plan(Command::ServerStop), ask(Daemon::Server, ControlRequest::Shutdown));
    assert_eq!(plan(Command::ServerStatus), ask(Daemon::Server, ControlRequest::Status));
    assert_eq!(plan(Command::DaemonStart), Ok(Plan::StartDaemon));
    assert_eq!(plan(Command::DaemonStop), ask(Daemon::Client, ControlRequest::Shutdown));
    let add = |address: &str| Command::RemoteAdd {
        name: text("gpu"),
        host_port: text(address),
        auth: None,
    };
    assert_eq!(
        plan(add("h:1")),
        ask(
            Daemon::Client,
            ControlRequest::RemoteAdd { name: text("gpu"), host: text("h"), port: 1, auth: None }
        )
    );
    assert_eq!(
        plan(add("h:x")),
        Err(LazyMountError::Config(text("invalid port in 'h:x'")))
    );
    assert_eq!(
        plan(Command::RemoteRemove { name: text("n") }),
        ask(Daemon::Client, ControlRequest::RemoteRemove { name: text("n") })
    );
    assert_eq!(plan(Command::RemoteList), ask(Daemon::Client, ControlRequest::RemoteList));
    assert_eq!(
        plan(Command::Connect { remote: text("n") }),
        ask(Daemon::Client, ControlRequest::Connect { remote: text("n") })
    );
    assert_eq!(
        plan(Command::Disconnect { remote: text("n") }),
        ask(Daemon::Client, ControlRequest::Disconnect { remote: text("n") })
    );
    assert_eq!(
        plan(Command::ShareAdd { name: text("n"), path: text("p"), remote: Some(text("r")) }),
        ask(
            Daemon::Client,
            ControlRequest::ShareAdd { name: text("n"), path: text("p"), remote: Some(text("r")) }
        )
    );
    assert_eq!(
        plan(Command::ShareRemove { name: text("n") }),
        ask(Daemon::Client, ControlRequest::ShareRemove { name: text("n") })
    );
    assert_eq!(plan(Command::ShareList), ask(Daemon::Client, ControlRequest::ShareList));
    assert_eq!(plan(Command::Mounts), ask(Daemon::Server, ControlRequest::MountList));
    assert_eq!(
        plan(Command::MountStats { share_name: text("n") }),
        ask(Daemon::Server, ControlRequest::MountStats { share_name: text("n") })
    );
    assert_eq!(plan(Command::Status), Ok(Plan::AskBoth));
}

#[test]
fn simple_answers_are_shown() {
    assert_eq!(shown(ControlResponse::Done), vec!["OK"]);
    assert_eq!(
        render(&ControlResponse::Error { message: text("x") }, ""),
        vec![Line { text: text("Error: x"), error: true }]
    );
    let status = |running: bool| ControlResponse::Status {
        role: text("client"),
        running,
        details: text("d"),
    };
    assert_eq!(shown(status(true)), vec!["  Role: client", "  Status: running", "  d"]);
    assert_eq!(shown(status(false)), vec!["  Role: client", "  Status: stopped", "  d"]);
    assert_eq!(
        shown(ControlResponse::MountStats {
            share_name: text("a"),
            cache_size_bytes: 1,
            cached_files: 2,
            bytes_transferred: 3,
            transfer_speed_bits: 0,
        }),
        vec![
            "Mount stats for 'a':",
            "  Cache size: 1 bytes",
            "  Cached files: 2",
            "  Bytes transferred: 3",
            "  Transfer speed: 1.5 B/s",
        ]
    );
}

#[test]
fn empty_lists_are_said_to_be_empty() {
    assert_eq!(shown(ControlResponse::RemoteList { remotes: vec![] }), vec!["No remotes configured."]);
    assert_eq!(shown(ControlResponse::ShareList { shares: vec![] }), vec!["No shares configured."]);
    assert_eq!(shown(ControlResponse::MountList { mounts: vec![] }), vec!["No mounts active."]);
}

#[test]
fn lists_are_shown_in_columns() {
    let remotes = vec![RemoteInfo {
        name: text("gpu"),
        host: text("h"),
        port: 1,
        status: text("connected"),
    }];
    assert_eq!(
        shown(ControlResponse::RemoteList { remotes }),
        vec![
            format!("{:<15} {:<30} {}", "NAME", "HOST", "STATUS"),
            format!("{:<15} {:<30} {}", "gpu", "h:1", "connected"),
        ]
    );
    let share = |name: &str, remotes: Vec<String>| ShareInfo {
        name: text(name),
        path: text("/p"),
        remotes,
        status: text("serving"),
    };
    assert_eq!(
        shown(ControlResponse::ShareList {
            shares: vec![
                share("a", vec![]),
                share("a-name-of-many-letters", vec![text("x"), text("y")]),
            ],
        }),
        vec![
            format!("{:<15} {:<30} {:<15} {}", "NAME", "PATH", "REMOTES", "STATUS"),
            format!("{:<15} {:<30} {:<15} {}", "a", "/p", "all", "serving"),
            format!(
                "{:<15} {:<30} {:<15} {}",
                "a-name-of-many-letters", "/p", "x, y", "serving"
            ),
        ]
    );
    let mounts = vec![MountInfo {
        client_name: text("laptop"),
        share_name: text("a"),
        mount_point: text("/mnt/a"),
        cache_size: text("0 B"),
        status: text("mounted"),
    }];
    assert_eq!(
        shown(ControlResponse::MountList { mounts }),
        vec![
            format!(
                "{:<15} {:<15} {:<30} {:<10} {}",
                "CLIENT", "SHARE", "LOCAL PATH", "CACHE", "STATUS"
            ),
            format!(
                "{:<15} {:<15} {:<30} {:<10} {}",
                "laptop", "a", "/mnt/a", "0 B", "mounted"
            ),
        ]
    );
}

#[test]
fn the_overall_status_is_shown() {
    let line = |s: &str| Line { text: text(s), error: false };
    assert_eq!(
        overall_status(Some(vec![line("  up")]), None),
        vec![line("Client daemon:"), line("  up"), line(""), line("Server daemon: not running")]
    );
    assert_eq!(
        overall_status(None, Some(vec![])),
        vec![line("Client daemon: not running"), line(""), line("Server daemon:")]
    );
}

#[test]
fn commands_reach_a_daemon_that_supports_them() {
    let mut client = ClientState::new(ClientConfig::default(), text("laptop"));
    let mut server = MountManager::at(dir("/m"), CacheConfig::default(), dir("/c"), 5572);
    let commands = vec![
        Command::ServerStop,
        Command::ServerStatus,
        Command::DaemonStop,
        Command::RemoteAdd { name: text("n"), host_port: text("h"), auth: None },
        Command::RemoteRemove { name: text("x") },
        Command::RemoteList,
        Command::Connect { remote: text("n") },
        Command::Disconnect { remote: text("n") },
        Command::ShareAdd { name: text("s"), path: text("p"), remote: None },
        Command::ShareRemove { name: text("s") },
        Command::ShareList,
        Command::Mounts,
        Command::MountStats { share_name: text("s") },
    ];
    for command in commands {
        let response = match plan(command) {
            Ok(Plan::Ask { daemon: Daemon::Client, request }) => {
                match handle_client_request(request, &mut client) {
                    ClientTask::Reply(response) => response,
                    _ => continue,
                }
            }
            Ok(Plan::Ask { daemon: Daemon::Server, request }) => {
                match handle_server_request(request, &mut server) {
                    ServerTask::Reply(response) => response,
                    _ => continue,
                }
            }
            _ => panic!("nobody was asked"),
        };
        if let ControlResponse::Error { message } = response {
            assert!(!message.starts_with("command not supported"));
        }
    }
}

#[test]
fn stop_commands_stop_the_daemons() {
    let mut client = ClientState::new(ClientConfig::default(), text("laptop"));
    match plan(Command::DaemonStop) {
        Ok(Plan::Ask { daemon: Daemon::Client, request }) => assert_eq!(
            handle_client_request(request, &mut client),
            ClientTask::Stop { response: ControlResponse::Done, shares: vec![], remotes: vec![] }
        ),
        _ => panic!("the client was not asked"),
    }
    let mut server = MountManager::at(dir("/m"), CacheConfig::default(), dir("/c"), 5572);
    let dirs = vec![dir("/bin")];
    let start = server
        .prepare_mount("a", "laptop", 3222, &dirs, |_: &PathBuf| true, |_: u16| true)
        .unwrap();
    server.mount_share(start.info);
    let mounts = server.list_mounts();
    match plan(Command::ServerStop) {
        Ok(Plan::Ask { daemon: Daemon::Server, request }) => assert_eq!(
            handle_server_request(request, &mut server),
            ServerTask::Stop { response: ControlResponse::Done, mounts }
        ),
        _ => panic!("the server was not asked"),
    }
    assert!(server.list_mounts().is_empty());
}
