use lazymount::client::{
    client_name, client_name_on, handle_client_request, outcome_reply, save_reply, ClientState,
    ClientTask, TunnelStart,
};
use lazymount::config::{CacheConfig, ClientConfig, RemoteConfig, ServerConfig, ShareConfig};
use lazymount::mounts::MountManager;
use lazymount::protocol::{
    ControlRequest, ControlResponse, RemoteInfo, ShareInfo, ShareManifest, ShareManifestEntry,
};
use lazymount::server::reconcile_mounts;
use lazymount::tunnel::{ChiselTunnelProvider, TunnelClientHandle};
use lazymount::types::{ConnectionStatus, LazyMountError, ProcessKind, Remote, TunnelMapping};
use std::path::PathBuf;

fn text(s: &str) -> String {
    s.to_string()
}

fn dir(s: &str) -> PathBuf {
    PathBuf::from(s)
}

fn bin() -> Vec<PathBuf> {
    vec![dir("/bin")]
}

fn yes(_: &PathBuf) -> bool {
    true
}

fn no(_: &PathBuf) -> bool {
    false
}

type Probe = fn(&PathBuf) -> bool;

fn tunnel(local_port: u16, remote_port: u16) -> TunnelMapping {
    TunnelMapping { local_port, remote_port }
}

fn remote_config(host: &str, auto_connect: bool) -> RemoteConfig {
    RemoteConfig { host: text(host), port: 8090, auth: Some(text("u:p")), auto_connect }
}

fn state() -> ClientState {
    let mut config = ClientConfig::default();
    config.remotes.insert(text("gpu"), remote_config("gpu.example.com", true));
    config.remotes.insert(text("vm"), remote_config("vm.example.com", false));
    config.shares.insert(
        text("project"),
        ShareConfig { path: text("~/code"), remotes: vec![text("gpu")] },
    );
    ClientState::new(config, text("laptop"))
}

fn connect(s: &mut ClientState, name: &str) -> Result<(), LazyMountError> {
    let start = s.prepare_connect(name, &bin(), yes)?;
    s.connect_to_remote(&start);
    Ok(())
}

fn share(
    s: &mut ClientState,
    name: &str,
    remotes: Vec<String>,
) -> Result<Vec<TunnelStart>, LazyMountError> {
    let start = s.prepare_share_in(
        text(name),
        "~/x",
        remotes,
        Some(dir("/home/me")),
        yes,
        &bin(),
        yes,
        |_: u16| true,
    )?;
    Ok(s.add_share(start.share))
}

fn restarted(starts: &[TunnelStart]) -> Vec<String> {
    starts.iter().map(|s| s.remote.name.clone()).collect()
}

fn status_of(s: &ClientState, name: &str) -> String {
    s.remotes.get(name).unwrap().status.label()
}

#[test]
fn a_client_starts_with_its_configuration() {
    let s = state();
    assert_eq!(
        s.manifest,
        ShareManifest { version: 1, client_name: text("laptop"), shares: vec![] }
    );
    assert_eq!(s.remotes.names(), vec!["gpu", "vm"]);
    assert_eq!(s.remotes.get("gpu").unwrap().host, "gpu.example.com");
    assert_eq!(s.remotes.get("gpu").unwrap().auth.as_deref(), Some("u:p"));
    assert_eq!(status_of(&s, "gpu"), "disconnected");
    assert_eq!(s.auto_remotes(), vec!["gpu"]);
    assert_eq!(
        s.saved_shares(),
        vec![(text("project"), text("~/code"), vec![text("gpu")])]
    );
    assert_eq!(s.share_manager.next_sftp_port(), 2222);
}

#[test]
fn a_client_is_named_after_its_machine() {
    assert_eq!(client_name_on(Some(text("laptop"))), "laptop");
    assert_eq!(client_name_on(None), "unknown");
    assert!(!client_name().is_empty());
}

#[test]
fn tunnel_ports_follow_local_ports() {
    let mut s = state();
    assert_eq!(s.tunnel_port(2222), Some(3222));
    assert_eq!(s.tunnel_port(2300), Some(3300));
    assert_eq!(s.tunnel_port(2221), None);
    assert_eq!(s.tunnel_port(64535), Some(65535));
    assert_eq!(s.tunnel_port(64536), None);
    s.config.daemon.sftp_port_range_start = 0;
    assert_eq!(s.tunnel_port(0), Some(3222));
}

#[test]
fn connecting_opens_the_tunnels_that_are_needed() {
    let mut s = state();
    share(&mut s, "all", vec![]).unwrap();
    share(&mut s, "some", vec![text("gpu")]).unwrap();
    let start = s.prepare_connect("vm", &bin(), yes).unwrap();
    assert_eq!(start.tunnels, vec![tunnel(3200, 3200), tunnel(2222, 3222)]);
    assert_eq!(start.process.name, "chisel-client-vm");
    assert_eq!(start.process.program, "chisel");
    assert_eq!(start.process.kind, ProcessKind::ChiselClient);
    assert_eq!(
        start.process.args,
        vec![
            "client",
            "http://u:p@vm.example.com:8090",
            "R:3200:localhost:3200",
            "R:3222:localhost:2222",
        ]
    );
    assert_eq!(
        s.tunnel_mappings_for_remote("gpu"),
        vec![tunnel(3200, 3200), tunnel(2222, 3222), tunnel(2223, 3223)]
    );
    s.connect_to_remote(&start);
    assert_eq!(status_of(&s, "vm"), "connected");
    assert_eq!(status_of(&s, "gpu"), "disconnected");
    assert_eq!(
        s.tunnel_handles.get("vm"),
        Some(&TunnelClientHandle {
            remote_name: text("vm"),
            tunnels: vec![tunnel(3200, 3200), tunnel(2222, 3222)],
        })
    );
}

#[test]
fn connecting_can_fail() {
    let mut s = state();
    connect(&mut s, "gpu").unwrap();
    let e = s.prepare_connect("none", &bin(), no).unwrap_err();
    assert_eq!(e, LazyMountError::Other(text("remote 'none' not found")));
    let e = s.prepare_connect("gpu", &bin(), no).unwrap_err();
    assert_eq!(e, LazyMountError::Other(text("already connected to 'gpu'")));
    let e = s.prepare_connect("vm", &bin(), no).unwrap_err();
    assert!(e.message().starts_with("dependency missing: chisel"));
}

#[test]
fn connecting_and_disconnecting_restores_the_client() {
    let mut s = state();
    connect(&mut s, "gpu").unwrap();
    let handle = s.disconnect_from_remote("gpu").unwrap();
    assert_eq!(handle.remote_name, "gpu");
    assert_eq!(handle.tunnels, vec![tunnel(3200, 3200)]);
    assert_eq!(status_of(&s, "gpu"), "disconnected");
    assert_eq!(s.tunnel_handles.len(), 0);
    assert_eq!(
        s.disconnect_from_remote("gpu").unwrap_err(),
        LazyMountError::Other(text("not connected to 'gpu'"))
    );
}

#[test]
fn sharing_lists_the_share_and_restarts_tunnels() {
    let mut s = state();
    connect(&mut s, "gpu").unwrap();
    connect(&mut s, "vm").unwrap();
    let starts = share(&mut s, "one", vec![text("vm")]).unwrap();
    assert_eq!(restarted(&starts), vec!["vm"]);
    assert_eq!(starts[0].tunnels, vec![tunnel(3200, 3200), tunnel(2222, 3222)]);
    assert_eq!(s.tunnel_handles.get("vm").unwrap().tunnels, vec![tunnel(3200, 3200)]);
    s.record_tunnels(&starts[0]);
    assert_eq!(
        s.tunnel_handles.get("vm").unwrap().tunnels,
        vec![tunnel(3200, 3200), tunnel(2222, 3222)]
    );
    let starts = share(&mut s, "two", vec![]).unwrap();
    assert_eq!(restarted(&starts), vec!["gpu", "vm"]);
    assert_eq!(
        s.manifest.shares,
        vec![
            ShareManifestEntry { name: text("one"), tunneled_port: 3222 },
            ShareManifestEntry { name: text("two"), tunneled_port: 3223 },
        ]
    );
    assert_eq!(s.share_manager.get_share("two").unwrap().path, dir("/home/me/x"));
}

#[test]
fn only_registered_remotes_are_restarted() {
    let mut s = state();
    connect(&mut s, "gpu").unwrap();
    connect(&mut s, "vm").unwrap();
    handle_client_request(ControlRequest::RemoteRemove { name: text("gpu") }, &mut s);
    let starts = share(&mut s, "one", vec![]).unwrap();
    assert_eq!(restarted(&starts), vec!["vm"]);
}

#[test]
fn sharing_and_unsharing_restores_the_manifest() {
    let mut s = state();
    connect(&mut s, "gpu").unwrap();
    share(&mut s, "one", vec![]).unwrap();
    let before = s.manifest.clone();
    share(&mut s, "two", vec![text("vm")]).unwrap();
    let starts = s.remove_share("two").unwrap();
    assert_eq!(restarted(&starts), vec!["gpu"]);
    assert_eq!(starts[0].tunnels, vec![tunnel(3200, 3200), tunnel(2222, 3222)]);
    assert_eq!(s.manifest, before);
    let e = s.remove_share("two").unwrap_err();
    assert_eq!(e, LazyMountError::Other(text("share 'two' not found")));
    assert_eq!(s.manifest, before);
}

#[test]
fn sharing_can_fail() {
    let mut s = state();
    share(&mut s, "one", vec![]).unwrap();
    assert_eq!(
        share(&mut s, "one", vec![]).unwrap_err(),
        LazyMountError::Other(text("share 'one' already exists"))
    );
    let e = s
        .prepare_share(text("two"), "/no/such", vec![], no, &bin(), yes, |_: u16| true)
        .unwrap_err();
    assert_eq!(e, LazyMountError::Other(text("path '/no/such' does not exist")));
    let start = s
        .prepare_share(text("two"), "~/two", vec![], yes, &bin(), yes, |_: u16| true)
        .unwrap();
    assert!(start.share.path.ends_with("two"));
    assert!(!start.share.path.starts_with("~"));
    assert_eq!(s.manifest.shares.len(), 1);
}

#[test]
fn tunnels_stay_current() {
    let mut s = state();
    connect(&mut s, "gpu").unwrap();
    connect(&mut s, "vm").unwrap();
    for (name, remotes) in [("a", vec![]), ("b", vec![text("gpu")]), ("c", vec![text("vm")])] {
        for start in share(&mut s, name, remotes).unwrap() {
            s.record_tunnels(&start);
        }
        for remote in ["gpu", "vm"] {
            assert_eq!(
                s.tunnel_handles.get(remote).unwrap().tunnels,
                s.tunnel_mappings_for_remote(remote)
            );
        }
    }
    for start in s.remove_share("a").unwrap() {
        s.record_tunnels(&start);
    }
    assert_eq!(
        s.tunnel_handles.get("gpu").unwrap().tunnels,
        vec![tunnel(3200, 3200), tunnel(2223, 3223)]
    );
    assert_eq!(
        s.tunnel_handles.get("vm").unwrap().tunnels,
        vec![tunnel(3200, 3200), tunnel(2224, 3224)]
    );
}

#[test]
fn the_status_counts() {
    let mut s = state();
    connect(&mut s, "gpu").unwrap();
    share(&mut s, "a", vec![]).unwrap();
    share(&mut s, "b", vec![]).unwrap();
    assert_eq!(
        handle_client_request(ControlRequest::Status, &mut s),
        ClientTask::Reply(ControlResponse::Status {
            role: text("client"),
            running: true,
            details: text("1 connection(s), 2 share(s)"),
        })
    );
}

#[test]
fn remotes_are_registered_and_removed() {
    let mut s = state();
    let add = ControlRequest::RemoteAdd {
        name: text("new"),
        host: text("h"),
        port: 1,
        auth: None,
    };
    assert_eq!(handle_client_request(add, &mut s), ClientTask::SaveAndReport);
    assert_eq!(s.remotes.get("new").unwrap().host, "h");
    assert_eq!(
        s.config.remotes.get("new"),
        Some(&RemoteConfig { host: text("h"), port: 1, auth: None, auto_connect: false })
    );
    assert_eq!(
        handle_client_request(ControlRequest::RemoteList, &mut s),
        ClientTask::Reply(ControlResponse::RemoteList {
            remotes: vec![
                RemoteInfo {
                    name: text("gpu"),
                    host: text("gpu.example.com"),
                    port: 8090,
                    status: text("disconnected"),
                },
                RemoteInfo {
                    name: text("vm"),
                    host: text("vm.example.com"),
                    port: 8090,
                    status: text("disconnected"),
                },
                RemoteInfo {
                    name: text("new"),
                    host: text("h"),
                    port: 1,
                    status: text("disconnected"),
                },
            ],
        })
    );
    let remove = || ControlRequest::RemoteRemove { name: text("new") };
    assert_eq!(
        handle_client_request(remove(), &mut s),
        ClientTask::SaveAndReply(ControlResponse::Done)
    );
    assert_eq!(s.remotes.names(), vec!["gpu", "vm"]);
    assert_eq!(s.config.remotes.names(), vec!["gpu", "vm"]);
    assert_eq!(
        handle_client_request(remove(), &mut s),
        ClientTask::Reply(ControlResponse::Error { message: text("remote 'new' not found") })
    );
}

#[test]
fn requests_to_share_are_saved() {
    let mut s = state();
    let add = ControlRequest::ShareAdd {
        name: text("docs"),
        path: text("~/docs"),
        remote: Some(text("gpu")),
    };
    assert_eq!(
        handle_client_request(add, &mut s),
        ClientTask::AddShare {
            name: text("docs"),
            path: text("~/docs"),
            remotes: vec![text("gpu")],
        }
    );
    assert_eq!(
        s.config.shares.get("docs"),
        Some(&ShareConfig { path: text("~/docs"), remotes: vec![text("gpu")] })
    );
    let add = ControlRequest::ShareAdd { name: text("all"), path: text("/"), remote: None };
    assert_eq!(
        handle_client_request(add, &mut s),
        ClientTask::AddShare { name: text("all"), path: text("/"), remotes: vec![] }
    );
    let remove = ControlRequest::ShareRemove { name: text("docs") };
    assert_eq!(
        handle_client_request(remove, &mut s),
        ClientTask::RemoveShare { name: text("docs") }
    );
    assert_eq!(s.config.shares.names(), vec!["project", "all"]);
}

#[test]
fn shares_are_listed() {
    let mut s = state();
    share(&mut s, "a", vec![text("gpu")]).unwrap();
    assert_eq!(
        handle_client_request(ControlRequest::ShareList, &mut s),
        ClientTask::Reply(ControlResponse::ShareList {
            shares: vec![ShareInfo {
                name: text("a"),
                path: text("/home/me/x"),
                remotes: vec![text("gpu")],
                status: text("serving"),
            }],
        })
    );
}

#[test]
fn other_requests_are_handed_on_or_refused() {
    let mut s = state();
    assert_eq!(
        handle_client_request(ControlRequest::Connect { remote: text("gpu") }, &mut s),
        ClientTask::Connect { remote: text("gpu") }
    );
    assert_eq!(
        handle_client_request(ControlRequest::Disconnect { remote: text("gpu") }, &mut s),
        ClientTask::Disconnect { remote: text("gpu") }
    );
    let refused = || {
        ClientTask::Reply(ControlResponse::Error {
            message: text("command not supported on client"),
        })
    };
    assert_eq!(handle_client_request(ControlRequest::MountList, &mut s), refused());
    let stats = ControlRequest::MountStats { share_name: text("a") };
    assert_eq!(handle_client_request(stats, &mut s), refused());
}

#[test]
fn outcomes_are_answered() {
    assert_eq!(outcome_reply(Ok(())), ControlResponse::Done);
    assert_eq!(
        outcome_reply(Err(LazyMountError::Tunnel(text("x")))),
        ControlResponse::Error { message: text("tunnel error: x") }
    );
    assert_eq!(save_reply(Ok(())), ControlResponse::Done);
    assert_eq!(
        save_reply(Err(LazyMountError::Io(text("x")))),
        ControlResponse::Error {
            message: text("saved in memory but failed to persist config: io error: x"),
        }
    );
}

#[test]
fn a_shutdown_stops_everything() {
    let mut s = state();
    connect(&mut s, "gpu").unwrap();
    share(&mut s, "a", vec![]).unwrap();
    assert_eq!(s.shutdown(), (vec![text("a")], vec![text("gpu")]));
    assert_eq!(s.share_manager.len(), 0);
    assert_eq!(s.tunnel_handles.len(), 0);
}

#[test]
fn a_request_to_stop_takes_out_shares_and_tunnels() {
    let mut s = state();
    connect(&mut s, "gpu").unwrap();
    connect(&mut s, "vm").unwrap();
    share(&mut s, "a", vec![]).unwrap();
    share(&mut s, "b", vec![text("gpu")]).unwrap();
    assert_eq!(
        handle_client_request(ControlRequest::Shutdown, &mut s),
        ClientTask::Stop {
            response: ControlResponse::Done,
            shares: vec![text("a"), text("b")],
            remotes: vec![text("gpu"), text("vm")],
        }
    );
    assert_eq!(s.share_manager.len(), 0);
    assert_eq!(s.tunnel_handles.len(), 0);
    assert_eq!(s.config.remotes.names(), vec!["gpu", "vm"]);
    assert_eq!(
        handle_client_request(ControlRequest::Shutdown, &mut s),
        ClientTask::Stop { response: ControlResponse::Done, shares: vec![], remotes: vec![] }
    );
}

#[test]
fn a_refused_share_asks_for_no_port() {
    let mut s = state();
    share(&mut s, "a", vec![]).unwrap();
    let ask = |s: &mut ClientState, name: &str, exists: Probe, found: Probe| {
        s.prepare_share_in(
            text(name),
            "/x",
            vec![],
            None,
            exists,
            &bin(),
            found,
            |_: u16| -> bool { unreachable!() },
        )
        .map(|_| ())
        .unwrap_err()
    };
    assert!(ask(&mut s, "a", yes, yes).message().contains("already"));
    assert!(ask(&mut s, "b", no, yes).message().contains("/x"));
    assert!(ask(&mut s, "b", yes, no).message().starts_with("dependency missing: rclone"));
}

#[test]
fn chisel_is_run_as_configured() {
    let mut config = ServerConfig::default();
    config.server.chisel_port = 19090;
    let p = ChiselTunnelProvider.server_process(&config);
    assert_eq!(p.name, "chisel-server");
    assert_eq!(p.program, "chisel");
    assert_eq!(p.kind, ProcessKind::ChiselServer);
    assert_eq!(p.args, vec!["server", "--port", "19090", "--reverse"]);
    config.server.auth = Some(text("testuser:testpass"));
    let p = ChiselTunnelProvider.server_process(&config);
    assert_eq!(
        p.args,
        vec!["server", "--port", "19090", "--reverse", "--auth", "testuser:testpass"]
    );
    let remote = Remote {
        name: text("test-server"),
        host: text("localhost"),
        port: 19091,
        auth: None,
        auto_connect: false,
        status: ConnectionStatus::default(),
    };
    let p = ChiselTunnelProvider.client_process(&remote, &vec![tunnel(19722, 19822)]);
    assert_eq!(p.name, "chisel-client-test-server");
    assert_eq!(p.args, vec!["client", "http://localhost:19091", "R:19822:localhost:19722"]);
}

#[test]
fn a_mounted_share_is_reached_through_its_tunnel() {
    let mut s = state();
    connect(&mut s, "gpu").unwrap();
    share(&mut s, "other", vec![text("vm")]).unwrap();
    for start in share(&mut s, "project", vec![text("gpu")]).unwrap() {
        s.record_tunnels(&start);
    }
    let mut m = MountManager::at(dir("/mnt"), CacheConfig::default(), dir("/cache"), 5572);
    for entry in reconcile_mounts(&m, &s.manifest).mount {
        let start = m
            .prepare_mount(&entry.name, "laptop", entry.tunneled_port, &bin(), yes, |_: u16| true)
            .unwrap();
        m.mount_share(start.info);
    }
    let mounts = m.list_mounts();
    let mount = mounts.iter().find(|x| x.share_name == "project").unwrap();
    let served = s.share_manager.get_share("project").unwrap();
    let tunnels = &s.tunnel_handles.get("gpu").unwrap().tunnels;
    assert!(tunnels.contains(&tunnel(served.sftp_port, mount.tunneled_port)));
    let mount = mounts.iter().find(|x| x.share_name == "other").unwrap();
    assert!(tunnels.iter().all(|t| t.remote_port != mount.tunneled_port));

    s.remove_share("project").unwrap();
    for start in share(&mut s, "project", vec![text("gpu")]).unwrap() {
        s.record_tunnels(&start);
    }
    let plan = reconcile_mounts(&m, &s.manifest);
    for name in plan.unmount {
        m.unmount_share(&name, "laptop").unwrap();
    }
    for entry in plan.mount {
        let start = m
            .prepare_mount(&entry.name, "laptop", entry.tunneled_port, &bin(), yes, |_: u16| true)
            .unwrap();
        m.mount_share(start.info);
    }
    let mounts = m.list_mounts();
    let mount = mounts.iter().find(|x| x.share_name == "project").unwrap();
    let served = s.share_manager.get_share("project").unwrap();
    let tunnels = &s.tunnel_handles.get("gpu").unwrap().tunnels;
    assert!(tunnels.contains(&tunnel(served.sftp_port, mount.tunneled_port)));
}
