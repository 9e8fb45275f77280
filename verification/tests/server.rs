use lazymount::config::{CacheConfig, ServerConfig};
use lazymount::mounts::MountManager;
use lazymount::protocol::{
    ControlRequest, ControlResponse, MountInfo, ShareManifest, ShareManifestEntry,
};
use lazymount::server::{
    cache_base, format_bytes, handle_server_request, prepare_server, reconcile_mounts, stats_reply,
    PollAction, PollOutcome, Poller, ServerTask, MANIFEST_URL, POLL_SECS,
};
use lazymount::types::{LazyMountError, MountStats};
use std::path::PathBuf;

fn text(s: &str) -> String {
    s.to_string()
}

fn dir(s: &str) -> PathBuf {
    PathBuf::from(s)
}

fn manifest(client: &str, shares: &[(&str, u16)]) -> ShareManifest {
    ShareManifest {
        version: 1,
        client_name: text(client),
        shares: shares
            .iter()
            .map(|(name, port)| ShareManifestEntry { name: text(name), tunneled_port: *port })
            .collect(),
    }
}

fn manager() -> MountManager {
    MountManager::at(dir("/mnt"), CacheConfig::default(), dir("/cache"), 5572)
}

fn mount(m: &mut MountManager, share: &str, client: &str, port: u16) {
    let dirs = vec![dir("/bin")];
    if let Ok(start) = m.prepare_mount(share, client, port, &dirs, |_: &PathBuf| true, |_: u16| true)
    {
        m.mount_share(start.info);
    }
}

fn carry_out(m: &mut MountManager, list: &ShareManifest) {
    let plan = reconcile_mounts(m, list);
    for name in &plan.unmount {
        let _ = m.unmount_share(name, &list.client_name);
    }
    for entry in &plan.mount {
        mount(m, &entry.name, &list.client_name, entry.tunneled_port);
    }
}

#[test]
fn manifests_are_followed() {
    let mut p = Poller::new(30);
    assert!(p.last_manifest().is_none());
    let one = || PollOutcome::Manifest(manifest("laptop", &[("a", 3222)]));
    assert_eq!(p.poll(one()), PollAction::Reconcile);
    assert_eq!(p.last_manifest(), Some(&manifest("laptop", &[("a", 3222)])));
    assert_eq!(p.poll(one()), PollAction::Wait);
    let renamed = PollOutcome::Manifest(manifest("desktop", &[("a", 3222)]));
    assert_eq!(p.poll(renamed), PollAction::Wait);
    let moved = PollOutcome::Manifest(manifest("laptop", &[("a", 3223)]));
    assert_eq!(p.poll(moved), PollAction::Reconcile);
    let more = PollOutcome::Manifest(manifest("laptop", &[("a", 3223), ("b", 3224)]));
    assert_eq!(p.poll(more), PollAction::Reconcile);
    let other = PollOutcome::Manifest(manifest("laptop", &[("a", 3223), ("c", 3224)]));
    assert_eq!(p.poll(other), PollAction::Reconcile);
    let none = PollOutcome::Manifest(manifest("laptop", &[]));
    assert_eq!(p.poll(none), PollAction::Reconcile);
}

#[test]
fn a_client_is_given_up_after_the_grace_period() {
    let mut p = Poller::new(30);
    p.poll(PollOutcome::Manifest(manifest("laptop", &[("a", 3222)])));
    for n in 1..6u32 {
        assert_eq!(p.poll(PollOutcome::Failed), PollAction::Wait);
        assert_eq!(p.consecutive_failures(), n);
    }
    assert_eq!(p.poll(PollOutcome::Failed), PollAction::UnmountAll);
    assert_eq!(p.consecutive_failures(), 0);
    assert!(p.last_manifest().is_none());
    for _ in 0..20 {
        assert_eq!(p.poll(PollOutcome::Failed), PollAction::Wait);
    }
    let again = PollOutcome::Manifest(manifest("laptop", &[("a", 3222)]));
    assert_eq!(p.poll(again), PollAction::Reconcile);
    assert_eq!(p.consecutive_failures(), 0);
}

#[test]
fn an_answer_ends_the_count_of_failures() {
    let mut p = Poller::new(10);
    p.poll(PollOutcome::Manifest(manifest("laptop", &[])));
    assert_eq!(p.poll(PollOutcome::Failed), PollAction::Wait);
    assert_eq!(p.poll(PollOutcome::Unreadable), PollAction::Wait);
    assert_eq!(p.consecutive_failures(), 0);
    assert!(p.last_manifest().is_some());
    assert_eq!(p.poll(PollOutcome::Failed), PollAction::Wait);
    assert_eq!(p.poll(PollOutcome::Failed), PollAction::UnmountAll);
}

#[test]
fn grace_periods_of_all_sizes() {
    for (grace, polls) in [(0u64, 1u32), (1, 1), (5, 1), (6, 2), (31, 7), (500, 100)] {
        let mut p = Poller::new(grace);
        p.poll(PollOutcome::Manifest(manifest("laptop", &[])));
        for _ in 1..polls {
            assert_eq!(p.poll(PollOutcome::Failed), PollAction::Wait);
        }
        assert_eq!(p.poll(PollOutcome::Failed), PollAction::UnmountAll);
    }
    for grace in [1u64 << 32, (1u64 << 32) + 5, u64::MAX] {
        let mut p = Poller::new(grace);
        p.poll(PollOutcome::Manifest(manifest("laptop", &[])));
        for _ in 0..1000 {
            assert_eq!(p.poll(PollOutcome::Failed), PollAction::Wait);
        }
    }
}

#[test]
fn polls_go_through_the_tunnel() {
    assert_eq!(MANIFEST_URL, "http://localhost:3200/");
    assert_eq!(POLL_SECS, 5);
}

#[test]
fn mounts_are_reconciled() {
    let mut m = manager();
    mount(&mut m, "a", "laptop", 3222);
    mount(&mut m, "b", "laptop", 3223);
    let list = manifest("laptop", &[("b", 3223), ("c", 3224), ("c", 3225)]);
    let plan = reconcile_mounts(&m, &list);
    assert_eq!(plan.unmount, vec!["a"]);
    assert_eq!(plan.mount, manifest("laptop", &[("c", 3224), ("c", 3225)]).shares);
    carry_out(&mut m, &list);
    assert_eq!(m.mount_keys(), vec!["laptop/b", "laptop/c"]);
    let plan = reconcile_mounts(&m, &list);
    assert!(plan.unmount.is_empty());
    assert!(plan.mount.is_empty());
    carry_out(&mut m, &manifest("laptop", &[]));
    assert!(m.mount_keys().is_empty());
}

#[test]
fn a_moved_share_is_mounted_again() {
    let mut m = manager();
    mount(&mut m, "a", "laptop", 3222);
    mount(&mut m, "b", "laptop", 3223);
    let list = manifest("laptop", &[("a", 3224), ("b", 3223)]);
    let plan = reconcile_mounts(&m, &list);
    assert_eq!(plan.unmount, vec!["a"]);
    assert_eq!(plan.mount, manifest("laptop", &[("a", 3224)]).shares);
    carry_out(&mut m, &list);
    let ports: Vec<(String, u16)> =
        m.list_mounts().into_iter().map(|x| (x.share_name, x.tunneled_port)).collect();
    assert_eq!(ports, vec![(text("b"), 3223), (text("a"), 3224)]);
    let plan = reconcile_mounts(&m, &list);
    assert!(plan.unmount.is_empty());
    assert!(plan.mount.is_empty());
}

#[test]
fn a_share_listed_twice_is_mounted_at_its_first_port() {
    let mut m = manager();
    mount(&mut m, "a", "laptop", 3222);
    let list = manifest("laptop", &[("a", 3224), ("a", 3222)]);
    let plan = reconcile_mounts(&m, &list);
    assert_eq!(plan.unmount, vec!["a"]);
    assert_eq!(plan.mount, manifest("laptop", &[("a", 3224)]).shares);
    carry_out(&mut m, &list);
    assert_eq!(m.list_mounts()[0].tunneled_port, 3224);
    assert!(reconcile_mounts(&m, &list).unmount.is_empty());
}

#[test]
fn a_share_of_two_clients_is_unmounted_once() {
    let mut m = manager();
    mount(&mut m, "a", "laptop", 3222);
    mount(&mut m, "a", "desktop", 3223);
    let plan = reconcile_mounts(&m, &manifest("laptop", &[]));
    assert_eq!(plan.unmount, vec!["a"]);
    let plan = reconcile_mounts(&m, &manifest("other", &[("a", 1)]));
    assert!(plan.unmount.is_empty());
    assert!(plan.mount.is_empty());
}

#[test]
fn sizes_are_shown() {
    assert_eq!(format_bytes(0), "0 B");
    assert_eq!(format_bytes(1023), "1023 B");
    assert_eq!(format_bytes(1024), "1.0 KB");
    assert_eq!(format_bytes(1536), "1.5 KB");
    assert_eq!(format_bytes(1048575), "1024.0 KB");
    assert_eq!(format_bytes(1048576), "1.0 MB");
    assert_eq!(format_bytes(10 * 1073741824), "10.0 GB");
    assert_eq!(format_bytes(u64::MAX), "17179869184.0 GB");
}

fn shown(bytes: u64) -> String {
    let (unit, name) = if bytes >= 1 << 30 {
        (1u64 << 30, "GB")
    } else if bytes >= 1 << 20 {
        (1u64 << 20, "MB")
    } else if bytes >= 1 << 10 {
        (1u64 << 10, "KB")
    } else {
        return format!("{bytes} B");
    };
    format!("{:.1} {name}", bytes as f64 / unit as f64)
}

#[test]
fn sizes_are_those_of_doubles() {
    for bytes in 0..200_000u64 {
        assert_eq!(format_bytes(bytes), shown(bytes));
    }
    let mut seed: u64 = 0x9e3779b97f4a7c15;
    for i in 0..200_000u32 {
        seed ^= seed << 13;
        seed ^= seed >> 7;
        seed ^= seed << 17;
        let bytes = seed >> (i % 64);
        assert_eq!(format_bytes(bytes), shown(bytes));
    }
    for shift in 9..64u32 {
        for offset in 0..64u64 {
            let near = (1u64 << shift).wrapping_add(offset).wrapping_sub(32);
            assert_eq!(format_bytes(near), shown(near));
        }
    }
    for tenth in 0..200_000u64 {
        let tie = (2 * tenth + 1) * (1 << 29) / 5;
        for offset in 0..3u64 {
            let bytes = tie * 512 + offset;
            assert_eq!(format_bytes(bytes), shown(bytes));
        }
    }
}

#[test]
fn mounts_are_listed() {
    let mut m = manager();
    mount(&mut m, "a", "laptop", 3222);
    let start = m
        .prepare_mount("b", "laptop", 3223, &vec![dir("/bin")], |_: &PathBuf| true, |_: u16| true)
        .unwrap();
    let mut info = start.info;
    info.stats = Some(MountStats { cache_size_bytes: 2048, ..MountStats::default() });
    m.mount_share(info);
    assert_eq!(
        handle_server_request(ControlRequest::MountList, &mut m),
        ServerTask::Reply(ControlResponse::MountList {
            mounts: vec![
                MountInfo {
                    client_name: text("laptop"),
                    share_name: text("a"),
                    mount_point: text("/mnt/a"),
                    cache_size: text("0 B"),
                    status: text("mounting"),
                },
                MountInfo {
                    client_name: text("laptop"),
                    share_name: text("b"),
                    mount_point: text("/mnt/b"),
                    cache_size: text("2.0 KB"),
                    status: text("mounting"),
                },
            ],
        })
    );
}

#[test]
fn figures_are_fetched_from_the_first_mount() {
    let mut m = manager();
    mount(&mut m, "x", "laptop", 3221);
    mount(&mut m, "a", "laptop", 3222);
    mount(&mut m, "a", "desktop", 3223);
    let ask = |name: &str| ControlRequest::MountStats { share_name: text(name) };
    assert_eq!(
        handle_server_request(ask("a"), &mut m),
        ServerTask::FetchStats {
            share_name: text("a"),
            vfs_url: text("http://127.0.0.1:5573/vfs/stats"),
            transfer_url: text("http://127.0.0.1:5573/core/stats"),
        }
    );
    assert_eq!(
        handle_server_request(ask("b"), &mut m),
        ServerTask::Reply(ControlResponse::Error { message: text("mount 'b' not found") })
    );
}

#[test]
fn figures_are_answered() {
    let vfs = || MountStats { cache_size_bytes: 1, cached_files: 2, ..MountStats::default() };
    let transfer = || MountStats {
        bytes_transferred: 3,
        transfer_speed_bits: 4.5f64.to_bits(),
        ..MountStats::default()
    };
    let error = |what: &str| LazyMountError::RcloneRc(text(what));
    assert_eq!(
        stats_reply(text("a"), Ok(vfs()), Ok(transfer())),
        ControlResponse::MountStats {
            share_name: text("a"),
            cache_size_bytes: 1,
            cached_files: 2,
            bytes_transferred: 3,
            transfer_speed_bits: 4.5f64.to_bits(),
        }
    );
    let failed = |what: &str| ControlResponse::Error {
        message: format!("failed to get stats: rclone RC error: {what}"),
    };
    assert_eq!(stats_reply(text("a"), Err(error("x")), Ok(transfer())), failed("x"));
    assert_eq!(
        stats_reply(text("a"), Ok(vfs()), Err(error("y"))),
        ControlResponse::MountStats {
            share_name: text("a"),
            cache_size_bytes: 1,
            cached_files: 2,
            bytes_transferred: 0,
            transfer_speed_bits: 0.0f64.to_bits(),
        }
    );
    assert_eq!(stats_reply(text("a"), Err(error("x")), Err(error("y"))), failed("x"));
}

#[test]
fn other_requests_are_answered_or_refused() {
    let mut m = manager();
    assert_eq!(
        handle_server_request(ControlRequest::Status, &mut m),
        ServerTask::Reply(ControlResponse::Status {
            role: text("server"),
            running: true,
            details: text("server daemon running"),
        })
    );
    let refused = || {
        ServerTask::Reply(ControlResponse::Error {
            message: text("command not supported on server"),
        })
    };
    assert_eq!(handle_server_request(ControlRequest::ShareList, &mut m), refused());
    assert_eq!(handle_server_request(ControlRequest::RemoteList, &mut m), refused());
    let connect = ControlRequest::Connect { remote: text("x") };
    assert_eq!(handle_server_request(connect, &mut m), refused());
}

#[test]
fn a_request_to_stop_takes_out_all_mounts() {
    let mut m = manager();
    mount(&mut m, "a", "laptop", 3222);
    mount(&mut m, "a", "desktop", 3223);
    let mounts = m.list_mounts();
    assert_eq!(mounts.len(), 2);
    assert_eq!(
        handle_server_request(ControlRequest::Shutdown, &mut m),
        ServerTask::Stop { response: ControlResponse::Done, mounts }
    );
    assert!(m.mount_keys().is_empty());
    assert_eq!(
        handle_server_request(ControlRequest::Shutdown, &mut m),
        ServerTask::Stop { response: ControlResponse::Done, mounts: vec![] }
    );
}

#[test]
fn caches_go_to_a_temporary_directory_if_need_be() {
    assert_eq!(cache_base(Ok(dir("/c"))), dir("/c"));
    assert_eq!(cache_base(Err(LazyMountError::Config(text("x")))), dir("/tmp/lazymount-cache"));
}

#[test]
fn a_server_starts_as_configured() {
    let mut config = ServerConfig::default();
    config.server.chisel_port = 19090;
    config.server.auth = Some(text("testuser:testpass"));
    config.server.mount_base_dir = text("/srv");
    config.server.offline_grace_period = 5;
    let dirs = vec![dir("/bin")];
    let mut start = prepare_server(config, dir("/cache"), &dirs, |_: &PathBuf| true).unwrap();
    assert_eq!(start.process.name, "chisel-server");
    assert_eq!(
        start.process.args,
        vec!["server", "--port", "19090", "--reverse", "--auth", "testuser:testpass"]
    );
    let mount = start
        .manager
        .prepare_mount("a", "laptop", 1, &dirs, |_: &PathBuf| true, |_: u16| true)
        .unwrap();
    assert_eq!(mount.info.mount_point, dir("/srv/a"));
    assert_eq!(mount.info.rc_port, 5572);
    assert_eq!(mount.cache_dir, dir("/cache/a"));
    start.poller.poll(PollOutcome::Manifest(manifest("laptop", &[])));
    assert_eq!(start.poller.poll(PollOutcome::Failed), PollAction::UnmountAll);
    let missing = prepare_server(ServerConfig::default(), dir("/c"), &dirs, |_: &PathBuf| false);
    assert!(missing.unwrap_err().message().starts_with("dependency missing: chisel"));
}
