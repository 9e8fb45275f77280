use lazymount::config::CacheConfig;
use lazymount::mounts::{mount_process, system_unmount, MountManager};
use lazymount::types::{LazyMountError, MountStatus, ProcessKind};
use std::path::PathBuf;

fn text(s: &str) -> String {
    s.to_string()
}

fn dir(s: &str) -> PathBuf {
    PathBuf::from(s)
}

fn bin() -> Vec<PathBuf> {
    vec![dir("/bin")]
}

fn yes(_: &PathBuf) -> bool {
    true
}

fn manager() -> MountManager {
    MountManager::at(dir("/mnt"), CacheConfig::default(), dir("/cache"), 5572)
}

fn mount(m: &mut MountManager, share: &str, client: &str) -> Result<u16, LazyMountError> {
    let start = m.prepare_mount(share, client, 3222, &bin(), yes, |_: u16| true)?;
    let port = start.info.rc_port;
    m.mount_share(start.info);
    Ok(port)
}

#[test]
fn a_mount_is_prepared_and_made() {
    let mut m = manager();
    let start = m
        .prepare_mount("project", "laptop", 3222, &bin(), yes, |p: u16| p >= 5575)
        .unwrap();
    assert_eq!(start.info.share_name, "project");
    assert_eq!(start.info.client_name, "laptop");
    assert_eq!(start.info.tunneled_port, 3222);
    assert_eq!(start.info.mount_point, dir("/mnt/project"));
    assert_eq!(start.info.rc_port, 5575);
    assert_eq!(start.info.status.label(), "mounting");
    assert_eq!(start.info.stats, None);
    assert_eq!(start.cache_dir, dir("/cache/project"));
    let p = mount_process(
        "project", 3222, "/mnt/project", &CacheConfig::default(), "/cache/project", 5575,
    );
    assert_eq!(start.process, p);
    assert!(m.list_mounts().is_empty());
    m.mount_share(start.info);
    assert_eq!(m.list_mounts().len(), 1);
    assert_eq!(m.mount_keys(), vec!["laptop/project"]);
    assert_eq!(m.rc_port("laptop/project"), Some(5575));
    assert_eq!(m.rc_port("laptop/other"), None);
    assert_eq!(m.stats_port("project", "laptop"), Ok(5575));
    assert_eq!(
        m.stats_port("other", "laptop").unwrap_err().message(),
        "mount error: mount 'laptop/other' not found"
    );
    assert_eq!(mount(&mut m, "other", "laptop"), Ok(5576));
}

#[test]
fn the_mount_process_is_as_configured() {
    let cache = CacheConfig {
        vfs_cache_mode: text("m"),
        vfs_cache_max_age: text("a"),
        vfs_cache_max_size: text("s"),
        vfs_read_ahead: text("r"),
    };
    let p = mount_process("project", 3222, "/mnt/project", &cache, "/cache/project", 5572);
    assert_eq!(p.name, "rclone-mount-project");
    assert_eq!(p.kind, ProcessKind::RcloneMount);
    assert_eq!(p.program, "rclone");
    assert_eq!(
        p.args,
        vec![
            "mount",
            ":sftp,host=localhost,port=3222,no_check=true:",
            "/mnt/project",
            "--vfs-cache-mode",
            "m",
            "--vfs-cache-max-age",
            "a",
            "--vfs-cache-max-size",
            "s",
            "--vfs-read-ahead",
            "r",
            "--cache-dir",
            "/cache/project",
            "--dir-cache-time",
            "30s",
            "--poll-interval",
            "15s",
            "--rc",
            "--rc-addr",
            "127.0.0.1:5572",
            "--rc-no-auth",
        ]
    );
    assert!(p.restart_on_crash);
    assert_eq!(p.max_restart_delay_secs, 60);
}

#[test]
fn a_mount_is_made_once() {
    let mut m = manager();
    mount(&mut m, "project", "laptop").unwrap();
    assert_eq!(
        mount(&mut m, "project", "laptop").unwrap_err(),
        LazyMountError::Mount(text("share 'laptop/project' is already mounted"))
    );
    assert_eq!(mount(&mut m, "project", "desktop"), Ok(5573));
    let r = m.prepare_mount("x", "laptop", 1, &bin(), |_: &PathBuf| false, |_: u16| true);
    assert!(r.unwrap_err().message().starts_with("dependency missing: rclone"));
    let r = m.prepare_mount("x", "laptop", 1, &bin(), yes, |_: u16| false);
    assert_eq!(r.unwrap_err(), LazyMountError::PortConflict { port: 5574 });
    assert_eq!(m.list_mounts().len(), 2);
}

#[test]
fn a_refused_mount_asks_for_no_port() {
    let mut m = manager();
    mount(&mut m, "a", "laptop").unwrap();
    let again =
        m.prepare_mount("a", "laptop", 3222, &bin(), yes, |_: u16| -> bool { unreachable!() });
    assert!(again.unwrap_err().message().contains("already mounted"));
    let missing = m.prepare_mount(
        "b",
        "laptop",
        3222,
        &bin(),
        |_: &PathBuf| false,
        |_: u16| -> bool { unreachable!() },
    );
    assert!(missing.unwrap_err().message().starts_with("dependency missing: rclone"));
}

#[test]
fn mounting_and_unmounting_restores_the_mounts() {
    let mut m = manager();
    mount(&mut m, "a", "laptop").unwrap();
    mount(&mut m, "b", "laptop").unwrap();
    let info = m.unmount_share("b", "laptop").unwrap();
    assert_eq!(info.mount_point, dir("/mnt/b"));
    assert_eq!(m.mount_keys(), vec!["laptop/a"]);
    assert_eq!(
        m.unmount_share("b", "laptop").unwrap_err(),
        LazyMountError::Mount(text("mount 'laptop/b' not found"))
    );
}

#[test]
fn health_is_recorded() {
    let mut m = manager();
    mount(&mut m, "a", "laptop").unwrap();
    let now = std::time::Instant::now();
    m.record_health("laptop/a", true, now);
    assert_eq!(m.list_mounts()[0].status.label(), "mounted");
    m.record_health("laptop/a", false, now);
    assert!(matches!(m.list_mounts()[0].status, MountStatus::Stale { since } if since == now));
    m.record_health("laptop/none", true, now);
    assert_eq!(m.mount_keys(), vec!["laptop/a"]);
}

#[test]
fn a_shutdown_takes_every_mount_out() {
    let mut m = manager();
    mount(&mut m, "a", "laptop").unwrap();
    mount(&mut m, "b", "laptop").unwrap();
    let points: Vec<PathBuf> = m.shutdown().into_iter().map(|i| i.mount_point).collect();
    assert_eq!(points, vec![dir("/mnt/a"), dir("/mnt/b")]);
    assert!(m.list_mounts().is_empty());
    assert_eq!(mount(&mut m, "a", "laptop"), Ok(5574));
}

#[test]
fn the_base_directory_is_expanded() {
    let mut m = MountManager::new("~/LazyMount", CacheConfig::default(), dir("/cache"), 5572);
    let start = m.prepare_mount("project", "laptop", 1, &bin(), yes, |_: u16| true).unwrap();
    assert!(start.info.mount_point.ends_with("LazyMount/project"));
    assert!(!start.info.mount_point.starts_with("~"));
}

#[test]
fn the_system_unmounts() {
    let (program, args) = system_unmount(true, "/mnt/a");
    assert_eq!(program, "fusermount");
    assert_eq!(args, vec!["-u", "/mnt/a"]);
    let (program, args) = system_unmount(false, "/mnt/a");
    assert_eq!(program, "umount");
    assert_eq!(args, vec!["/mnt/a"]);
}

#[test]
fn a_base_directory_that_is_no_text_is_kept() {
    let odd = reqwest::Url::parse("file:///m/%FF").unwrap().to_file_path().unwrap();
    assert!(odd.to_str().is_none());
    let mut m = MountManager::at(odd.clone(), CacheConfig::default(), odd.clone(), 5572);
    let start = m.prepare_mount("a", "laptop", 3222, &bin(), yes, |_: u16| true).unwrap();
    assert_eq!(start.info.mount_point, odd.join("a"));
    assert_eq!(start.cache_dir, odd.join("a"));
    assert_eq!(start.process.args[2], "/m/\u{fffd}/a");
    assert_eq!(start.process.args[12], "/m/\u{fffd}/a");
}
