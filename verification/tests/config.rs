use lazymount::config::{
    cache_dir, check_binary, check_dependencies, client_config_path, config_dir, data_dir,
    expand_tilde, expand_tilde_in, file_in, found_binary, found_dir, load_client_config,
    load_server_config, save_config, server_config_path, which, CacheConfig, ClientConfig,
    DaemonConfig, Reading, RemoteConfig, ServerConfig, ServerDaemonConfig, ShareConfig, Writing,
};
use lazymount::types::LazyMountError;
use std::path::PathBuf;

fn text(s: &str) -> String {
    s.to_string()
}

fn dir(s: &str) -> PathBuf {
    PathBuf::from(s)
}

/// The text of a path, all of which has to be Unicode.
fn shown(path: PathBuf) -> String {
    path.into_os_string().into_string().unwrap()
}

/// A directory whose path is no Unicode text.
fn odd_dir() -> PathBuf {
    let path = reqwest::Url::parse("file:///d/%FF").unwrap().to_file_path().unwrap();
    assert!(path.to_str().is_none());
    path
}

#[test]
fn test_expand_tilde() {
    let expanded = expand_tilde("~/foo/bar");
    assert!(expanded.to_string_lossy().ends_with("foo/bar"));
    assert!(!expanded.to_string_lossy().starts_with("~"));
}

#[test]
fn tilde_stands_for_the_given_home() {
    let home = || Some(dir("/home/me"));
    assert_eq!(shown(expand_tilde_in("~/code", home())), "/home/me/code");
    assert_eq!(shown(expand_tilde_in("~", home())), "/home/me");
    assert_eq!(shown(expand_tilde_in("~/", home())), "/home/me/");
    assert_eq!(shown(expand_tilde_in("~//etc", home())), "/home/me/etc");
    assert_eq!(shown(expand_tilde_in("~///etc//x", home())), "/home/me/etc//x");
    assert_eq!(shown(expand_tilde_in("~//", home())), "/home/me/");
    assert_eq!(shown(expand_tilde_in("~other/code", home())), "~other/code");
    assert_eq!(shown(expand_tilde_in("/a/~/b", home())), "/a/~/b");
    assert_eq!(shown(expand_tilde_in("", home())), "");
    assert_eq!(shown(expand_tilde_in("~/code", None)), "~/code");
    assert_eq!(shown(expand_tilde_in("~", None)), "~");
}

#[test]
fn expanding_twice_changes_nothing() {
    let once = shown(expand_tilde_in("~/a/~", Some(dir("/h"))));
    assert_eq!(once, "/h/a/~");
    assert_eq!(shown(expand_tilde_in(&once, Some(dir("/h")))), once);
}

#[test]
fn files_are_below_their_directory() {
    let below = |base: &str, rest: &str| shown(file_in(Ok(dir(base)), rest).unwrap());
    assert_eq!(below("/a", "b"), "/a/b");
    assert_eq!(below("/a/", "b"), "/a/b");
    assert_eq!(below("", "b"), "b");
    assert_eq!(below("/a", "/b"), "/b");
    assert_eq!(below("/a", ""), "/a/");
}

#[test]
fn paths_that_are_no_text_are_kept() {
    let file = file_in(Ok(odd_dir()), "x").unwrap();
    assert_eq!(file, odd_dir().join("x"));
    assert!(file.to_str().is_none());
    assert_eq!(expand_tilde_in("~", Some(odd_dir())), odd_dir());
    assert_eq!(expand_tilde_in("~/a/b", Some(odd_dir())), odd_dir().join("a/b"));
    assert_eq!(found_dir("data", Some(odd_dir())), Ok(odd_dir()));
    let there = |p: &PathBuf| p == &odd_dir().join("rclone");
    assert_eq!(which("rclone", &vec![odd_dir()], there), Some(odd_dir().join("rclone")));
    let reading = Reading::Unreadable { reason: text("x") };
    assert_eq!(
        load_client_config(&odd_dir(), reading).unwrap_err(),
        LazyMountError::Config(text("failed to read /d/\u{fffd}: x"))
    );
}

#[test]
fn directories_are_found() {
    assert!(config_dir().unwrap().ends_with("lazymount"));
    assert!(data_dir().unwrap().ends_with("lazymount"));
    assert!(cache_dir().unwrap().ends_with("lazymount"));
    assert_ne!(config_dir().unwrap(), data_dir().unwrap());
    assert_ne!(data_dir().unwrap(), cache_dir().unwrap());
    assert_eq!(
        shown(client_config_path().unwrap()),
        shown(config_dir().unwrap()) + "/config.toml"
    );
    assert_eq!(
        shown(server_config_path().unwrap()),
        shown(config_dir().unwrap()) + "/server.toml"
    );
}

#[test]
fn a_directory_may_be_missing() {
    assert_eq!(found_dir("config", Some(dir("/c"))), Ok(dir("/c")));
    let e = found_dir("cache", None).unwrap_err();
    assert_eq!(e, LazyMountError::Config(text("cannot determine cache directory")));
    assert_eq!(e.message(), "configuration error: cannot determine cache directory");
    let missing = found_dir("data", None);
    assert_eq!(
        file_in(missing, "x").unwrap_err(),
        LazyMountError::Config(text("cannot determine data directory"))
    );
    assert_eq!(file_in(Ok(dir("/d")), "x"), Ok(dir("/d/x")));
}

#[test]
fn defaults_are_as_documented() {
    let client = ClientConfig::default();
    assert_eq!(
        client.daemon,
        DaemonConfig {
            sftp_port_range_start: 2222,
            tunnel_port_range_start: 3222,
            control_port: 3200,
        }
    );
    assert_eq!(client.remotes.len(), 0);
    assert_eq!(client.shares.len(), 0);
    let cache = CacheConfig {
        vfs_cache_mode: text("full"),
        vfs_cache_max_age: text("1h"),
        vfs_cache_max_size: text("10G"),
        vfs_read_ahead: text("128M"),
    };
    assert_eq!(client.cache, cache);
    let server = ServerConfig::default();
    assert_eq!(
        server.server,
        ServerDaemonConfig {
            chisel_port: 8090,
            auth: None,
            mount_base_dir: text("~/LazyMount"),
            rc_port_range_start: 5572,
            offline_grace_period: 30,
        }
    );
    assert_eq!(server.cache, cache);
}

#[test]
fn remotes_and_shares_are_configured() {
    let mut config = ClientConfig::default();
    config.remotes.insert(
        text("gpu-box"),
        RemoteConfig {
            host: text("gpu.example.com"),
            port: 8090,
            auth: Some(text("user:pass")),
            auto_connect: true,
        },
    );
    config.shares.insert(
        text("project"),
        ShareConfig { path: text("/home/me/code"), remotes: vec![text("gpu-box")] },
    );
    assert!(config.remotes.contains("gpu-box"));
    let remote = config.remotes.get("gpu-box").unwrap();
    assert_eq!(remote.host, "gpu.example.com");
    assert_eq!(remote.auth.as_deref(), Some("user:pass"));
    assert_eq!(remote.clone(), *remote);
    let share = config.shares.get("project").unwrap();
    assert_eq!(share.remotes, vec!["gpu-box"]);
    assert_eq!(share.clone(), *share);
}

#[test]
fn options_override_the_configuration() {
    let mut config = ServerConfig::default();
    config.server.auth = Some(text("old:pass"));
    config.apply_options(9000, None);
    assert_eq!(config.server.chisel_port, 9000);
    assert_eq!(config.server.auth.as_deref(), Some("old:pass"));
    config.apply_options(9001, Some(text("new:pass")));
    assert_eq!(config.server.chisel_port, 9001);
    assert_eq!(config.server.auth.as_deref(), Some("new:pass"));
}

#[test]
fn configuration_files_are_loaded() {
    let absent = load_client_config(&dir("/c/config.toml"), Reading::Absent).unwrap();
    assert_eq!(absent.daemon.control_port, 3200);
    let mut held = ClientConfig::default();
    held.daemon.control_port = 1;
    let parsed = load_client_config(&dir("/c/config.toml"), Reading::Parsed(held)).unwrap();
    assert_eq!(parsed.daemon.control_port, 1);
    let unreadable = Reading::Unreadable { reason: text("denied") };
    assert_eq!(
        load_client_config(&dir("/c/config.toml"), unreadable).unwrap_err(),
        LazyMountError::Config(text("failed to read /c/config.toml: denied"))
    );
    let unparsable = Reading::Unparsable { reason: text("bad") };
    assert_eq!(
        load_client_config(&dir("/c/config.toml"), unparsable).unwrap_err(),
        LazyMountError::Config(text("failed to parse /c/config.toml: bad"))
    );
    assert_eq!(
        load_server_config(&dir("/s"), Reading::Absent).unwrap().server.offline_grace_period,
        30
    );
    let unparsable = Reading::Unparsable { reason: text("bad") };
    assert_eq!(
        load_server_config(&dir("/s"), unparsable).unwrap_err(),
        LazyMountError::Config(text("failed to parse /s: bad"))
    );
    let unreadable = Reading::Unreadable { reason: text("denied") };
    assert_eq!(
        load_server_config(&dir("/s"), unreadable).unwrap_err(),
        LazyMountError::Config(text("failed to read /s: denied"))
    );
    let mut held = ServerConfig::default();
    held.server.chisel_port = 1;
    let parsed = load_server_config(&dir("/s"), Reading::Parsed(held)).unwrap();
    assert_eq!(parsed.server.chisel_port, 1);
}

#[test]
fn configuration_files_are_saved() {
    assert_eq!(save_config(&dir("/c"), Writing::Written), Ok(()));
    assert_eq!(
        save_config(&dir("/c"), Writing::NoDirectory { reason: text("denied") }),
        Err(LazyMountError::Io(text("denied")))
    );
    assert_eq!(
        save_config(&dir("/c"), Writing::Unserializable { reason: text("odd") }),
        Err(LazyMountError::Config(text("failed to serialize config: odd")))
    );
    assert_eq!(
        save_config(&dir("/c"), Writing::Unwritable { reason: text("full") }),
        Err(LazyMountError::Config(text("failed to write /c: full")))
    );
}

#[test]
fn programs_are_found_in_the_first_directory_that_has_them() {
    let dirs = vec![dir("/bin"), dir("/usr/bin"), dir("/opt/bin")];
    let there = |p: &PathBuf| p == &dir("/usr/bin/rclone") || p == &dir("/opt/bin/rclone");
    assert_eq!(which("rclone", &dirs, there), Some(dir("/usr/bin/rclone")));
    assert_eq!(check_binary("rclone", &dirs, there), Ok(dir("/usr/bin/rclone")));
    assert_eq!(which("chisel", &dirs, there), None);
    assert_eq!(which("rclone", &vec![], there), None);
}

#[test]
fn missing_programs_come_with_a_hint() {
    let nowhere = |_: &PathBuf| false;
    let dirs = vec![dir("/bin")];
    let e = check_binary("chisel", &dirs, nowhere).unwrap_err();
    assert_eq!(
        e,
        LazyMountError::DependencyMissing {
            binary: text("chisel"),
            install_hint: text("Install from https://github.com/jpillora/chisel/releases"),
        }
    );
    assert_eq!(
        e.message(),
        "dependency missing: chisel — Install from https://github.com/jpillora/chisel/releases"
    );
    assert_eq!(
        check_binary("rclone", &dirs, nowhere).unwrap_err().message(),
        "dependency missing: rclone — Install from https://rclone.org/install/"
    );
    assert_eq!(
        found_binary("tar", None).unwrap_err().message(),
        "dependency missing: tar — Install tar and ensure it is on your PATH"
    );
    assert_eq!(found_binary("tar", Some(dir("/bin/tar"))), Ok(dir("/bin/tar")));
}

#[test]
fn a_daemon_needs_chisel_and_rclone() {
    let dirs = vec![dir("/bin")];
    assert_eq!(check_dependencies(&dirs, |_: &PathBuf| true), Ok(()));
    let e = check_dependencies(&dirs, |_: &PathBuf| false).unwrap_err();
    assert!(e.message().starts_with("dependency missing: chisel"));
    let e = check_dependencies(&dirs, |p: &PathBuf| p == &dir("/bin/chisel")).unwrap_err();
    assert!(e.message().starts_with("dependency missing: rclone"));
}

#[test]
fn copies_hold_the_same() {
    let mut config = ClientConfig::default();
    config.daemon.control_port = 1;
    config.cache.vfs_read_ahead = text("1M");
    config.remotes.insert(
        text("gpu"),
        RemoteConfig { host: text("h"), port: 2, auth: Some(text("u:p")), auto_connect: true },
    );
    config.remotes.insert(
        text("vm"),
        RemoteConfig { host: text("i"), port: 3, auth: None, auto_connect: false },
    );
    config.shares.insert(text("a"), ShareConfig { path: text("/a"), remotes: vec![text("vm")] });
    let copy = config.clone();
    assert_eq!(copy.daemon.control_port, 1);
    assert_eq!(copy.cache.vfs_read_ahead, "1M");
    assert_eq!(copy.remotes.names(), vec!["gpu", "vm"]);
    assert_eq!(copy.remotes.get("gpu"), config.remotes.get("gpu"));
    assert_eq!(copy.remotes.get("vm"), config.remotes.get("vm"));
    assert_eq!(copy.shares.names(), vec!["a"]);
    assert_eq!(copy.shares.get("a"), config.shares.get("a"));

    let mut server = ServerConfig::default();
    server.apply_options(4, Some(text("u:p")));
    server.server.mount_base_dir = text("/srv");
    server.server.offline_grace_period = 7;
    server.cache.vfs_cache_mode = text("off");
    let copy = server.clone();
    assert_eq!(copy.server.chisel_port, 4);
    assert_eq!(copy.server.auth, Some(text("u:p")));
    assert_eq!(copy.server.mount_base_dir, "/srv");
    assert_eq!(copy.server.offline_grace_period, 7);
    assert_eq!(copy.cache.vfs_cache_mode, "off");
}
