use lazymount::names::NameMap;
use lazymount::text::{contains_text, decimal_text, join, pad, parse_port, quoted, same_text, trim};
use lazymount::types::{
    ConnectionStatus, LazyMountError, MountStats, MountStatus, ShareStatus, TunnelMapping,
};
use lazymount::tunnel::TunnelClientHandle;

fn text(s: &str) -> String {
    s.to_string()
}

fn handle(name: &str, port: u16) -> TunnelClientHandle {
    TunnelClientHandle {
        remote_name: text(name),
        tunnels: vec![TunnelMapping { local_port: port, remote_port: port }],
    }
}

#[test]
fn numbers_are_written_in_decimal() {
    assert_eq!(decimal_text(0), "0");
    assert_eq!(decimal_text(9), "9");
    assert_eq!(decimal_text(10), "10");
    assert_eq!(decimal_text(8090), "8090");
    assert_eq!(decimal_text(u64::MAX), "18446744073709551615");
}

#[test]
fn ports_are_read() {
    assert_eq!(parse_port("0"), Some(0));
    assert_eq!(parse_port("65535"), Some(65535));
    assert_eq!(parse_port("65536"), None);
    assert_eq!(parse_port("+80"), Some(80));
    assert_eq!(parse_port("0080"), Some(80));
    assert_eq!(parse_port(""), None);
    assert_eq!(parse_port("+"), None);
    assert_eq!(parse_port("-1"), None);
    assert_eq!(parse_port(" 80"), None);
    assert_eq!(parse_port("８０"), None);
    assert_eq!(parse_port("99999999999999999999"), None);
    for s in ["0", "65535", "65536", "+80", "", "+", "-1", " 80", "1a", "++1", "000000000080"] {
        assert_eq!(parse_port(s), s.parse::<u16>().ok());
    }
}

#[test]
fn a_port_in_decimal_is_read_back() {
    for port in [0u16, 1, 80, 3200, 65535] {
        assert_eq!(parse_port(&decimal_text(port as u64)), Some(port));
    }
}

#[test]
fn texts_are_trimmed() {
    for s in ["", " ", "a", " a ", "\t a b\r\n", "\u{2003}a\u{3000}", "\u{200b}a", "\u{85}x\u{a0}"] {
        assert_eq!(trim(s), s.trim());
    }
}

#[test]
fn texts_are_padded_joined_and_compared() {
    assert_eq!(pad("ab", 4), "ab  ");
    assert_eq!(pad("abcd", 4), "abcd");
    assert_eq!(pad("abcde", 4), "abcde");
    assert_eq!(pad("é", 3), format!("{:<3}", "é"));
    assert_eq!(join(&vec![], ", "), "");
    assert_eq!(join(&vec![text("a")], ", "), "a");
    assert_eq!(join(&vec![text("a"), text("b"), text("c")], ", "), "a, b, c");
    assert!(contains_text(&vec![text("a"), text("b")], "b"));
    assert!(!contains_text(&vec![text("a")], "b"));
    assert!(same_text("x", "x"));
    assert!(!same_text("x", "y"));
    assert_eq!(quoted("<", "x", ">"), "<x>");
}

#[test]
fn maps_keep_their_order() {
    let mut m: NameMap<TunnelClientHandle> = NameMap::new();
    m.insert(text("a"), handle("a", 1));
    m.insert(text("b"), handle("b", 2));
    m.insert(text("c"), handle("c", 3));
    m.insert(text("a"), handle("a", 4));
    assert_eq!(m.names(), vec!["a", "b", "c"]);
    assert_eq!(m.len(), 3);
    assert_eq!(m.get("a"), Some(&handle("a", 4)));
    assert_eq!(m.get("d"), None);
    assert_eq!(m.name_at(1), "b");
    assert_eq!(m.value_at(2), &handle("c", 3));
    assert_eq!(m.remove("b"), Some(handle("b", 2)));
    assert_eq!(m.remove("b"), None);
    assert!(!m.contains("b"));
    assert_eq!(m.names(), vec!["a", "c"]);
}

#[test]
fn a_new_name_that_is_removed_leaves_the_map_as_it_was() {
    let mut m: NameMap<TunnelClientHandle> = NameMap::new();
    m.insert(text("a"), handle("a", 1));
    m.insert(text("b"), handle("b", 2));
    m.remove("b");
    assert_eq!(m.names(), vec!["a"]);
    assert_eq!(m.get("a"), Some(&handle("a", 1)));
}

#[test]
fn errors_are_worded() {
    let words = [
        (LazyMountError::Config(text("x")), "configuration error: x"),
        (LazyMountError::Io(text("x")), "io error: x"),
        (LazyMountError::Process(text("x")), "process error: x"),
        (LazyMountError::Tunnel(text("x")), "tunnel error: x"),
        (LazyMountError::Mount(text("x")), "mount error: x"),
        (LazyMountError::RcloneRc(text("x")), "rclone RC error: x"),
        (LazyMountError::Control(text("x")), "control socket error: x"),
        (LazyMountError::PortConflict { port: 22 }, "port conflict: port 22 is already in use"),
        (
            LazyMountError::DependencyMissing { binary: text("b"), install_hint: text("h") },
            "dependency missing: b — h",
        ),
        (LazyMountError::Other(text("x")), "x"),
    ];
    for (e, t) in words {
        assert_eq!(e.message(), t);
    }
}

#[test]
fn statuses_are_worded() {
    let now = std::time::Instant::now();
    assert_eq!(ConnectionStatus::default().label(), "disconnected");
    assert_eq!(ConnectionStatus::Connecting.label(), "connecting");
    assert_eq!(ConnectionStatus::Connected.clone().label(), "connected");
    let again = ConnectionStatus::Reconnecting { since: now, attempts: 3 };
    assert_eq!(again.clone().label(), "reconnecting (attempt 3)");
    assert_eq!(ConnectionStatus::Error(text("x")).label(), "error: x");
    assert_eq!(ShareStatus::default().label(), "stopped");
    assert_eq!(ShareStatus::Starting.label(), "starting");
    assert_eq!(ShareStatus::Serving.label(), "serving");
    assert_eq!(ShareStatus::Error(text("x")).label(), "error: x");
    assert_eq!(MountStatus::default().label(), "discovered");
    assert_eq!(MountStatus::Mounting.label(), "mounting");
    assert_eq!(MountStatus::Mounted.label(), "mounted");
    assert_eq!(MountStatus::Unmounting.label(), "unmounting");
    assert_eq!(MountStatus::Stale { since: now }.label(), "stale");
    assert_eq!(MountStatus::Error(text("x")).label(), "error: x");
    assert_eq!(MountStats::default().transfer_speed_bits, 0.0f64.to_bits());
}
