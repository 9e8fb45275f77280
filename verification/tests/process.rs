use lazymount::process::{
    find_available_port, keep_alive, restart_delay, spawn_error, Monitor, MonitorAction,
    MonitorInput, MonitorPhase, ProcessConfig, ProcessEvent,
};
use lazymount::types::{LazyMountError, ProcessKind};

fn text(s: &str) -> String {
    s.to_string()
}

fn echo(restart_on_crash: bool) -> ProcessConfig {
    ProcessConfig {
        name: text("echo-test"),
        kind: ProcessKind::RcloneServe,
        program: text("echo"),
        args: vec![text("hello")],
        restart_on_crash,
        max_restart_delay_secs: 60,
        env_remove: vec![],
    }
}

#[test]
fn test_find_available_port_returns_valid_port() {
    let port = find_available_port(49152, |_: u16| true).unwrap();
    assert!(port >= 49152);
    assert!(port <= 49252);
}

#[test]
fn test_process_config_construction() {
    let config = ProcessConfig {
        name: "test-proc".to_string(),
        kind: ProcessKind::RcloneServe,
        program: "echo".to_string(),
        args: vec!["hello".to_string()],
        restart_on_crash: true,
        max_restart_delay_secs: 60,
        env_remove: vec![],
    };

    assert_eq!(config.name, "test-proc");
    assert_eq!(config.program, "echo");
    assert_eq!(config.args, vec!["hello"]);
    assert!(config.restart_on_crash);
    assert_eq!(config.max_restart_delay_secs, 60);
    assert_eq!(config.clone(), config);
}

#[test]
fn occupied_ports_are_skipped() {
    assert_eq!(find_available_port(2222, |p: u16| p >= 2225), Ok(2225));
    assert_eq!(find_available_port(2222, |p: u16| p == 2322), Ok(2322));
    assert_eq!(
        find_available_port(2222, |p: u16| p == 2323),
        Err(LazyMountError::PortConflict { port: 2222 })
    );
    assert_eq!(find_available_port(65535, |_: u16| true), Ok(65535));
    let e = find_available_port(65500, |_: u16| false).unwrap_err();
    assert_eq!(e.message(), "port conflict: port 65500 is already in use");
}

#[test]
fn delays_double_up_to_the_cap() {
    let delays: Vec<u64> = (1u32..8).map(|n| restart_delay(n, 60)).collect();
    assert_eq!(delays, vec![2, 4, 8, 16, 32, 60, 60]);
    assert_eq!(restart_delay(0, 60), 1);
    assert_eq!(restart_delay(63, u64::MAX), 1u64 << 63);
    assert_eq!(restart_delay(64, u64::MAX), u64::MAX);
    assert_eq!(restart_delay(u32::MAX, 60), 60);
    assert_eq!(restart_delay(1, 0), 0);
}

#[test]
fn kept_alive_processes_restart() {
    let p = keep_alive(text("n"), ProcessKind::ChiselServer, "chisel", vec![text("server")]);
    assert_eq!(p.name, "n");
    assert_eq!(p.kind, ProcessKind::ChiselServer);
    assert_eq!(p.program, "chisel");
    assert_eq!(p.args, vec!["server"]);
    assert!(p.restart_on_crash);
    assert_eq!(p.max_restart_delay_secs, 60);
    assert!(p.env_remove.is_empty());
}

#[test]
fn spawn_errors_name_the_process() {
    let e = spawn_error(&echo(false), "no such file");
    assert_eq!(e.message(), "process error: failed to spawn echo-test (echo): no such file");
}

#[test]
fn crashes_are_answered_with_a_restart() {
    let (mut m, started) = Monitor::start(echo(true), Some(7));
    assert_eq!(
        started,
        ProcessEvent::Started { name: text("echo-test"), kind: ProcessKind::RcloneServe, pid: Some(7) }
    );
    assert_eq!(m.phase(), MonitorPhase::Watching);
    let step = m.step(MonitorInput::Exited { exit_code: Some(1) });
    assert_eq!(
        step.events,
        vec![
            ProcessEvent::Exited {
                name: text("echo-test"),
                kind: ProcessKind::RcloneServe,
                exit_code: Some(1),
            },
            ProcessEvent::Restarting {
                name: text("echo-test"),
                kind: ProcessKind::RcloneServe,
                attempt: 1,
                delay_secs: 2,
            },
        ]
    );
    assert_eq!(step.action, MonitorAction::Delay { secs: 2 });
    assert_eq!(m.phase(), MonitorPhase::Delaying);
    let step = m.step(MonitorInput::DelayElapsed);
    assert!(step.events.is_empty());
    assert_eq!(step.action, MonitorAction::Spawn);
    let step = m.step(MonitorInput::Spawned { pid: Some(8) });
    assert_eq!(
        step.events,
        vec![ProcessEvent::Started {
            name: text("echo-test"),
            kind: ProcessKind::RcloneServe,
            pid: Some(8),
        }]
    );
    assert_eq!(m.phase(), MonitorPhase::Watching);
    assert_eq!(m.restart_count(), 1);
    let step = m.step(MonitorInput::Exited { exit_code: None });
    assert_eq!(step.action, MonitorAction::Delay { secs: 4 });
    assert_eq!(m.restart_count(), 2);
}

#[test]
fn a_process_that_is_not_kept_alive_just_ends() {
    let (mut m, _) = Monitor::start(echo(false), None);
    let step = m.step(MonitorInput::Exited { exit_code: Some(0) });
    assert_eq!(
        step.events,
        vec![ProcessEvent::Exited {
            name: text("echo-test"),
            kind: ProcessKind::RcloneServe,
            exit_code: Some(0),
        }]
    );
    assert_eq!(step.action, MonitorAction::Stop);
    assert_eq!(m.phase(), MonitorPhase::Stopped);
}

#[test]
fn a_failed_restart_ends_the_monitor() {
    let (mut m, _) = Monitor::start(echo(true), None);
    m.step(MonitorInput::Exited { exit_code: None });
    m.step(MonitorInput::DelayElapsed);
    let step = m.step(MonitorInput::SpawnFailed { error: text("gone") });
    assert_eq!(
        step.events,
        vec![ProcessEvent::RestartFailed {
            name: text("echo-test"),
            kind: ProcessKind::RcloneServe,
            error: text("gone"),
        }]
    );
    assert_eq!(step.action, MonitorAction::Stop);
    assert_eq!(m.phase(), MonitorPhase::Stopped);
}

#[test]
fn a_shutdown_kills_or_stops() {
    let (mut m, _) = Monitor::start(echo(true), None);
    let step = m.step(MonitorInput::ShutdownRequested);
    assert!(step.events.is_empty());
    assert_eq!(step.action, MonitorAction::Kill);
    assert_eq!(m.phase(), MonitorPhase::Stopped);
    let (mut m, _) = Monitor::start(echo(true), None);
    m.step(MonitorInput::Exited { exit_code: None });
    let step = m.step(MonitorInput::ShutdownRequested);
    assert!(step.events.is_empty());
    assert_eq!(step.action, MonitorAction::Stop);
    assert_eq!(m.phase(), MonitorPhase::Stopped);
}
