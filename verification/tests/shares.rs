use lazymount::shares::{serve_process, ShareManager};
use lazymount::types::{LazyMountError, ProcessKind, Share, ShareStatus};
use std::path::PathBuf;

fn text(s: &str) -> String {
    s.to_string()
}

fn dir(s: &str) -> PathBuf {
    PathBuf::from(s)
}

fn bin() -> Vec<PathBuf> {
    vec![dir("/bin")]
}

fn yes(_: &PathBuf) -> bool {
    true
}

fn no(_: &PathBuf) -> bool {
    false
}

fn add(m: &mut ShareManager, name: &str, path: &str) -> Result<Share, LazyMountError> {
    let start = m.prepare_share(text(name), dir(path), vec![], yes, &bin(), yes, |_: u16| true)?;
    let share = start.share.clone();
    m.add_share(start.share);
    Ok(share)
}

#[test]
fn test_rclone_serve_multiple_shares() {
    let mut share_manager = ShareManager::new(19322);
    let share1 = add(&mut share_manager, "share1", "/tmp/one").unwrap();
    let share2 = add(&mut share_manager, "share2", "/tmp/two").unwrap();
    assert_ne!(share1.sftp_port, share2.sftp_port);
    assert_eq!(share_manager.list_shares().len(), 2);
    assert_eq!(share_manager.shutdown(), vec!["share1", "share2"]);
    assert!(share_manager.list_shares().is_empty());
}

#[test]
fn test_rclone_serve_duplicate_share_name_fails() {
    let mut share_manager = ShareManager::new(19422);
    add(&mut share_manager, "dup", "/tmp/dir").unwrap();
    let result = add(&mut share_manager, "dup", "/tmp/dir");
    assert!(result.is_err());
    assert!(result.unwrap_err().message().contains("already exists"));
    share_manager.shutdown();
}

#[test]
fn test_rclone_serve_nonexistent_path_fails() {
    let mut share_manager = ShareManager::new(19522);
    let result = share_manager.prepare_share(
        text("bad"),
        dir("/nonexistent/path/xyz123"),
        vec![],
        no,
        &bin(),
        yes,
        |_: u16| true,
    );
    assert!(result.is_err());
    assert!(result.unwrap_err().message().contains("does not exist"));
}

#[test]
fn a_share_is_served_on_localhost() {
    let p = serve_process("project", "/home/me/code", 2222);
    assert_eq!(p.name, "rclone-serve-project");
    assert_eq!(p.kind, ProcessKind::RcloneServe);
    assert_eq!(p.program, "rclone");
    assert_eq!(
        p.args,
        vec![
            "serve", "sftp", "/home/me/code", "--addr", "localhost:2222", "--no-auth",
            "--vfs-cache-mode", "off",
        ]
    );
    assert!(p.restart_on_crash);
}

#[test]
fn a_prepared_share_takes_its_port() {
    let mut m = ShareManager::new(2222);
    let start = m
        .prepare_share(text("a"), dir("/a"), vec![text("r")], yes, &bin(), yes, |p: u16| p > 2230)
        .unwrap();
    assert_eq!(start.share.sftp_port, 2231);
    assert_eq!(start.share.remotes, vec!["r"]);
    assert_eq!(start.share.status, ShareStatus::Serving);
    assert_eq!(start.process, serve_process("a", "/a", 2231));
    assert_eq!(m.next_sftp_port(), 2232);
    assert_eq!(m.len(), 0);
    m.add_share(start.share);
    assert_eq!(m.len(), 1);
    assert_eq!(m.get_share("a").unwrap().path, dir("/a"));
    assert!(m.get_share("b").is_none());
    assert_eq!(add(&mut m, "b", "/b").unwrap().sftp_port, 2232);
}

#[test]
fn errors_come_in_order_and_change_nothing() {
    let mut m = ShareManager::new(2222);
    add(&mut m, "a", "/a").unwrap();
    let r = m.prepare_share(text("a"), dir("/x"), vec![], no, &bin(), no, |_: u16| false);
    assert_eq!(r.unwrap_err(), LazyMountError::Other(text("share 'a' already exists")));
    let r = m.prepare_share(text("b"), dir("/x"), vec![], no, &bin(), no, |_: u16| false);
    assert_eq!(r.unwrap_err(), LazyMountError::Other(text("path '/x' does not exist")));
    let r = m.prepare_share(text("b"), dir("/x"), vec![], yes, &bin(), no, |_: u16| false);
    assert!(r.unwrap_err().message().starts_with("dependency missing: rclone"));
    let r = m.prepare_share(text("b"), dir("/x"), vec![], yes, &bin(), yes, |_: u16| false);
    assert_eq!(r.unwrap_err(), LazyMountError::PortConflict { port: 2223 });
    assert_eq!(m.next_sftp_port(), 2223);
    assert_eq!(m.len(), 1);
}

#[test]
fn adding_and_removing_restores_the_shares() {
    let mut m = ShareManager::new(2222);
    add(&mut m, "a", "/a").unwrap();
    let before = m.list_shares();
    add(&mut m, "b", "/b").unwrap();
    assert_eq!(m.remove_share("b"), Ok(()));
    assert_eq!(m.list_shares(), before);
    assert_eq!(
        m.remove_share("b"),
        Err(LazyMountError::Other(text("share 'b' not found")))
    );
}
