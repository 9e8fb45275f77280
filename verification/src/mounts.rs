//! The shares that the server has mounted.

use crate::config::{
    check_binary, expand_tilde, expands, found_at, found_nowhere, missing,
    CacheConfig, CacheConfigView,
};
use crate::names::{
    distinct, keys, lookup, lookup_put, lookup_without, named, place, put,
    put_then_without, values, without, without_keeps_order, NameMap,
};
use crate::paths::{
    is_verbatim, is_within, join_path, joined, path_text, text_of, within_stays_below,
};
use crate::process::{
    find_available_port, first_available, keep_alive, kept_alive, leaves_room, none_available,
    ProcessConfig, ProcessView,
};
use crate::text::{decimal, decimal_text, quoted, texts};
use crate::types::{
    ErrorView, LazyMountError, MountStatus, MountStatusView, MountedShare, MountedShareView,
    ProcessKind,
};
use std::path::PathBuf;
use vstd::prelude::*;

verus! {

// ---------------------------------------------------------------------------
// What is run
// ---------------------------------------------------------------------------

/// The name under which a mount is kept: its client, and its share.
pub open spec fn mount_key(client_name: Seq<char>, share_name: Seq<char>) -> Seq<char> {
    client_name + "/"@ + share_name
}

/// The arguments of the rclone process that mounts a share.
pub open spec fn mount_args(
    tunneled_port: u16,
    mount_point: Seq<char>,
    cache: CacheConfigView,
    cache_dir: Seq<char>,
    rc_port: u16,
) -> Seq<Seq<char>> {
    seq![
        "mount"@,
        ":sftp,host=localhost,port="@ + decimal(tunneled_port as nat) + ",no_check=true:"@,
        mount_point,
        "--vfs-cache-mode"@,
        cache.vfs_cache_mode,
        "--vfs-cache-max-age"@,
        cache.vfs_cache_max_age,
        "--vfs-cache-max-size"@,
        cache.vfs_cache_max_size,
        "--vfs-read-ahead"@,
        cache.vfs_read_ahead,
        "--cache-dir"@,
        cache_dir,
        "--dir-cache-time"@,
        "30s"@,
        "--poll-interval"@,
        "15s"@,
        "--rc"@,
        "--rc-addr"@,
        "127.0.0.1:"@ + decimal(rc_port as nat),
        "--rc-no-auth"@,
    ]
}

/// The rclone process that mounts a share.
pub open spec fn mounting(
    share_name: Seq<char>,
    tunneled_port: u16,
    mount_point: Seq<char>,
    cache: CacheConfigView,
    cache_dir: Seq<char>,
    rc_port: u16,
) -> ProcessView {
    kept_alive(
        "rclone-mount-"@ + share_name,
        ProcessKind::RcloneMount,
        "rclone"@,
        mount_args(tunneled_port, mount_point, cache, cache_dir, rc_port),
    )
}

/// Describes the rclone process that mounts a share.
pub fn mount_process(
    share_name: &str,
    tunneled_port: u16,
    mount_point: &str,
    cache: &CacheConfig,
    cache_dir: &str,
    rc_port: u16,
) -> (p: ProcessConfig)
    ensures
        p@ == mounting(share_name@, tunneled_port, mount_point@, cache@, cache_dir@, rc_port),
{
    let mut args: Vec<String> = Vec::new();
    args.push("mount".to_string());
    args.push(
        quoted(
            ":sftp,host=localhost,port=",
            decimal_text(tunneled_port as u64).as_str(),
            ",no_check=true:",
        ),
    );
    args.push(mount_point.to_string());
    args.push("--vfs-cache-mode".to_string());
    args.push(cache.vfs_cache_mode.clone());
    args.push("--vfs-cache-max-age".to_string());
    args.push(cache.vfs_cache_max_age.clone());
    args.push("--vfs-cache-max-size".to_string());
    args.push(cache.vfs_cache_max_size.clone());
    args.push("--vfs-read-ahead".to_string());
    args.push(cache.vfs_read_ahead.clone());
    args.push("--cache-dir".to_string());
    args.push(cache_dir.to_string());
    args.push("--dir-cache-time".to_string());
    args.push("30s".to_string());
    args.push("--poll-interval".to_string());
    args.push("15s".to_string());
    args.push("--rc".to_string());
    args.push("--rc-addr".to_string());
    let mut addr = "127.0.0.1:".to_string();
    addr.append(decimal_text(rc_port as u64).as_str());
    args.push(addr);
    args.push("--rc-no-auth".to_string());
    assert(texts(args@) =~= mount_args(tunneled_port, mount_point@, cache@, cache_dir@, rc_port));
    let mut name = "rclone-mount-".to_string();
    name.append(share_name);
    keep_alive(name, ProcessKind::RcloneMount, "rclone", args)
}

/// The system's own command to unmount a path: the program, and its arguments.
pub fn system_unmount(linux: bool, mount_path: &str) -> (command: (String, Vec<String>))
    ensures
        command.0@ == if linux {
            "fusermount"@
        } else {
            "umount"@
        },
        texts(command.1@) == if linux {
            seq!["-u"@, mount_path@]
        } else {
            seq![mount_path@]
        },
{
    let mut args: Vec<String> = Vec::new();
    if linux {
        args.push("-u".to_string());
        args.push(mount_path.to_string());
        assert(texts(args@) =~= seq!["-u"@, mount_path@]);
        ("fusermount".to_string(), args)
    } else {
        args.push(mount_path.to_string());
        assert(texts(args@) =~= seq![mount_path@]);
        ("umount".to_string(), args)
    }
}

// ---------------------------------------------------------------------------
// State
// ---------------------------------------------------------------------------

/// The mounts, where they and their caches go, and the port from which the next
/// search for a control port starts.
#[derive(Debug)]
pub struct MountManager {
    mounts: NameMap<MountedShare>,
    mount_base_dir: PathBuf,
    cache_config: CacheConfig,
    cache_base_dir: PathBuf,
    next_rc_port: u16,
}

/// The state of a [`MountManager`].
pub struct MountsView {
    pub mounts: Seq<(Seq<char>, MountedShareView)>,
    pub mount_base_dir: PathBuf,
    pub cache_config: CacheConfigView,
    pub cache_base_dir: PathBuf,
    pub next_rc_port: u16,
}

impl View for MountManager {
    type V = MountsView;

    closed spec fn view(&self) -> MountsView {
        MountsView {
            mounts: self.mounts@,
            mount_base_dir: self.mount_base_dir,
            cache_config: self.cache_config@,
            cache_base_dir: self.cache_base_dir,
            next_rc_port: self.next_rc_port,
        }
    }
}

impl MountsView {
    /// Every mount is kept under its own key and is mounted below the base
    /// directory, and mounts have control ports of their own, in rising order
    /// and below the port from which the next search starts.
    pub open spec fn wf(self) -> bool {
        &&& distinct(self.mounts)
        &&& forall|i: int|
            0 <= i < self.mounts.len() ==> self.holds((#[trigger] self.mounts[i]).1)
                && self.mounts[i].0 == mount_key(
                self.mounts[i].1.client_name,
                self.mounts[i].1.share_name,
            )
        &&& forall|i: int, j: int|
            0 <= i < j < self.mounts.len() ==> (#[trigger] self.mounts[i]).1.rc_port < (
            #[trigger] self.mounts[j]).1.rc_port
    }

    /// Whether a path is where a share is mounted.
    pub open spec fn is_place(self, share_name: Seq<char>, mount_point: PathBuf) -> bool {
        joined(path_text(self.mount_base_dir), share_name, path_text(mount_point))
    }

    /// Whether a mount is in its place, with a control port that is taken.
    pub open spec fn holds(self, mount: MountedShareView) -> bool {
        &&& self.is_place(mount.share_name, mount.mount_point)
        &&& mount.rc_port < self.next_rc_port
    }

    /// Whether a control port may be given to a new mount. The port after it is
    /// a machine integer.
    pub open spec fn may_take(self, port: u16) -> bool {
        self.next_rc_port <= port < u16::MAX
    }

    /// Whether a mount may be added: its key is new, it is in its place, and its
    /// control port is the last one that was taken.
    pub open spec fn ready_for(self, mount: MountedShareView) -> bool {
        &&& !named(self.mounts, mount_key(mount.client_name, mount.share_name))
        &&& self.holds(mount)
        &&& forall|i: int|
            0 <= i < self.mounts.len() ==> (#[trigger] self.mounts[i]).1.rc_port < mount.rc_port
    }

    /// After a port was taken, the next search starts behind it.
    pub open spec fn taken(self, port: u16) -> MountsView {
        MountsView { next_rc_port: (port + 1) as u16, ..self }
    }

    /// With one more mount.
    pub open spec fn mounted(self, mount: MountedShareView) -> MountsView {
        MountsView {
            mounts: put(self.mounts, mount_key(mount.client_name, mount.share_name), mount),
            ..self
        }
    }

    /// Without a mount.
    pub open spec fn unmounted(self, key: Seq<char>) -> MountsView {
        MountsView { mounts: without(self.mounts, key), ..self }
    }

    /// Without any mounts.
    pub open spec fn stopped(self) -> MountsView {
        MountsView { mounts: Seq::empty(), ..self }
    }

    /// With another status of a mount.
    pub open spec fn with_status(self, key: Seq<char>, status: MountStatusView) -> MountsView {
        match lookup(self.mounts, key) {
            Some(mount) => MountsView {
                mounts: put(self.mounts, key, MountedShareView { status, ..mount }),
                ..self
            },
            None => self,
        }
    }
}

/// The mount that is about to be made of a share.
pub open spec fn new_mount(
    share_name: Seq<char>,
    client_name: Seq<char>,
    tunneled_port: u16,
    rc_port: u16,
    mount_point: PathBuf,
) -> MountedShareView {
    MountedShareView {
        share_name,
        client_name,
        tunneled_port,
        mount_point,
        rc_port,
        status: MountStatusView::Mounting,
        stats: None,
    }
}

/// Whether preparing a mount can come to the search for a port: the key is new, and
/// the test may say that rclone is there.
pub open spec fn port_is_sought<F: Fn(&PathBuf) -> bool>(
    m: MountsView,
    key: Seq<char>,
    dirs: Seq<PathBuf>,
    is_file: F,
) -> bool {
    &&& !named(m.mounts, key)
    &&& exists|t: PathBuf| found_at(is_file, "rclone"@, dirs, t)
}

/// The error for a share that is mounted already.
pub open spec fn mounted_already(key: Seq<char>) -> ErrorView {
    ErrorView::Mount("share '"@ + key + "' is already mounted"@)
}

/// The error for a mount that is not there.
pub open spec fn no_mount(key: Seq<char>) -> ErrorView {
    ErrorView::Mount("mount '"@ + key + "' not found"@)
}

// ---------------------------------------------------------------------------
// Laws
// ---------------------------------------------------------------------------

/// No two mounts have the same control port.
pub proof fn rc_ports_differ(m: MountsView, i: int, j: int)
    requires
        m.wf(),
        0 <= i < m.mounts.len(),
        0 <= j < m.mounts.len(),
        i != j,
    ensures
        m.mounts[i].1.rc_port != m.mounts[j].1.rc_port,
{
    if i < j {
        assert(m.mounts[i].1.rc_port < m.mounts[j].1.rc_port);
    } else {
        assert(m.mounts[j].1.rc_port < m.mounts[i].1.rc_port);
    }
}

/// A share that is not mounted can be mounted once a control port was taken for
/// it.
pub proof fn taking_makes_ready(
    m: MountsView,
    share_name: Seq<char>,
    client_name: Seq<char>,
    tunneled_port: u16,
    rc_port: u16,
    mount_point: PathBuf,
)
    requires
        m.wf(),
        !named(m.mounts, mount_key(client_name, share_name)),
        m.may_take(rc_port),
        m.is_place(share_name, mount_point),
    ensures
        m.taken(rc_port).wf(),
        m.taken(rc_port).ready_for(
            new_mount(share_name, client_name, tunneled_port, rc_port, mount_point),
        ),
{
    let n = m.taken(rc_port);
    assert forall|i: int| 0 <= i < m.mounts.len() implies n.holds((#[trigger] m.mounts[i]).1) by {
        assert(m.holds(m.mounts[i].1));
    }
}

/// Adding a mount keeps the mounts in order.
pub proof fn mounting_keeps_order(m: MountsView, mount: MountedShareView)
    requires
        m.wf(),
        m.ready_for(mount),
    ensures
        m.mounted(mount).wf(),
{
    let key = mount_key(mount.client_name, mount.share_name);
    lookup_put(m.mounts, key, mount, key);
    let n = m.mounted(mount);
    assert forall|i: int| 0 <= i < n.mounts.len() implies n.holds((#[trigger] n.mounts[i]).1) by {
        if i < m.mounts.len() {
            assert(m.holds(m.mounts[i].1));
        }
    }
}

/// Removing a mount keeps the rest in order.
pub proof fn unmounting_keeps_order(m: MountsView, key: Seq<char>)
    requires
        m.wf(),
    ensures
        m.unmounted(key).wf(),
{
    lookup_without(m.mounts, key, key);
    without_keeps_order(m.mounts, key);
    let n = m.unmounted(key);
    assert forall|i: int| 0 <= i < n.mounts.len() implies n.holds((#[trigger] n.mounts[i]).1) by {
        assert(m.holds(m.mounts[crate::names::place_before(m.mounts, key, i)].1));
    }
}

/// A change of status keeps the mounts in order.
pub proof fn status_keeps_order(m: MountsView, key: Seq<char>, status: MountStatusView)
    requires
        m.wf(),
    ensures
        m.with_status(key, status).wf(),
        keys(m.with_status(key, status).mounts) == keys(m.mounts),
{
    let n = m.with_status(key, status);
    if named(m.mounts, key) {
        let p = place(m.mounts, key);
        assert(m.mounts[p].0 == key);
        lookup_put(m.mounts, key, MountedShareView { status, ..m.mounts[p].1 }, key);
        assert forall|i: int| 0 <= i < n.mounts.len() implies n.holds((#[trigger] n.mounts[i]).1)
            by {
            assert(m.holds(m.mounts[i].1));
        }
    }
    assert(keys(n.mounts) =~= keys(m.mounts));
}

/// A share that is mounted and then unmounted leaves the mounts as they were.
pub proof fn mount_then_unmount(m: MountsView, mount: MountedShareView)
    requires
        m.wf(),
        !named(m.mounts, mount_key(mount.client_name, mount.share_name)),
    ensures
        m.mounted(mount).unmounted(mount_key(mount.client_name, mount.share_name)) == m,
{
    put_then_without(m.mounts, mount_key(mount.client_name, mount.share_name), mount);
}

/// A share whose name is within any directory is mounted below the base directory.
pub proof fn mounts_are_below_the_base(m: MountsView, i: int)
    requires
        m.wf(),
        0 <= i < m.mounts.len(),
        is_within(m.mounts[i].1.share_name),
        !is_verbatim(path_text(m.mount_base_dir)),
    ensures
        path_text(m.mount_base_dir).is_prefix_of(path_text(m.mounts[i].1.mount_point)),
        m.mounts[i].1.share_name.is_suffix_of(path_text(m.mounts[i].1.mount_point)),
{
    assert(m.holds(m.mounts[i].1));
    within_stays_below(
        path_text(m.mount_base_dir),
        m.mounts[i].1.share_name,
        path_text(m.mounts[i].1.mount_point),
    );
}

/// The control port of a mount is open to this machine only.
pub proof fn controlled_from_this_machine(
    share_name: Seq<char>,
    tunneled_port: u16,
    mount_point: Seq<char>,
    cache: CacheConfigView,
    cache_dir: Seq<char>,
    rc_port: u16,
)
    ensures
        ({
            let args = mounting(
                share_name,
                tunneled_port,
                mount_point,
                cache,
                cache_dir,
                rc_port,
            ).args;
            exists|i: int|
                {
                    &&& 0 <= i < args.len() - 1
                    &&& #[trigger] args[i] == "--rc-addr"@
                    &&& args[i + 1] == "127.0.0.1:"@ + decimal(rc_port as nat)
                }
        }),
{
    let args = mounting(share_name, tunneled_port, mount_point, cache, cache_dir, rc_port).args;
    assert(args[18] == "--rc-addr"@);
}

// ---------------------------------------------------------------------------
// The manager
// ---------------------------------------------------------------------------

/// A share that is about to be mounted: the mount, the directory for its cache,
/// and the process that mounts it. The mount point and the cache directory have
/// to be there before the process starts.
#[derive(Debug)]
pub struct MountStart {
    pub info: MountedShare,
    pub cache_dir: PathBuf,
    pub process: ProcessConfig,
}

fn key_of(client_name: &str, share_name: &str) -> (key: String)
    ensures
        key@ == mount_key(client_name@, share_name@),
{
    quoted(client_name, "/", share_name)
}

impl MountManager {
    /// No mounts, to be made below `mount_base_dir` as it stands.
    pub fn at(
        mount_base_dir: PathBuf,
        cache_config: CacheConfig,
        cache_base_dir: PathBuf,
        rc_port_start: u16,
    ) -> (m: Self)
        ensures
            m@ == (MountsView {
                mounts: Seq::empty(),
                mount_base_dir,
                cache_config: cache_config@,
                cache_base_dir,
                next_rc_port: rc_port_start,
            }),
            m@.wf(),
    {
        MountManager {
            mounts: NameMap::new(),
            mount_base_dir,
            cache_config,
            cache_base_dir,
            next_rc_port: rc_port_start,
        }
    }

    /// No mounts, to be made below `mount_base_dir`, in which `~` stands for the
    /// user's home directory.
    pub fn new(
        mount_base_dir: &str,
        cache_config: CacheConfig,
        cache_base_dir: PathBuf,
        rc_port_start: u16,
    ) -> (m: Self)
        ensures
            exists|home: Option<PathBuf>|
                expands(mount_base_dir@, home, m@.mount_base_dir),
            m@ == (MountsView {
                mounts: Seq::empty(),
                mount_base_dir: m@.mount_base_dir,
                cache_config: cache_config@,
                cache_base_dir,
                next_rc_port: rc_port_start,
            }),
            m@.wf(),
    {
        MountManager::at(expand_tilde(mount_base_dir), cache_config, cache_base_dir, rc_port_start)
    }

    /// Prepares to mount a share from a connected client: checks that it is not
    /// mounted and that rclone is there, and takes a control port. The port
    /// stays taken whether or not the process then starts.
    pub fn prepare_mount<F: Fn(&PathBuf) -> bool, G: Fn(u16) -> bool>(
        &mut self,
        share_name: &str,
        client_name: &str,
        tunneled_port: u16,
        dirs: &Vec<PathBuf>,
        is_file: F,
        is_available: G,
    ) -> (r: Result<MountStart, LazyMountError>)
        requires
            forall|p: PathBuf| call_requires(is_file, (&p,)),
            forall|p: u16| call_requires(is_available, (p,)),
            port_is_sought(
                old(self)@,
                mount_key(client_name@, share_name@),
                dirs@,
                is_file,
            ) ==> leaves_room(is_available, old(self)@.next_rc_port),
        ensures
            match r {
                Ok(start) => {
                    let port = start.info.rc_port;
                    &&& !named(old(self)@.mounts, mount_key(client_name@, share_name@))
                    &&& exists|t: PathBuf| found_at(is_file, "rclone"@, dirs@, t)
                    &&& first_available(is_available, old(self)@.next_rc_port, port)
                    &&& old(self)@.may_take(port)
                    &&& old(self)@.is_place(share_name@, start.info.mount_point)
                    &&& start.info@ == new_mount(
                        share_name@,
                        client_name@,
                        tunneled_port,
                        port,
                        start.info.mount_point,
                    )
                    &&& joined(
                        path_text(old(self)@.cache_base_dir),
                        share_name@,
                        path_text(start.cache_dir),
                    )
                    &&& start.process@ == mounting(
                        share_name@,
                        tunneled_port,
                        path_text(start.info.mount_point),
                        old(self)@.cache_config,
                        path_text(start.cache_dir),
                        port,
                    )
                    &&& final(self)@ == old(self)@.taken(port)
                },
                Err(e) => {
                    &&& final(self)@ == old(self)@
                    &&& if named(old(self)@.mounts, mount_key(client_name@, share_name@)) {
                        e@ == mounted_already(mount_key(client_name@, share_name@))
                    } else {
                        ||| found_nowhere(is_file, "rclone"@, dirs@) && e@ == missing("rclone"@)
                        ||| (exists|t: PathBuf| found_at(is_file, "rclone"@, dirs@, t))
                            && none_available(is_available, old(self)@.next_rc_port) && e@ == (
                        ErrorView::PortConflict { port: old(self)@.next_rc_port })
                    }
                },
            },
            old(self)@.wf() ==> final(self)@.wf(),
            old(self)@.wf() && r is Ok ==> final(self)@.ready_for(r->Ok_0.info@),
    {
        let key = key_of(client_name, share_name);
        if self.mounts.contains(key.as_str()) {
            return Err(
                LazyMountError::Mount(quoted("share '", key.as_str(), "' is already mounted")),
            );
        }
        match check_binary("rclone", dirs, is_file) {
            Ok(_) => {},
            Err(e) => {
                return Err(e);
            },
        }
        let rc_port: u16 = match find_available_port(self.next_rc_port, is_available) {
            Ok(port) => port,
            Err(e) => {
                return Err(e);
            },
        };
        let mount_point = join_path(&self.mount_base_dir, share_name);
        let cache_dir = join_path(&self.cache_base_dir, share_name);
        proof {
            if self@.wf() {
                taking_makes_ready(
                    self@,
                    share_name@,
                    client_name@,
                    tunneled_port,
                    rc_port,
                    mount_point,
                );
            }
        }
        self.next_rc_port = rc_port + 1;
        let process = mount_process(
            share_name,
            tunneled_port,
            text_of(&mount_point).as_str(),
            &self.cache_config,
            text_of(&cache_dir).as_str(),
            rc_port,
        );
        let info = MountedShare {
            share_name: share_name.to_string(),
            client_name: client_name.to_string(),
            tunneled_port,
            mount_point,
            rc_port,
            status: MountStatus::Mounting,
            stats: None,
        };
        Ok(MountStart { info, cache_dir, process })
    }

    /// Notes a mount whose process has started.
    pub fn mount_share(&mut self, info: MountedShare)
        ensures
            final(self)@ == old(self)@.mounted(info@),
            old(self)@.wf() && old(self)@.ready_for(info@) ==> final(self)@.wf(),
    {
        proof {
            if self@.wf() && self@.ready_for(info@) {
                mounting_keeps_order(self@, info@);
            }
        }
        let key = key_of(info.client_name.as_str(), info.share_name.as_str());
        self.mounts.insert(key, info);
    }

    /// Takes a mount out. Returns what is to be unmounted.
    pub fn unmount_share(&mut self, share_name: &str, client_name: &str) -> (r: Result<
        MountedShare,
        LazyMountError,
    >)
        ensures
            match r {
                Ok(info) => {
                    &&& lookup(old(self)@.mounts, mount_key(client_name@, share_name@)) == Some(
                        info@,
                    )
                    &&& final(self)@ == old(self)@.unmounted(mount_key(client_name@, share_name@))
                },
                Err(e) => {
                    &&& !named(old(self)@.mounts, mount_key(client_name@, share_name@))
                    &&& e@ == no_mount(mount_key(client_name@, share_name@))
                    &&& final(self)@ == old(self)@
                },
            },
            r is Ok == named(old(self)@.mounts, mount_key(client_name@, share_name@)),
            old(self)@.wf() ==> final(self)@.wf(),
    {
        let key = key_of(client_name, share_name);
        proof {
            if self@.wf() {
                unmounting_keeps_order(self@, key@);
            }
        }
        let ghost before = self.mounts@;
        match self.mounts.remove(key.as_str()) {
            Some(info) => Ok(info),
            None => {
                proof {
                    without_keeps_order(before, key@);
                }
                Err(LazyMountError::Mount(quoted("mount '", key.as_str(), "' not found")))
            },
        }
    }

    /// All mounts, in the order in which they were made.
    pub fn list_mounts(&self) -> (list: Vec<MountedShare>)
        ensures
            list@.map_values(|m: MountedShare| m@) == values(self@.mounts),
    {
        let mut list: Vec<MountedShare> = Vec::new();
        let n = self.mounts.len();
        let mut i: usize = 0;
        while i < n
            invariant
                i <= n,
                n == self.mounts@.len(),
                list@.len() == i,
                forall|j: int| 0 <= j < i ==> #[trigger] list@[j]@ == self.mounts@[j].1,
            decreases n - i,
        {
            list.push(self.mounts.value_at(i).clone());
            i += 1;
        }
        assert(list@.map_values(|m: MountedShare| m@) =~= values(self@.mounts));
        list
    }

    /// The keys of all mounts, in order.
    pub fn mount_keys(&self) -> (list: Vec<String>)
        ensures
            texts(list@) == keys(self@.mounts),
    {
        self.mounts.names()
    }

    /// The control port at which the figures of a mount are to be had.
    pub fn stats_port(&self, share_name: &str, client_name: &str) -> (r: Result<
        u16,
        LazyMountError,
    >)
        ensures
            match (r, lookup(self@.mounts, mount_key(client_name@, share_name@))) {
                (Ok(port), Some(mount)) => port == mount.rc_port,
                (Err(e), None) => e@ == no_mount(mount_key(client_name@, share_name@)),
                _ => false,
            },
    {
        let key = key_of(client_name, share_name);
        match self.mounts.get(key.as_str()) {
            Some(mount) => Ok(mount.rc_port),
            None => Err(LazyMountError::Mount(quoted("mount '", key.as_str(), "' not found"))),
        }
    }

    /// The control port of the mount under a key.
    pub fn rc_port(&self, key: &str) -> (port: Option<u16>)
        ensures
            match (port, lookup(self@.mounts, key@)) {
                (Some(port), Some(mount)) => port == mount.rc_port,
                (None, None) => true,
                _ => false,
            },
    {
        match self.mounts.get(key) {
            Some(mount) => Some(mount.rc_port),
            None => None,
        }
    }

    /// Notes whether the mount under a key has answered a health check: it is
    /// mounted, or it has been stale since `now`.
    pub fn record_health(&mut self, key: &str, healthy: bool, now: std::time::Instant)
        ensures
            final(self)@ == old(self)@.with_status(
                key@,
                if healthy {
                    MountStatusView::Mounted
                } else {
                    MountStatusView::Stale { since: now }
                },
            ),
            old(self)@.wf() ==> final(self)@.wf(),
    {
        let status = if healthy {
            MountStatus::Mounted
        } else {
            MountStatus::Stale { since: now }
        };
        proof {
            if self@.wf() {
                status_keeps_order(self@, key@, status@);
            }
        }
        let found = match self.mounts.get(key) {
            Some(mount) => Some(mount.clone()),
            None => None,
        };
        if let Some(mount) = found {
            let mut mount = mount;
            mount.status = status;
            self.mounts.insert(key.to_string(), mount);
        }
    }

    /// Takes all mounts out. Returns what is to be unmounted, in order.
    pub fn shutdown(&mut self) -> (list: Vec<MountedShare>)
        ensures
            list@.map_values(|m: MountedShare| m@) == values(old(self)@.mounts),
            final(self)@ == old(self)@.stopped(),
            final(self)@.wf(),
    {
        let list = self.list_mounts();
        self.mounts = NameMap::new();
        list
    }
}

// ---------------------------------------------------------------------------
// Laws of the manager
// ---------------------------------------------------------------------------

/// rclone mounts the share that is at the end of its tunnel on its mount point, with
/// the cache settings, each after its flag, and with the given directory for its
/// cache.
pub proof fn a_mount_is_run_as_configured(
    share_name: Seq<char>,
    tunneled_port: u16,
    mount_point: Seq<char>,
    cache: CacheConfigView,
    cache_dir: Seq<char>,
    rc_port: u16,
)
    ensures
        ({
            let p = mounting(share_name, tunneled_port, mount_point, cache, cache_dir, rc_port);
            &&& p.name == "rclone-mount-"@ + share_name
            &&& p.kind == ProcessKind::RcloneMount
            &&& p.program == "rclone"@
            &&& p.restart_on_crash
            &&& p.args.len() == 21
            &&& p.args[0] == "mount"@
            &&& p.args[1] == ":sftp,host=localhost,port="@ + decimal(tunneled_port as nat)
                + ",no_check=true:"@
            &&& p.args[2] == mount_point
            &&& p.args[3] == "--vfs-cache-mode"@ && p.args[4] == cache.vfs_cache_mode
            &&& p.args[5] == "--vfs-cache-max-age"@ && p.args[6] == cache.vfs_cache_max_age
            &&& p.args[7] == "--vfs-cache-max-size"@ && p.args[8] == cache.vfs_cache_max_size
            &&& p.args[9] == "--vfs-read-ahead"@ && p.args[10] == cache.vfs_read_ahead
            &&& p.args[11] == "--cache-dir"@ && p.args[12] == cache_dir
            &&& p.args[13] == "--dir-cache-time"@ && p.args[14] == "30s"@
            &&& p.args[15] == "--poll-interval"@ && p.args[16] == "15s"@
            &&& p.args[17] == "--rc"@
            &&& p.args[18] == "--rc-addr"@ && p.args[19] == "127.0.0.1:"@ + decimal(
                rc_port as nat,
            )
            &&& p.args[20] == "--rc-no-auth"@
        }),
{
}

/// A new mount is of the share and the client that it was made for, at the ports and
/// the place that it was given. It is mounting, and has no figures yet.
pub proof fn a_new_mount_is_as_given(
    share_name: Seq<char>,
    client_name: Seq<char>,
    tunneled_port: u16,
    rc_port: u16,
    mount_point: PathBuf,
)
    ensures
        ({
            let mount = new_mount(share_name, client_name, tunneled_port, rc_port, mount_point);
            &&& mount.share_name == share_name
            &&& mount.client_name == client_name
            &&& mount.tunneled_port == tunneled_port
            &&& mount.rc_port == rc_port
            &&& mount.mount_point == mount_point
            &&& mount.status == MountStatusView::Mounting
            &&& mount.stats is None
        }),
{
}

/// A control port that was taken is not given away again: the next search starts
/// behind it. Only a port from which there is a next one may be taken, and none
/// before the search.
pub proof fn a_taken_control_port_is_passed(m: MountsView, port: u16)
    ensures
        m.may_take(port) == (m.next_rc_port <= port && port < 65535),
        m.may_take(port) ==> m.taken(port).next_rc_port == port + 1,
        m.taken(port).mounts == m.mounts,
        m.taken(port).mount_base_dir == m.mount_base_dir,
        m.taken(port).cache_base_dir == m.cache_base_dir,
        m.taken(port).cache_config == m.cache_config,
{
}

/// A mount is found under its client and its share, as it was noted, and every other
/// is as it was.
pub proof fn mounting_notes_one_mount(m: MountsView, mount: MountedShareView, other: Seq<char>)
    requires
        distinct(m.mounts),
    ensures
        ({
            let key = mount.client_name + "/"@ + mount.share_name;
            let n = m.mounted(mount);
            &&& lookup(n.mounts, key) == Some(mount)
            &&& other != key ==> lookup(n.mounts, other) == lookup(m.mounts, other)
            &&& !named(m.mounts, key) ==> n.mounts == m.mounts.push((key, mount))
            &&& n.mount_base_dir == m.mount_base_dir
            &&& n.cache_base_dir == m.cache_base_dir
            &&& n.cache_config == m.cache_config
            &&& n.next_rc_port == m.next_rc_port
        }),
{
    let key = mount_key(mount.client_name, mount.share_name);
    lookup_put(m.mounts, key, mount, key);
    lookup_put(m.mounts, key, mount, other);
}

/// A mount that is taken out is gone, and every other is as it was.
pub proof fn unmounting_drops_one_mount(m: MountsView, key: Seq<char>, other: Seq<char>)
    requires
        distinct(m.mounts),
    ensures
        !named(m.unmounted(key).mounts, key),
        other != key ==> lookup(m.unmounted(key).mounts, other) == lookup(m.mounts, other),
        m.unmounted(key).mount_base_dir == m.mount_base_dir,
        m.unmounted(key).cache_base_dir == m.cache_base_dir,
        m.unmounted(key).cache_config == m.cache_config,
        m.unmounted(key).next_rc_port == m.next_rc_port,
{
    lookup_without(m.mounts, key, key);
    lookup_without(m.mounts, key, other);
}

/// A health check changes the status of the mount that it is about, and nothing
/// else.
pub proof fn a_status_is_noted_where_it_belongs(
    m: MountsView,
    key: Seq<char>,
    status: MountStatusView,
    other: Seq<char>,
)
    requires
        distinct(m.mounts),
    ensures
        ({
            let n = m.with_status(key, status);
            &&& lookup(m.mounts, key) matches Some(a) ==> (lookup(n.mounts, key) matches Some(b)
                && b.status == status && b.share_name == a.share_name && b.client_name
                == a.client_name && b.tunneled_port == a.tunneled_port && b.mount_point
                == a.mount_point && b.rc_port == a.rc_port && b.stats == a.stats)
            &&& lookup(m.mounts, key) is None ==> n == m
            &&& other != key ==> lookup(n.mounts, other) == lookup(m.mounts, other)
            &&& n.mounts.len() == m.mounts.len()
            &&& n.mount_base_dir == m.mount_base_dir
            &&& n.cache_base_dir == m.cache_base_dir
            &&& n.cache_config == m.cache_config
            &&& n.next_rc_port == m.next_rc_port
        }),
{
    if let Some(a) = lookup(m.mounts, key) {
        lookup_put(m.mounts, key, MountedShareView { status, ..a }, key);
        lookup_put(m.mounts, key, MountedShareView { status, ..a }, other);
    }
}

/// Shares of one client are kept apart by their names.
pub proof fn keys_tell_shares_apart(client_name: Seq<char>, a: Seq<char>, b: Seq<char>)
    requires
        a != b,
    ensures
        mount_key(client_name, a) != mount_key(client_name, b),
        mount_key(client_name, a) == client_name + "/"@ + a,
{
    let n = (client_name + "/"@).len() as int;
    assert(mount_key(client_name, a).skip(n) =~= a);
    assert(mount_key(client_name, b).skip(n) =~= b);
}

/// A place for a mount is the share's name joined to the base directory.
pub proof fn a_place_is_below_the_base(m: MountsView, share_name: Seq<char>, mount_point: PathBuf)
    requires
        m.is_place(share_name, mount_point),
        is_within(share_name),
        !is_verbatim(path_text(m.mount_base_dir)),
    ensures
        path_text(m.mount_base_dir).is_prefix_of(path_text(mount_point)),
        share_name.is_suffix_of(path_text(mount_point)),
{
    within_stays_below(path_text(m.mount_base_dir), share_name, path_text(mount_point));
}

/// The errors of mounts name the mount that they are about.
pub proof fn errors_name_the_mount(key: Seq<char>)
    ensures
        mounted_already(key).message() == "mount error: "@ + ("share '"@ + key
            + "' is already mounted"@),
        no_mount(key).message() == "mount error: "@ + ("mount '"@ + key + "' not found"@),
{
}

} // verus!
