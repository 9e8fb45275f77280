//! The folders that the client serves.

use crate::config::{check_binary, found_at, found_nowhere, missing, said};
use crate::names::{
    distinct, keys, lookup, lookup_put, lookup_without, named, put, put_then_without, values,
    without, without_keeps_order, NameMap,
};
use crate::paths::{path_text, text_of};
use crate::process::{
    find_available_port, first_available, keep_alive, kept_alive, leaves_room, none_available,
    ProcessConfig, ProcessView,
};
use crate::text::{decimal, decimal_text, quoted, texts};
use crate::types::{
    ErrorView, LazyMountError, ProcessKind, Share, ShareStatus, ShareStatusView, ShareView,
};
use std::path::PathBuf;
use vstd::prelude::*;

verus! {

/// The arguments of the rclone process that serves a folder.
pub open spec fn serve_args(path: Seq<char>, sftp_port: u16) -> Seq<Seq<char>> {
    seq![
        "serve"@,
        "sftp"@,
        path,
        "--addr"@,
        "localhost:"@ + decimal(sftp_port as nat),
        "--no-auth"@,
        "--vfs-cache-mode"@,
        "off"@,
    ]
}

/// The rclone process that serves a folder.
pub open spec fn serving(name: Seq<char>, path: Seq<char>, sftp_port: u16) -> ProcessView {
    kept_alive(
        "rclone-serve-"@ + name,
        ProcessKind::RcloneServe,
        "rclone"@,
        serve_args(path, sftp_port),
    )
}

/// Describes the rclone process that serves a folder.
pub fn serve_process(name: &str, path: &str, sftp_port: u16) -> (p: ProcessConfig)
    ensures
        p@ == serving(name@, path@, sftp_port),
{
    let mut args: Vec<String> = Vec::new();
    args.push("serve".to_string());
    args.push("sftp".to_string());
    args.push(path.to_string());
    args.push("--addr".to_string());
    let mut addr = "localhost:".to_string();
    addr.append(decimal_text(sftp_port as u64).as_str());
    args.push(addr);
    args.push("--no-auth".to_string());
    args.push("--vfs-cache-mode".to_string());
    args.push("off".to_string());
    assert(texts(args@) =~= serve_args(path@, sftp_port));
    let mut title = "rclone-serve-".to_string();
    title.append(name);
    keep_alive(title, ProcessKind::RcloneServe, "rclone", args)
}

/// The shares that are served, and the port from which the next search starts.
#[derive(Debug)]
pub struct ShareManager {
    shares: NameMap<Share>,
    next_sftp_port: u16,
}

/// The state of a [`ShareManager`].
pub struct SharesView {
    pub shares: Seq<(Seq<char>, ShareView)>,
    pub next_sftp_port: u16,
}

impl View for ShareManager {
    type V = SharesView;

    closed spec fn view(&self) -> SharesView {
        SharesView { shares: self.shares@, next_sftp_port: self.next_sftp_port }
    }
}

impl SharesView {
    /// Every share goes by its own name, and shares have ports of their own, in
    /// rising order and below the port from which the next search starts.
    pub open spec fn wf(self) -> bool {
        &&& distinct(self.shares)
        &&& forall|i: int|
            0 <= i < self.shares.len() ==> (#[trigger] self.shares[i]).1.name == self.shares[i].0
        &&& forall|i: int|
            0 <= i < self.shares.len() ==> (#[trigger] self.shares[i]).1.sftp_port
                < self.next_sftp_port
        &&& forall|i: int, j: int|
            0 <= i < j < self.shares.len() ==> (#[trigger] self.shares[i]).1.sftp_port < (
            #[trigger] self.shares[j]).1.sftp_port
    }

    /// Whether a port may be given to a new share. The port after it is a
    /// machine integer.
    pub open spec fn may_take(self, port: u16) -> bool {
        self.next_sftp_port <= port < u16::MAX
    }

    /// Whether a share may be added: its name is new, and its port is the last
    /// one that was taken.
    pub open spec fn ready_for(self, share: ShareView) -> bool {
        &&& !named(self.shares, share.name)
        &&& share.sftp_port < self.next_sftp_port
        &&& forall|i: int|
            0 <= i < self.shares.len() ==> (#[trigger] self.shares[i]).1.sftp_port < share.sftp_port
    }

    /// After a port was taken, the next search starts behind it.
    pub open spec fn taken(self, port: u16) -> SharesView {
        SharesView { next_sftp_port: (port + 1) as u16, ..self }
    }

    /// With one more share.
    pub open spec fn added(self, share: ShareView) -> SharesView {
        SharesView { shares: put(self.shares, share.name, share), ..self }
    }

    /// Without a share.
    pub open spec fn removed(self, name: Seq<char>) -> SharesView {
        SharesView { shares: without(self.shares, name), ..self }
    }
}

/// The share that a name, a folder, a port and remotes make.
pub open spec fn new_share(
    name: Seq<char>,
    path: PathBuf,
    remotes: Seq<Seq<char>>,
    sftp_port: u16,
) -> ShareView {
    ShareView { name, path, sftp_port, remotes, status: ShareStatusView::Serving }
}

/// The error for a name that is taken.
pub open spec fn share_exists(name: Seq<char>) -> ErrorView {
    ErrorView::Other("share '"@ + name + "' already exists"@)
}

/// The error for a folder that is not there.
pub open spec fn no_folder(path: Seq<char>) -> ErrorView {
    ErrorView::Other("path '"@ + path + "' does not exist"@)
}

/// The error for a name that no share has.
pub open spec fn no_share(name: Seq<char>) -> ErrorView {
    ErrorView::Other("share '"@ + name + "' not found"@)
}

/// A share that is about to be served, and the process that serves it.
#[derive(Debug, PartialEq)]
pub struct ShareStart {
    pub share: Share,
    pub process: ProcessConfig,
}

/// Whether preparing to serve a folder can come to the search for a port: the name
/// is new, and the tests may say that the folder and rclone are there.
pub open spec fn port_is_sought<E: Fn(&PathBuf) -> bool, F: Fn(&PathBuf) -> bool>(
    m: SharesView,
    name: Seq<char>,
    path: PathBuf,
    path_exists: E,
    dirs: Seq<PathBuf>,
    is_file: F,
) -> bool {
    &&& !named(m.shares, name)
    &&& said(path_exists, path, true)
    &&& exists|t: PathBuf| found_at(is_file, "rclone"@, dirs, t)
}

/// The outcome of preparing to serve a folder, given what the tests said. The
/// share is as it was asked for, on the first available port. The errors are, in
/// this order: the name is taken, the folder is not there, rclone is not there,
/// no port is available.
pub open spec fn prepared<E: Fn(&PathBuf) -> bool, F: Fn(&PathBuf) -> bool, G: Fn(u16) -> bool>(
    m: SharesView,
    asked: ShareView,
    path_exists: E,
    dirs: Seq<PathBuf>,
    is_file: F,
    is_available: G,
    r: Result<ShareStart, LazyMountError>,
) -> bool {
    match r {
        Ok(start) => {
            let port = start.share.sftp_port;
            &&& !named(m.shares, asked.name)
            &&& said(path_exists, asked.path, true)
            &&& exists|t: PathBuf| found_at(is_file, "rclone"@, dirs, t)
            &&& first_available(is_available, m.next_sftp_port, port)
            &&& m.may_take(port)
            &&& start.share@ == (ShareView { sftp_port: port, ..asked })
            &&& start.process@ == serving(asked.name, path_text(asked.path), port)
        },
        Err(e) => if named(m.shares, asked.name) {
            e@ == share_exists(asked.name)
        } else {
            ||| said(path_exists, asked.path, false) && e@ == no_folder(path_text(asked.path))
            ||| said(path_exists, asked.path, true) && found_nowhere(is_file, "rclone"@, dirs)
                && e@ == missing("rclone"@)
            ||| said(path_exists, asked.path, true) && (exists|t: PathBuf|
                found_at(is_file, "rclone"@, dirs, t)) && none_available(
                is_available,
                m.next_sftp_port,
            ) && e@ == (ErrorView::PortConflict { port: m.next_sftp_port })
        },
    }
}

// ---------------------------------------------------------------------------
// Laws
// ---------------------------------------------------------------------------

/// No two shares have the same port.
pub proof fn ports_differ(m: SharesView, i: int, j: int)
    requires
        m.wf(),
        0 <= i < m.shares.len(),
        0 <= j < m.shares.len(),
        i != j,
    ensures
        m.shares[i].1.sftp_port != m.shares[j].1.sftp_port,
{
    if i < j {
        assert(m.shares[i].1.sftp_port < m.shares[j].1.sftp_port);
    } else {
        assert(m.shares[j].1.sftp_port < m.shares[i].1.sftp_port);
    }
}

/// A share with a new name can be added once a port was taken for it.
pub proof fn taking_makes_ready(m: SharesView, share: ShareView)
    requires
        m.wf(),
        !named(m.shares, share.name),
        m.may_take(share.sftp_port),
    ensures
        m.taken(share.sftp_port).wf(),
        m.taken(share.sftp_port).ready_for(share),
{
}

/// Adding a share keeps the shares in order.
pub proof fn adding_keeps_order(m: SharesView, share: ShareView)
    requires
        m.wf(),
        m.ready_for(share),
    ensures
        m.added(share).wf(),
{
    lookup_put(m.shares, share.name, share, share.name);
}

/// Removing a share keeps the rest in order.
pub proof fn removing_keeps_order(m: SharesView, name: Seq<char>)
    requires
        m.wf(),
    ensures
        m.removed(name).wf(),
{
    lookup_without(m.shares, name, name);
    without_keeps_order(m.shares, name);
}

/// A share that is added and then removed leaves the shares as they were.
pub proof fn add_then_remove(m: SharesView, share: ShareView)
    requires
        m.wf(),
        !named(m.shares, share.name),
    ensures
        m.added(share).removed(share.name) == m,
{
    put_then_without(m.shares, share.name, share);
}

/// A folder is served to this machine only.
pub proof fn served_to_this_machine(name: Seq<char>, path: Seq<char>, sftp_port: u16)
    ensures
        ({
            let args = serving(name, path, sftp_port).args;
            exists|i: int|
                {
                    &&& 0 <= i < args.len() - 1
                    &&& #[trigger] args[i] == "--addr"@
                    &&& args[i + 1] == "localhost:"@ + decimal(sftp_port as nat)
                }
        }),
{
    assert(serving(name, path, sftp_port).args[3] == "--addr"@);
}

// ---------------------------------------------------------------------------
// The manager
// ---------------------------------------------------------------------------

impl ShareManager {
    /// No shares; ports are searched from `sftp_port_start` on.
    pub fn new(sftp_port_start: u16) -> (m: Self)
        ensures
            m@ == (SharesView { shares: Seq::empty(), next_sftp_port: sftp_port_start }),
            m@.wf(),
    {
        ShareManager { shares: NameMap::new(), next_sftp_port: sftp_port_start }
    }

    /// The port from which the next search starts.
    pub fn next_sftp_port(&self) -> (port: u16)
        ensures
            port == self@.next_sftp_port,
    {
        self.next_sftp_port
    }

    /// How many shares there are.
    pub fn len(&self) -> (n: usize)
        ensures
            n == self@.shares.len(),
    {
        self.shares.len()
    }

    /// Prepares to serve a local folder over SFTP: checks that its name is not
    /// taken, that it is there and that rclone is there, and takes a port. The
    /// port stays taken whether or not the process then starts.
    pub fn prepare_share<
        E: Fn(&PathBuf) -> bool,
        F: Fn(&PathBuf) -> bool,
        G: Fn(u16) -> bool,
    >(
        &mut self,
        name: String,
        path: PathBuf,
        remotes: Vec<String>,
        path_exists: E,
        dirs: &Vec<PathBuf>,
        is_file: F,
        is_available: G,
    ) -> (r: Result<ShareStart, LazyMountError>)
        requires
            forall|p: PathBuf| call_requires(path_exists, (&p,)),
            forall|p: PathBuf| call_requires(is_file, (&p,)),
            forall|p: u16| call_requires(is_available, (p,)),
            port_is_sought(old(self)@, name@, path, path_exists, dirs@, is_file) ==> leaves_room(
                is_available,
                old(self)@.next_sftp_port,
            ),
        ensures
            prepared(
                old(self)@,
                new_share(name@, path, texts(remotes@), 0),
                path_exists,
                dirs@,
                is_file,
                is_available,
                r,
            ),
            final(self)@ == match r {
                Ok(start) => old(self)@.taken(start.share.sftp_port),
                Err(_) => old(self)@,
            },
            old(self)@.wf() ==> final(self)@.wf(),
            old(self)@.wf() && r is Ok ==> final(self)@.ready_for(r->Ok_0.share@),
    {
        if self.shares.contains(name.as_str()) {
            return Err(LazyMountError::Other(quoted("share '", name.as_str(), "' already exists")));
        }
        if !path_exists(&path) {
            return Err(
                LazyMountError::Other(quoted("path '", text_of(&path).as_str(), "' does not exist")),
            );
        }
        match check_binary("rclone", dirs, is_file) {
            Ok(_) => {},
            Err(e) => {
                return Err(e);
            },
        }
        let port: u16 = match find_available_port(self.next_sftp_port, is_available) {
            Ok(port) => port,
            Err(e) => {
                return Err(e);
            },
        };
        self.next_sftp_port = port + 1;
        let process = serve_process(name.as_str(), text_of(&path).as_str(), port);
        let share = Share { name, path, sftp_port: port, remotes, status: ShareStatus::Serving };
        Ok(ShareStart { share, process })
    }

    /// Notes a share whose process has started.
    pub fn add_share(&mut self, share: Share)
        ensures
            final(self)@ == old(self)@.added(share@),
            old(self)@.wf() && old(self)@.ready_for(share@) ==> final(self)@.wf(),
    {
        proof {
            if self@.wf() && self@.ready_for(share@) {
                adding_keeps_order(self@, share@);
            }
        }
        self.shares.insert(share.name.clone(), share);
    }

    /// Stops serving a folder.
    pub fn remove_share(&mut self, name: &str) -> (r: Result<(), LazyMountError>)
        ensures
            match r {
                Ok(()) => named(old(self)@.shares, name@) && final(self)@ == old(self)@.removed(
                    name@,
                ),
                Err(e) => {
                    &&& !named(old(self)@.shares, name@)
                    &&& e@ == no_share(name@)
                    &&& final(self)@ == old(self)@
                },
            },
            old(self)@.wf() ==> final(self)@.wf(),
    {
        proof {
            if self@.wf() {
                removing_keeps_order(self@, name@);
            }
        }
        let ghost before = self.shares@;
        match self.shares.remove(name) {
            Some(_) => Ok(()),
            None => {
                proof {
                    without_keeps_order(before, name@);
                }
                Err(LazyMountError::Other(quoted("share '", name, "' not found")))
            },
        }
    }

    /// All shares, in the order in which they were added.
    pub fn list_shares(&self) -> (list: Vec<Share>)
        ensures
            list@.map_values(|s: Share| s@) == values(self@.shares),
    {
        let mut list: Vec<Share> = Vec::new();
        let n = self.shares.len();
        let mut i: usize = 0;
        while i < n
            invariant
                i <= n,
                n == self.shares@.len(),
                list@.len() == i,
                forall|j: int| 0 <= j < i ==> #[trigger] list@[j]@ == self.shares@[j].1,
            decreases n - i,
        {
            list.push(self.shares.value_at(i).clone());
            i += 1;
        }
        assert(list@.map_values(|s: Share| s@) =~= values(self@.shares));
        list
    }

    /// Stops all shares. Returns their names, in order.
    pub fn shutdown(&mut self) -> (stopped: Vec<String>)
        ensures
            texts(stopped@) == keys(old(self)@.shares),
            final(self)@ == (SharesView { shares: Seq::empty(), ..old(self)@ }),
            final(self)@.wf(),
    {
        let stopped = self.shares.names();
        self.shares = NameMap::new();
        stopped
    }

    /// A share by its name.
    pub fn get_share(&self, name: &str) -> (share: Option<&Share>)
        ensures
            match share {
                Some(s) => lookup(self@.shares, name@) == Some(s@),
                None => lookup(self@.shares, name@) is None,
            },
    {
        self.shares.get(name)
    }
}

// ---------------------------------------------------------------------------
// Laws of the manager
// ---------------------------------------------------------------------------

/// rclone serves the folder over SFTP at the given port, open to this machine and
/// without a cache of its own.
pub proof fn a_folder_is_served_as_asked(name: Seq<char>, path: Seq<char>, sftp_port: u16)
    ensures
        ({
            let p = serving(name, path, sftp_port);
            &&& p.name == "rclone-serve-"@ + name
            &&& p.kind == ProcessKind::RcloneServe
            &&& p.program == "rclone"@
            &&& p.restart_on_crash
            &&& p.args.len() == 8
            &&& p.args[0] == "serve"@ && p.args[1] == "sftp"@
            &&& p.args[2] == path
            &&& p.args[3] == "--addr"@ && p.args[4] == "localhost:"@ + decimal(sftp_port as nat)
            &&& p.args[5] == "--no-auth"@
            &&& p.args[6] == "--vfs-cache-mode"@ && p.args[7] == "off"@
        }),
{
}

/// A new share is of the folder and for the remotes that it was made for, at its
/// port, and is served.
pub proof fn a_new_share_is_as_given(
    name: Seq<char>,
    path: PathBuf,
    remotes: Seq<Seq<char>>,
    sftp_port: u16,
)
    ensures
        new_share(name, path, remotes, sftp_port).name == name,
        new_share(name, path, remotes, sftp_port).path == path,
        new_share(name, path, remotes, sftp_port).remotes == remotes,
        new_share(name, path, remotes, sftp_port).sftp_port == sftp_port,
        new_share(name, path, remotes, sftp_port).status == ShareStatusView::Serving,
{
}

/// A port that was taken is not given away again: the next search starts behind it.
/// Only a port from which there is a next one may be taken, and none before the
/// search.
pub proof fn a_taken_local_port_is_passed(m: SharesView, port: u16)
    ensures
        m.may_take(port) == (m.next_sftp_port <= port && port < 65535),
        m.may_take(port) ==> m.taken(port).next_sftp_port == port + 1,
        m.taken(port).shares == m.shares,
{
}

/// A share is found under its name, as it was noted, and every other is as it was.
pub proof fn adding_notes_one_share(m: SharesView, share: ShareView, other: Seq<char>)
    requires
        distinct(m.shares),
    ensures
        lookup(m.added(share).shares, share.name) == Some(share),
        other != share.name ==> lookup(m.added(share).shares, other) == lookup(m.shares, other),
        !named(m.shares, share.name) ==> m.added(share).shares == m.shares.push(
            (share.name, share),
        ),
        m.added(share).next_sftp_port == m.next_sftp_port,
{
    lookup_put(m.shares, share.name, share, share.name);
    lookup_put(m.shares, share.name, share, other);
}

/// A share that is removed is gone, and every other is as it was.
pub proof fn removing_drops_one_share(m: SharesView, name: Seq<char>, other: Seq<char>)
    requires
        distinct(m.shares),
    ensures
        !named(m.removed(name).shares, name),
        other != name ==> lookup(m.removed(name).shares, other) == lookup(m.shares, other),
        m.removed(name).next_sftp_port == m.next_sftp_port,
{
    lookup_without(m.shares, name, name);
    lookup_without(m.shares, name, other);
}

/// A folder is prepared only where its name is free, the folder and rclone are there
/// and a port is available. It is then shared as it was asked for, at the first such
/// port, at which it is also served. An error says what was missing: a free name,
/// the folder, rclone, or a port, whichever comes first.
pub proof fn a_folder_is_shared_as_asked<
    E: Fn(&PathBuf) -> bool,
    F: Fn(&PathBuf) -> bool,
    G: Fn(u16) -> bool,
>(
    m: SharesView,
    asked: ShareView,
    path_exists: E,
    dirs: Seq<PathBuf>,
    is_file: F,
    is_available: G,
    r: Result<ShareStart, LazyMountError>,
)
    requires
        prepared(m, asked, path_exists, dirs, is_file, is_available, r),
    ensures
        match r {
            Ok(start) => {
                let share = start.share@;
                &&& lookup(m.shares, asked.name) is None
                &&& call_ensures(path_exists, (&asked.path,), true)
                &&& exists|t: PathBuf|
                    found_at(is_file, "rclone"@, dirs, t) && #[trigger] call_ensures(
                        is_file,
                        (&t,),
                        true,
                    )
                &&& share.name == asked.name
                &&& share.path == asked.path
                &&& share.remotes == asked.remotes
                &&& share.status == asked.status
                &&& m.next_sftp_port <= share.sftp_port <= m.next_sftp_port + 100
                &&& share.sftp_port < 65535
                &&& call_ensures(is_available, (share.sftp_port,), true)
                &&& forall|q: u16|
                    m.next_sftp_port <= q < share.sftp_port ==> call_ensures(
                        is_available,
                        (q,),
                        false,
                    )
                &&& start.process@.args.len() == 8
                &&& start.process@.args[2] == path_text(asked.path)
                &&& start.process@.args[4] == "localhost:"@ + decimal(share.sftp_port as nat)
            },
            Err(e) => if lookup(m.shares, asked.name) is Some {
                e@.message() == "share '"@ + asked.name + "' already exists"@
            } else {
                ||| call_ensures(path_exists, (&asked.path,), false) && e@.message() == "path '"@
                    + path_text(asked.path) + "' does not exist"@
                ||| call_ensures(path_exists, (&asked.path,), true) && (e@
                    matches ErrorView::DependencyMissing { binary, install_hint } && binary
                    == "rclone"@) && found_nowhere(is_file, "rclone"@, dirs)
                ||| call_ensures(path_exists, (&asked.path,), true) && (e@
                    matches ErrorView::PortConflict { port } && port == m.next_sftp_port && (
                forall|q: u16|
                    m.next_sftp_port <= q <= m.next_sftp_port + 100 ==> call_ensures(
                        is_available,
                        (q,),
                        false,
                    )))
            },
        },
{
    if r is Ok {
        let t = choose|t: PathBuf| found_at(is_file, "rclone"@, dirs, t);
        assert(call_ensures(is_file, (&t,), true));
    }
}

/// The errors of shares name the share or the folder that they are about.
pub proof fn errors_name_the_share(name: Seq<char>, path: Seq<char>)
    ensures
        share_exists(name).message() == "share '"@ + name + "' already exists"@,
        no_share(name).message() == "share '"@ + name + "' not found"@,
        no_folder(path).message() == "path '"@ + path + "' does not exist"@,
{
}

} // verus!
