//! The client daemon: what it shares, whom it is connected to, and how it
//! answers the command line.

use crate::config::{
    check_binary, expand_tilde_in, expands, found_at, found_nowhere, home_dir, missing,
    ClientConfig, ClientConfigView, DaemonConfig, RemoteConfig, RemoteConfigView, ShareConfig,
    ShareConfigView,
};
use crate::names::{
    distinct, keys, lemma_filter_from, lemma_filter_holds, lookup, lookup_put, lookup_without,
    named, place, put, values, without, without_keeps_order, NameMap,
};
use crate::paths::{path_text, text_of};
use crate::process::{leaves_room, ProcessConfig, ProcessView};
use crate::protocol::{
    entries, ControlRequest, ControlResponse, EntryView, ManifestView, RemoteInfo, RemoteInfoView,
    RequestView, ResponseView, ShareInfo, ShareInfoView, ShareManifest, ShareManifestEntry,
};
use crate::shares::{
    adding_keeps_order, new_share, no_share, port_is_sought, prepared, removing_keeps_order,
    ShareManager, ShareStart, SharesView,
};
use crate::text::{
    clone_opt, clone_texts, contains_text, decimal, decimal_text, opt_text, quoted, same_text,
    texts,
};
use crate::tunnel::{client_process, ChiselTunnelProvider, HandleView, TunnelClientHandle};
use crate::types::{
    ConnectionStatus, ConnectionStatusView, ErrorView, LazyMountError, Remote, RemoteView, Share,
    ShareView, TunnelMapping,
};
use std::path::PathBuf;
use vstd::prelude::*;

verus! {

// ---------------------------------------------------------------------------
// State
// ---------------------------------------------------------------------------

/// The state of the client daemon.
#[derive(Debug)]
pub struct ClientState {
    pub config: ClientConfig,
    pub share_manager: ShareManager,
    pub tunnel_handles: NameMap<TunnelClientHandle>,
    pub remotes: NameMap<Remote>,
    pub manifest: ShareManifest,
}

/// The contents of a [`ClientState`].
pub struct ClientView {
    pub config: ClientConfigView,
    pub share_manager: SharesView,
    pub tunnel_handles: Seq<(Seq<char>, HandleView)>,
    pub remotes: Seq<(Seq<char>, RemoteView)>,
    pub manifest: ManifestView,
}

impl View for ClientState {
    type V = ClientView;

    open spec fn view(&self) -> ClientView {
        ClientView {
            config: self.config@,
            share_manager: self.share_manager@,
            tunnel_handles: self.tunnel_handles@,
            remotes: self.remotes@,
            manifest: self.manifest@,
        }
    }
}

/// The port at which a server reaches the share with the local port `sftp_port`:
/// as far from the first tunnel port as that is from the first local port.
pub open spec fn tunnel_port(daemon: DaemonConfig, sftp_port: u16) -> int {
    daemon.tunnel_port_range_start + (sftp_port - daemon.sftp_port_range_start)
}

/// Whether a local port has a tunnel port. Both differences and sums are ports.
pub open spec fn has_tunnel_port(daemon: DaemonConfig, sftp_port: u16) -> bool {
    &&& daemon.sftp_port_range_start <= sftp_port
    &&& tunnel_port(daemon, sftp_port) <= u16::MAX
}

/// Whether something meant for some remotes is meant for this one. An empty list
/// stands for every remote.
pub open spec fn meant_for(remotes: Seq<Seq<char>>, remote: Seq<char>) -> bool {
    remotes.len() == 0 || remotes.contains(remote)
}

/// The manifest's entry for a share.
pub open spec fn entry_of(daemon: DaemonConfig, share: ShareView) -> EntryView {
    EntryView { name: share.name, tunneled_port: tunnel_port(daemon, share.sftp_port) as u16 }
}

/// The tunnel that leads to a share.
pub open spec fn mapping_of(daemon: DaemonConfig, share: ShareView) -> TunnelMapping {
    TunnelMapping {
        local_port: share.sftp_port,
        remote_port: tunnel_port(daemon, share.sftp_port) as u16,
    }
}

/// The tunnel of the control channel: the same port on both sides.
pub open spec fn control_mapping(daemon: DaemonConfig) -> TunnelMapping {
    TunnelMapping { local_port: daemon.control_port, remote_port: daemon.control_port }
}

impl ClientView {
    /// The shares, in order.
    pub open spec fn shares(self) -> Seq<ShareView> {
        values(self.share_manager.shares)
    }

    /// The tunnels that a remote needs: the control channel, and every share
    /// that is meant for it.
    pub open spec fn mappings(self, remote: Seq<char>) -> Seq<TunnelMapping> {
        let daemon = self.config.daemon;
        seq![control_mapping(daemon)] + self.shares().filter(
            |s: ShareView| meant_for(s.remotes, remote),
        ).map_values(|s: ShareView| mapping_of(daemon, s))
    }

    /// The shares are in order and have tunnel ports, and what is kept under a
    /// name has that name.
    pub open spec fn sound(self) -> bool {
        let daemon = self.config.daemon;
        &&& self.share_manager.wf()
        &&& daemon.sftp_port_range_start <= self.share_manager.next_sftp_port
        &&& forall|i: int|
            0 <= i < self.share_manager.shares.len() ==> has_tunnel_port(
                daemon,
                (#[trigger] self.share_manager.shares[i]).1.sftp_port,
            )
        &&& distinct(self.tunnel_handles)
        &&& forall|i: int|
            0 <= i < self.tunnel_handles.len() ==> (
            #[trigger] self.tunnel_handles[i]).1.remote_name == self.tunnel_handles[i].0
        &&& distinct(self.remotes)
        &&& forall|i: int|
            0 <= i < self.remotes.len() ==> (#[trigger] self.remotes[i]).1.name
                == self.remotes[i].0
    }

    /// While the daemon runs, the manifest lists exactly the shares, each at its
    /// tunnel port.
    pub open spec fn wf(self) -> bool {
        let daemon = self.config.daemon;
        &&& self.sound()
        &&& self.manifest.shares == self.shares().map_values(|s: ShareView| entry_of(daemon, s))
    }
}

impl ClientState {
    /// The tunnel port of a local port, where it has one.
    pub fn tunnel_port(&self, sftp_port: u16) -> (port: Option<u16>)
        ensures
            match port {
                Some(p) => {
                    &&& has_tunnel_port(self@.config.daemon, sftp_port)
                    &&& p == tunnel_port(self@.config.daemon, sftp_port)
                },
                None => !has_tunnel_port(self@.config.daemon, sftp_port),
            },
    {
        match sftp_port.checked_sub(self.config.daemon.sftp_port_range_start) {
            Some(offset) => self.config.daemon.tunnel_port_range_start.checked_add(offset),
            None => None,
        }
    }

    /// The tunnels that a remote needs at the moment: the control channel, and
    /// every share that is meant for it.
    pub fn tunnel_mappings_for_remote(&self, remote_name: &str) -> (mappings: Vec<TunnelMapping>)
        requires
            self@.sound(),
        ensures
            mappings@ == self@.mappings(remote_name@),
    {
        let daemon = self.config.daemon;
        let mut mappings: Vec<TunnelMapping> = Vec::new();
        mappings.push(
            TunnelMapping { local_port: daemon.control_port, remote_port: daemon.control_port },
        );
        let shares = self.share_manager.list_shares();
        let ghost all = self@.shares();
        let ghost wanted = |s: ShareView| meant_for(s.remotes, remote_name@);
        let ghost tunnel = |s: ShareView| mapping_of(daemon, s);
        assert(all.take(0).filter(wanted) =~= Seq::empty()) by {
            reveal(Seq::filter);
        }
        assert(mappings@ =~= seq![control_mapping(daemon)] + all.take(0).filter(wanted).map_values(
            tunnel,
        ));
        let mut i: usize = 0;
        while i < shares.len()
            invariant
                i <= shares@.len(),
                self@.sound(),
                daemon == self@.config.daemon,
                all == self@.shares(),
                shares@.map_values(|s: Share| s@) == all,
                wanted == (|s: ShareView| meant_for(s.remotes, remote_name@)),
                tunnel == (|s: ShareView| mapping_of(daemon, s)),
                mappings@ == seq![control_mapping(daemon)] + all.take(i as int).filter(
                    wanted,
                ).map_values(tunnel),
            decreases shares@.len() - i,
        {
            let share = &shares[i];
            assert(share@ == shares@.map_values(|s: Share| s@)[i as int]);
            assert(share@ == self@.share_manager.shares[i as int].1);
            assert(all.take(i + 1).drop_last() =~= all.take(i as int));
            proof {
                reveal(Seq::filter);
            }
            if share.remotes.len() == 0 || contains_text(&share.remotes, remote_name) {
                let offset: u16 = share.sftp_port - daemon.sftp_port_range_start;
                let remote_port: u16 = daemon.tunnel_port_range_start + offset;
                mappings.push(TunnelMapping { local_port: share.sftp_port, remote_port });
                assert(all.take(i + 1).filter(wanted) =~= all.take(i as int).filter(wanted).push(
                    share@,
                ));
            } else {
                assert(all.take(i + 1).filter(wanted) =~= all.take(i as int).filter(wanted));
            }
            assert(mappings@ =~= seq![control_mapping(daemon)] + all.take(i + 1).filter(
                wanted,
            ).map_values(tunnel));
            i += 1;
        }
        assert(all.take(i as int) =~= all);
        mappings
    }
}

// ---------------------------------------------------------------------------
// Connections
// ---------------------------------------------------------------------------

/// A connection that is about to be opened, or opened anew: the remote, the
/// tunnels, and the process that holds them open.
#[derive(Debug)]
pub struct TunnelStart {
    pub remote: Remote,
    pub tunnels: Vec<TunnelMapping>,
    pub process: ProcessConfig,
}

/// The contents of a [`TunnelStart`].
pub struct TunnelStartView {
    pub remote: RemoteView,
    pub tunnels: Seq<TunnelMapping>,
    pub process: ProcessView,
}

impl View for TunnelStart {
    type V = TunnelStartView;

    open spec fn view(&self) -> TunnelStartView {
        TunnelStartView {
            remote: self.remote@,
            tunnels: self.tunnels@,
            process: self.process@,
        }
    }
}

/// The contents of a list of connections.
pub open spec fn start_views(starts: Seq<TunnelStart>) -> Seq<TunnelStartView> {
    starts.map_values(|s: TunnelStart| s@)
}

/// The error for a remote that is not registered.
pub open spec fn no_remote(name: Seq<char>) -> ErrorView {
    ErrorView::Other("remote '"@ + name + "' not found"@)
}

/// The error for a remote that is connected already.
pub open spec fn connected_already(name: Seq<char>) -> ErrorView {
    ErrorView::Other("already connected to '"@ + name + "'"@)
}

/// The error for a remote that is not connected.
pub open spec fn not_connected(name: Seq<char>) -> ErrorView {
    ErrorView::Other("not connected to '"@ + name + "'"@)
}

/// The remotes, with another status of one of them.
pub open spec fn with_status(
    remotes: Seq<(Seq<char>, RemoteView)>,
    name: Seq<char>,
    status: ConnectionStatusView,
) -> Seq<(Seq<char>, RemoteView)> {
    match lookup(remotes, name) {
        Some(remote) => put(remotes, name, RemoteView { status, ..remote }),
        None => remotes,
    }
}

impl ClientView {
    /// The connection to a registered remote, with the tunnels that it needs.
    pub open spec fn start(self, name: Seq<char>) -> TunnelStartView {
        let remote = lookup(self.remotes, name)->Some_0;
        TunnelStartView {
            remote,
            tunnels: self.mappings(name),
            process: client_process(remote, self.mappings(name)),
        }
    }

    /// After a connection was opened.
    pub open spec fn connected(self, start: TunnelStartView) -> ClientView {
        let name = start.remote.name;
        ClientView {
            tunnel_handles: put(
                self.tunnel_handles,
                name,
                HandleView { remote_name: name, tunnels: start.tunnels },
            ),
            remotes: with_status(self.remotes, name, ConnectionStatusView::Connected),
            ..self
        }
    }

    /// After a connection was closed.
    pub open spec fn disconnected(self, name: Seq<char>) -> ClientView {
        ClientView {
            tunnel_handles: without(self.tunnel_handles, name),
            remotes: with_status(self.remotes, name, ConnectionStatusView::Disconnected),
            ..self
        }
    }

    /// After a connection was opened anew with other tunnels.
    pub open spec fn retunnelled(self, start: TunnelStartView) -> ClientView {
        let name = start.remote.name;
        match lookup(self.tunnel_handles, name) {
            Some(handle) => ClientView {
                tunnel_handles: put(
                    self.tunnel_handles,
                    name,
                    HandleView { tunnels: start.tunnels, ..handle },
                ),
                ..self
            },
            None => self,
        }
    }
}

proof fn lemma_with_status(
    remotes: Seq<(Seq<char>, RemoteView)>,
    name: Seq<char>,
    status: ConnectionStatusView,
)
    requires
        distinct(remotes),
        forall|i: int|
            0 <= i < remotes.len() ==> (#[trigger] remotes[i]).1.name == remotes[i].0,
    ensures
        distinct(with_status(remotes, name, status)),
        forall|i: int|
            0 <= i < with_status(remotes, name, status).len() ==> (#[trigger] with_status(
                remotes,
                name,
                status,
            )[i]).1.name == with_status(remotes, name, status)[i].0,
{
    if named(remotes, name) {
        let p = place(remotes, name);
        assert(remotes[p].0 == name);
        lookup_put(remotes, name, RemoteView { status, ..remotes[p].1 }, name);
    }
}

fn set_status(remotes: &mut NameMap<Remote>, name: &str, status: ConnectionStatus)
    ensures
        final(remotes)@ == with_status(old(remotes)@, name@, status@),
{
    let found = match remotes.get(name) {
        Some(remote) => Some(remote.clone()),
        None => None,
    };
    if let Some(remote) = found {
        let mut remote = remote;
        remote.status = status;
        remotes.insert(name.to_string(), remote);
    }
}

impl ClientState {
    fn start(&self, remote: Remote) -> (start: TunnelStart)
        requires
            self@.sound(),
        ensures
            start@.remote == remote@,
            start@.tunnels == self@.mappings(remote.name@),
            start@.process == client_process(remote@, self@.mappings(remote.name@)),
    {
        let tunnels = self.tunnel_mappings_for_remote(remote.name.as_str());
        let process = ChiselTunnelProvider.client_process(&remote, &tunnels);
        TunnelStart { remote, tunnels, process }
    }

    /// Prepares to connect to a remote: checks that it is registered and not
    /// connected, and that chisel is there.
    pub fn prepare_connect<F: Fn(&PathBuf) -> bool>(
        &self,
        remote_name: &str,
        dirs: &Vec<PathBuf>,
        is_file: F,
    ) -> (r: Result<TunnelStart, LazyMountError>)
        requires
            self@.sound(),
            forall|p: PathBuf| call_requires(is_file, (&p,)),
        ensures
            match r {
                Ok(start) => {
                    &&& named(self@.remotes, remote_name@)
                    &&& !named(self@.tunnel_handles, remote_name@)
                    &&& exists|t: PathBuf| found_at(is_file, "chisel"@, dirs@, t)
                    &&& start@ == self@.start(remote_name@)
                    &&& start@.remote.name == remote_name@
                },
                Err(e) => if !named(self@.remotes, remote_name@) {
                    e@ == no_remote(remote_name@)
                } else if named(self@.tunnel_handles, remote_name@) {
                    e@ == connected_already(remote_name@)
                } else {
                    found_nowhere(is_file, "chisel"@, dirs@) && e@ == missing("chisel"@)
                },
            },
    {
        let remote = match self.remotes.get(remote_name) {
            Some(remote) => remote.clone(),
            None => {
                return Err(LazyMountError::Other(quoted("remote '", remote_name, "' not found")));
            },
        };
        if self.tunnel_handles.contains(remote_name) {
            return Err(LazyMountError::Other(quoted("already connected to '", remote_name, "'")));
        }
        match check_binary("chisel", dirs, is_file) {
            Ok(_) => {},
            Err(e) => {
                return Err(e);
            },
        }
        proof {
            let p = place(self@.remotes, remote_name@);
            assert(self@.remotes[p].0 == remote_name@);
        }
        Ok(self.start(remote))
    }

    /// Notes a connection whose process has started.
    pub fn connect_to_remote(&mut self, start: &TunnelStart)
        ensures
            final(self)@ == old(self)@.connected(start@),
            old(self)@.sound() ==> final(self)@.sound(),
            old(self)@.wf() ==> final(self)@.wf(),
    {
        proof {
            let name = start@.remote.name;
            let handle = HandleView { remote_name: name, tunnels: start@.tunnels };
            if self@.sound() {
                lookup_put(self@.tunnel_handles, name, handle, name);
                lemma_with_status(self@.remotes, name, ConnectionStatusView::Connected);
            }
        }
        let handle = ChiselTunnelProvider.connect(&start.remote, &start.tunnels);
        self.tunnel_handles.insert(start.remote.name.clone(), handle);
        set_status(&mut self.remotes, start.remote.name.as_str(), ConnectionStatus::Connected);
    }

    /// Disconnects from a remote. Returns the connection that is to be closed.
    pub fn disconnect_from_remote(&mut self, remote_name: &str) -> (r: Result<
        TunnelClientHandle,
        LazyMountError,
    >)
        ensures
            match r {
                Ok(handle) => {
                    &&& lookup(old(self)@.tunnel_handles, remote_name@) == Some(handle@)
                    &&& final(self)@ == old(self)@.disconnected(remote_name@)
                },
                Err(e) => {
                    &&& e@ == not_connected(remote_name@)
                    &&& final(self)@ == old(self)@
                },
            },
            r is Ok == named(old(self)@.tunnel_handles, remote_name@),
            old(self)@.sound() ==> final(self)@.sound(),
            old(self)@.wf() ==> final(self)@.wf(),
    {
        let ghost before = self@;
        proof {
            if self@.sound() {
                lookup_without(self@.tunnel_handles, remote_name@, remote_name@);
                without_keeps_order(self@.tunnel_handles, remote_name@);
                lemma_with_status(
                    self@.remotes,
                    remote_name@,
                    ConnectionStatusView::Disconnected,
                );
            }
        }
        match self.tunnel_handles.remove(remote_name) {
            Some(handle) => {
                set_status(&mut self.remotes, remote_name, ConnectionStatus::Disconnected);
                Ok(handle)
            },
            None => {
                proof {
                    without_keeps_order(before.tunnel_handles, remote_name@);
                }
                Err(LazyMountError::Other(quoted("not connected to '", remote_name, "'")))
            },
        }
    }

    /// Notes the tunnels of a connection that has been opened anew.
    pub fn record_tunnels(&mut self, start: &TunnelStart)
        ensures
            final(self)@ == old(self)@.retunnelled(start@),
            old(self)@.sound() ==> final(self)@.sound(),
            old(self)@.wf() ==> final(self)@.wf(),
    {
        let ghost before = self@;
        let name = start.remote.name.clone();
        let found = match self.tunnel_handles.get(name.as_str()) {
            Some(handle) => Some(handle.clone()),
            None => None,
        };
        if let Some(handle) = found {
            let mut handle = handle;
            ChiselTunnelProvider.update_tunnels(&mut handle, &start.tunnels);
            proof {
                if before.sound() {
                    let p = place(before.tunnel_handles, name@);
                    assert(before.tunnel_handles[p].0 == name@);
                    lookup_put(before.tunnel_handles, name@, handle@, name@);
                }
            }
            self.tunnel_handles.insert(name, handle);
        }
    }
}

// ---------------------------------------------------------------------------
// Shares
// ---------------------------------------------------------------------------

impl ClientView {
    /// With one more share.
    pub open spec fn shared(self, share: ShareView) -> ClientView {
        ClientView {
            share_manager: self.share_manager.added(share),
            manifest: ManifestView {
                shares: self.manifest.shares.push(entry_of(self.config.daemon, share)),
                ..self.manifest
            },
            ..self
        }
    }

    /// Without a share.
    pub open spec fn unshared(self, name: Seq<char>) -> ClientView {
        ClientView {
            share_manager: self.share_manager.removed(name),
            manifest: ManifestView {
                shares: self.manifest.shares.filter(|e: EntryView| e.name != name),
                ..self.manifest
            },
            ..self
        }
    }

    /// After a port was taken for a share.
    pub open spec fn port_taken(self, port: u16) -> ClientView {
        ClientView { share_manager: self.share_manager.taken(port), ..self }
    }

    /// The open connections that are opened anew after a change that is meant
    /// for some remotes: those of remotes that are registered.
    pub open spec fn restarts(self, remotes: Seq<Seq<char>>) -> Seq<TunnelStartView> {
        keys(self.tunnel_handles).filter(
            |n: Seq<char>| meant_for(remotes, n) && named(self.remotes, n),
        ).map_values(|n: Seq<char>| self.start(n))
    }
}

proof fn lemma_entries_without(
    daemon: DaemonConfig,
    shares: Seq<(Seq<char>, ShareView)>,
    name: Seq<char>,
)
    requires
        forall|i: int| 0 <= i < shares.len() ==> (#[trigger] shares[i]).1.name == shares[i].0,
    ensures
        values(without(shares, name)).map_values(|s: ShareView| entry_of(daemon, s)) == values(
            shares,
        ).map_values(|s: ShareView| entry_of(daemon, s)).filter(|e: EntryView| e.name != name),
    decreases shares.len(),
{
    reveal(Seq::filter);
    let entry = |s: ShareView| entry_of(daemon, s);
    let other = |e: EntryView| e.name != name;
    if shares.len() > 0 {
        let front = shares.drop_last();
        let last = shares.last();
        assert forall|i: int| 0 <= i < front.len() implies (#[trigger] front[i]).1.name
            == front[i].0 by {
            assert(front[i] == shares[i]);
        }
        lemma_entries_without(daemon, front, name);
        assert(last == shares[shares.len() - 1]);
        let all = values(shares).map_values(entry);
        assert(all.drop_last() =~= values(front).map_values(entry));
        assert(all.last() == entry_of(daemon, last.1));
        if last.0 != name {
            assert(values(without(shares, name)).map_values(entry) =~= values(
                without(front, name),
            ).map_values(entry).push(entry_of(daemon, last.1)));
        } else {
            assert(without(shares, name) =~= without(front, name));
        }
    } else {
        assert(values(without(shares, name)).map_values(entry) =~= values(shares).map_values(
            entry,
        ).filter(other));
    }
}

pub(crate) proof fn lemma_shared(c: ClientView, share: ShareView)
    requires
        c.sound(),
        c.share_manager.ready_for(share),
        has_tunnel_port(c.config.daemon, share.sftp_port),
    ensures
        c.shared(share).sound(),
        c.wf() ==> c.shared(share).wf(),
        c.shared(share).shares() == c.shares().push(share),
{
    let n = c.shared(share);
    let daemon = c.config.daemon;
    adding_keeps_order(c.share_manager, share);
    assert(n.share_manager.shares =~= c.share_manager.shares.push((share.name, share)));
    assert(n.shares() =~= c.shares().push(share));
    assert(c.wf() ==> n.manifest.shares =~= n.shares().map_values(
        |s: ShareView| entry_of(daemon, s),
    ));
    assert forall|i: int| 0 <= i < n.share_manager.shares.len() implies has_tunnel_port(
        daemon,
        (#[trigger] n.share_manager.shares[i]).1.sftp_port,
    ) by {
        if i < c.share_manager.shares.len() {
            assert(n.share_manager.shares[i] == c.share_manager.shares[i]);
        }
    }
}

pub(crate) proof fn lemma_unshared(c: ClientView, name: Seq<char>)
    requires
        c.sound(),
    ensures
        c.unshared(name).sound(),
        c.wf() ==> c.unshared(name).wf(),
{
    let n = c.unshared(name);
    let daemon = c.config.daemon;
    removing_keeps_order(c.share_manager, name);
    lemma_entries_without(daemon, c.share_manager.shares, name);
    without_keeps_order(c.share_manager.shares, name);
    assert forall|i: int| 0 <= i < n.share_manager.shares.len() implies has_tunnel_port(
        daemon,
        (#[trigger] n.share_manager.shares[i]).1.sftp_port,
    ) by {
        let j = crate::names::place_before(c.share_manager.shares, name, i);
        assert(n.share_manager.shares[i] == c.share_manager.shares[j]);
    }
}

impl ClientState {
    fn restarts(&self, remotes: &Vec<String>) -> (starts: Vec<TunnelStart>)
        requires
            self@.sound(),
        ensures
            start_views(starts@) == self@.restarts(texts(remotes@)),
    {
        let mut starts: Vec<TunnelStart> = Vec::new();
        let n = self.tunnel_handles.len();
        let ghost all = keys(self@.tunnel_handles);
        let ghost wanted = |n: Seq<char>|
            meant_for(texts(remotes@), n) && named(self@.remotes, n);
        let ghost begin = |n: Seq<char>| self@.start(n);
        assert(all.take(0).filter(wanted) =~= Seq::empty()) by {
            reveal(Seq::filter);
        }
        assert(start_views(starts@) =~= all.take(0).filter(wanted).map_values(begin));
        let mut i: usize = 0;
        while i < n
            invariant
                i <= n,
                n == self@.tunnel_handles.len(),
                self@.sound(),
                all == keys(self@.tunnel_handles),
                wanted == (|n: Seq<char>|
                    meant_for(texts(remotes@), n) && named(self@.remotes, n)),
                begin == (|n: Seq<char>| self@.start(n)),
                start_views(starts@) == all.take(i as int).filter(wanted).map_values(begin),
            decreases n - i,
        {
            let name = self.tunnel_handles.name_at(i);
            assert(name@ == all[i as int]);
            assert(all.take(i + 1).drop_last() =~= all.take(i as int));
            proof {
                reveal(Seq::filter);
            }
            let ghost before = start_views(starts@);
            let found = self.remotes.get(name.as_str());
            let meant = remotes.len() == 0 || contains_text(remotes, name.as_str());
            assert(meant == meant_for(texts(remotes@), name@));
            if let (true, Some(remote)) = (meant, found) {
                proof {
                    let p = place(self@.remotes, name@);
                    assert(self@.remotes[p].0 == name@);
                }
                starts.push(self.start(remote.clone()));
                assert(all.take(i + 1).filter(wanted) =~= all.take(i as int).filter(wanted).push(
                    name@,
                ));
                assert(start_views(starts@) =~= before.push(self@.start(name@)));
            } else {
                assert(all.take(i + 1).filter(wanted) =~= all.take(i as int).filter(wanted));
            }
            assert(start_views(starts@) =~= all.take(i + 1).filter(wanted).map_values(begin));
            i += 1;
        }
        assert(all.take(i as int) =~= all);
        starts
    }

    /// Prepares to share a folder, in whose path `~` stands for the given home
    /// directory.
    pub fn prepare_share_in<
        E: Fn(&PathBuf) -> bool,
        F: Fn(&PathBuf) -> bool,
        G: Fn(u16) -> bool,
    >(
        &mut self,
        name: String,
        path: &str,
        remotes: Vec<String>,
        home: Option<PathBuf>,
        path_exists: E,
        dirs: &Vec<PathBuf>,
        is_file: F,
        is_available: G,
    ) -> (r: Result<ShareStart, LazyMountError>)
        requires
            forall|p: PathBuf| call_requires(path_exists, (&p,)),
            forall|p: PathBuf| call_requires(is_file, (&p,)),
            forall|p: u16| call_requires(is_available, (p,)),
            forall|full: PathBuf| #[trigger]
                expands(path@, home, full) && port_is_sought(
                    old(self)@.share_manager,
                    name@,
                    full,
                    path_exists,
                    dirs@,
                    is_file,
                ) ==> leaves_room(is_available, old(self)@.share_manager.next_sftp_port),
        ensures
            exists|full: PathBuf| #[trigger]
                expands(path@, home, full) && prepared(
                    old(self)@.share_manager,
                    new_share(name@, full, texts(remotes@), 0),
                    path_exists,
                    dirs@,
                    is_file,
                    is_available,
                    r,
                ),
            final(self)@ == match r {
                Ok(start) => old(self)@.port_taken(start.share.sftp_port),
                Err(_) => old(self)@,
            },
            old(self)@.sound() ==> final(self)@.sound(),
            old(self)@.wf() ==> final(self)@.wf(),
            old(self)@.sound() && r is Ok ==> final(self)@.share_manager.ready_for(
                r->Ok_0.share@,
            ),
    {
        let full = expand_tilde_in(path, home);
        self.share_manager.prepare_share(
            name,
            full,
            remotes,
            path_exists,
            dirs,
            is_file,
            is_available,
        )
    }

    /// Prepares to share a folder, in whose path `~` stands for the user's home
    /// directory.
    pub fn prepare_share<
        E: Fn(&PathBuf) -> bool,
        F: Fn(&PathBuf) -> bool,
        G: Fn(u16) -> bool,
    >(
        &mut self,
        name: String,
        path: &str,
        remotes: Vec<String>,
        path_exists: E,
        dirs: &Vec<PathBuf>,
        is_file: F,
        is_available: G,
    ) -> (r: Result<ShareStart, LazyMountError>)
        requires
            forall|p: PathBuf| call_requires(path_exists, (&p,)),
            forall|p: PathBuf| call_requires(is_file, (&p,)),
            forall|p: u16| call_requires(is_available, (p,)),
            forall|home: Option<PathBuf>, full: PathBuf| #[trigger]
                expands(path@, home, full) && port_is_sought(
                    old(self)@.share_manager,
                    name@,
                    full,
                    path_exists,
                    dirs@,
                    is_file,
                ) ==> leaves_room(is_available, old(self)@.share_manager.next_sftp_port),
        ensures
            exists|home: Option<PathBuf>, full: PathBuf| #[trigger]
                expands(path@, home, full) && prepared(
                    old(self)@.share_manager,
                    new_share(name@, full, texts(remotes@), 0),
                    path_exists,
                    dirs@,
                    is_file,
                    is_available,
                    r,
                ),
            final(self)@ == match r {
                Ok(start) => old(self)@.port_taken(start.share.sftp_port),
                Err(_) => old(self)@,
            },
            old(self)@.sound() ==> final(self)@.sound(),
            old(self)@.wf() ==> final(self)@.wf(),
            old(self)@.sound() && r is Ok ==> final(self)@.share_manager.ready_for(
                r->Ok_0.share@,
            ),
    {
        self.prepare_share_in(
            name,
            path,
            remotes,
            home_dir(),
            path_exists,
            dirs,
            is_file,
            is_available,
        )
    }

    /// Notes a share whose process has started, and lists it in the manifest.
    /// Returns the connections that have to be opened anew to carry it.
    pub fn add_share(&mut self, share: Share) -> (starts: Vec<TunnelStart>)
        requires
            old(self)@.sound(),
            old(self)@.share_manager.ready_for(share@),
            has_tunnel_port(old(self)@.config.daemon, share.sftp_port),
        ensures
            final(self)@ == old(self)@.shared(share@),
            final(self)@.sound(),
            old(self)@.wf() ==> final(self)@.wf(),
            start_views(starts@) == final(self)@.restarts(share@.remotes),
    {
        proof {
            lemma_shared(self@, share@);
        }
        let ghost before = self@;
        let remotes = clone_texts(&share.remotes);
        let offset: u16 = share.sftp_port - self.config.daemon.sftp_port_range_start;
        let tunneled_port: u16 = self.config.daemon.tunnel_port_range_start + offset;
        let entry = ShareManifestEntry { name: share.name.clone(), tunneled_port };
        let ghost listed = self.manifest.shares@;
        self.manifest.shares.push(entry);
        assert(entries(self.manifest.shares@) =~= entries(listed).push(entry@));
        self.share_manager.add_share(share);
        assert(self@ == before.shared(share@));
        self.restarts(&remotes)
    }

    /// Stops sharing a folder, and takes it off the manifest. Returns the
    /// connections that are opened anew without it.
    pub fn remove_share(&mut self, name: &str) -> (r: Result<Vec<TunnelStart>, LazyMountError>)
        requires
            old(self)@.sound(),
        ensures
            match r {
                Ok(starts) => {
                    &&& final(self)@ == old(self)@.unshared(name@)
                    &&& start_views(starts@) == final(self)@.restarts(Seq::empty())
                },
                Err(e) => e@ == no_share(name@) && final(self)@ == old(self)@,
            },
            r is Ok == named(old(self)@.share_manager.shares, name@),
            final(self)@.sound(),
            old(self)@.wf() ==> final(self)@.wf(),
    {
        let ghost before = self@;
        proof {
            lemma_unshared(self@, name@);
        }
        match self.share_manager.remove_share(name) {
            Ok(()) => {},
            Err(e) => {
                return Err(e);
            },
        }
        let kept = retain_others(&self.manifest.shares, name);
        self.manifest.shares = kept;
        assert(self@ == before.unshared(name@));
        let everyone: Vec<String> = Vec::new();
        assert(texts(everyone@) =~= Seq::<Seq<char>>::empty());
        Ok(self.restarts(&everyone))
    }
}

fn retain_others(shares: &Vec<ShareManifestEntry>, name: &str) -> (kept: Vec<ShareManifestEntry>)
    ensures
        entries(kept@) == entries(shares@).filter(|e: EntryView| e.name != name@),
{
    let mut kept: Vec<ShareManifestEntry> = Vec::new();
    let ghost all = entries(shares@);
    let ghost other = |e: EntryView| e.name != name@;
    assert(all.take(0).filter(other) =~= Seq::empty()) by {
        reveal(Seq::filter);
    }
    assert(entries(kept@) =~= all.take(0).filter(other));
    let mut i: usize = 0;
    while i < shares.len()
        invariant
            i <= shares@.len(),
            all == entries(shares@),
            other == (|e: EntryView| e.name != name@),
            entries(kept@) == all.take(i as int).filter(other),
        decreases shares@.len() - i,
    {
        assert(all[i as int] == shares@[i as int]@);
        assert(all.take(i + 1).drop_last() =~= all.take(i as int));
        proof {
            reveal(Seq::filter);
        }
        let ghost before = entries(kept@);
        if !same_text(shares[i].name.as_str(), name) {
            kept.push(shares[i].clone());
            assert(entries(kept@) =~= before.push(all[i as int]));
        }
        assert(entries(kept@) =~= all.take(i + 1).filter(other));
        i += 1;
    }
    assert(all.take(i as int) =~= all);
    kept
}

// ---------------------------------------------------------------------------
// Start and end
// ---------------------------------------------------------------------------

/// The name of this machine. Calls `hostname::get`, which asks the operating
/// system: nothing is claimed of what it finds. What is no Unicode text in it is
/// replaced by U+FFFD, as by `to_string_lossy`.
#[verifier::external_body]
fn host_name() -> (host: Option<String>) {
    hostname::get().ok().map(|name| name.to_string_lossy().into_owned())
}

/// The name under which a client offers its shares: that of its machine, where
/// it is known.
pub open spec fn client_name_of(host: Option<Seq<char>>) -> Seq<char> {
    match host {
        Some(name) => name,
        None => "unknown"@,
    }
}

/// The name under which a client on the given machine offers its shares.
pub fn client_name_on(host: Option<String>) -> (name: String)
    ensures
        name@ == client_name_of(opt_text(host)),
{
    match host {
        Some(name) => name,
        None => "unknown".to_string(),
    }
}

/// The name under which this client offers its shares.
pub fn client_name() -> (name: String)
    ensures
        exists|host: Option<Seq<char>>| name@ == #[trigger] client_name_of(host),
{
    client_name_on(host_name())
}

/// A remote as it is configured, not yet connected.
pub open spec fn remote_of(name: Seq<char>, config: RemoteConfigView) -> RemoteView {
    RemoteView {
        name,
        host: config.host,
        port: config.port,
        auth: config.auth,
        auto_connect: config.auto_connect,
        status: ConnectionStatusView::Disconnected,
    }
}

/// The state in which a client daemon starts.
pub open spec fn initial(config: ClientConfigView, client_name: Seq<char>) -> ClientView {
    ClientView {
        config,
        share_manager: SharesView {
            shares: Seq::empty(),
            next_sftp_port: config.daemon.sftp_port_range_start,
        },
        tunnel_handles: Seq::empty(),
        remotes: config.remotes.map_values(
            |e: (Seq<char>, RemoteConfigView)| (e.0, remote_of(e.0, e.1)),
        ),
        manifest: ManifestView { version: 1, client_name, shares: Seq::empty() },
    }
}

impl ClientView {
    /// Without any shares and connections. The manifest is as it was.
    pub open spec fn stopped(self) -> ClientView {
        ClientView {
            share_manager: SharesView { shares: Seq::empty(), ..self.share_manager },
            tunnel_handles: Seq::empty(),
            ..self
        }
    }
}

/// Whether a remote of that name is to be connected when the daemon starts.
pub open spec fn is_auto(remotes: Seq<(Seq<char>, RemoteView)>, name: Seq<char>) -> bool {
    exists|r: int|
        {
            &&& 0 <= r < remotes.len()
            &&& (#[trigger] remotes[r]).1.auto_connect
            &&& remotes[r].1.name == name
        }
}

/// A share that the configuration asks for: its name, its path, and the remotes
/// that it is meant for.
pub type SavedShare = (String, String, Vec<String>);

impl ClientState {
    /// The state in which a client daemon starts: the configured remotes are
    /// registered, none is connected, and nothing is shared.
    pub fn new(config: ClientConfig, client_name: String) -> (state: Self)
        ensures
            state@ == initial(config@, client_name@),
            state@.wf(),
    {
        let mut remotes: NameMap<Remote> = NameMap::new();
        let n = config.remotes.len();
        let ghost all = initial(config@, client_name@).remotes;
        assert(remotes@ =~= all.take(0));
        let mut i: usize = 0;
        while i < n
            invariant
                i <= n,
                n == config@.remotes.len(),
                distinct(config@.remotes),
                all == initial(config@, client_name@).remotes,
                distinct(remotes@),
                remotes@ == all.take(i as int),
            decreases n - i,
        {
            let name = config.remotes.name_at(i);
            let saved = config.remotes.value_at(i);
            let remote = Remote {
                name: name.clone(),
                host: saved.host.clone(),
                port: saved.port,
                auth: clone_opt(&saved.auth),
                auto_connect: saved.auto_connect,
                status: ConnectionStatus::Disconnected,
            };
            proof {
                assert(all[i as int] == (name@, remote@));
                if named(remotes@, name@) {
                    let p = place(remotes@, name@);
                    assert(remotes@[p].0 == name@);
                    assert(config@.remotes[p].0 == all[p].0);
                    assert(config@.remotes[i as int].0 == name@);
                }
            }
            remotes.insert(name.clone(), remote);
            assert(remotes@ =~= all.take(i + 1));
            i += 1;
        }
        assert(all.take(i as int) =~= all);
        let share_manager = ShareManager::new(config.daemon.sftp_port_range_start);
        let shares: Vec<ShareManifestEntry> = Vec::new();
        assert(entries(shares@) =~= Seq::<EntryView>::empty());
        let ghost none = Seq::<(Seq<char>, ShareView)>::empty();
        assert(values(none).map_values(|s: ShareView| entry_of(config.daemon, s)) =~= Seq::<
            EntryView,
        >::empty());
        let tunnel_handles: NameMap<TunnelClientHandle> = NameMap::new();
        ClientState {
            config,
            share_manager,
            tunnel_handles,
            remotes,
            manifest: ShareManifest { version: 1, client_name, shares },
        }
    }

    /// The remotes that are to be connected when the daemon starts, in order.
    pub fn auto_remotes(&self) -> (names: Vec<String>)
        ensures
            texts(names@) == values(self@.remotes).filter(
                |r: RemoteView| r.auto_connect,
            ).map_values(|r: RemoteView| r.name),
            forall|r: int|
                0 <= r < self@.remotes.len() && (#[trigger] self@.remotes[r]).1.auto_connect
                    ==> texts(names@).contains(self@.remotes[r].1.name),
            forall|k: int|
                0 <= k < names@.len() ==> is_auto(
                    self@.remotes,
                    (#[trigger] names@[k])@,
                ),
    {
        let mut names: Vec<String> = Vec::new();
        let n = self.remotes.len();
        let ghost all = values(self@.remotes);
        let ghost auto_connect = |r: RemoteView| r.auto_connect;
        let ghost name = |r: RemoteView| r.name;
        assert(all.take(0).filter(auto_connect) =~= Seq::empty()) by {
            reveal(Seq::filter);
        }
        assert(texts(names@) =~= all.take(0).filter(auto_connect).map_values(name));
        let mut i: usize = 0;
        while i < n
            invariant
                i <= n,
                n == self@.remotes.len(),
                all == values(self@.remotes),
                auto_connect == (|r: RemoteView| r.auto_connect),
                name == (|r: RemoteView| r.name),
                texts(names@) == all.take(i as int).filter(auto_connect).map_values(name),
            decreases n - i,
        {
            let remote = self.remotes.value_at(i);
            assert(remote@ == all[i as int]);
            assert(all.take(i + 1).drop_last() =~= all.take(i as int));
            proof {
                reveal(Seq::filter);
            }
            let ghost before = texts(names@);
            if remote.auto_connect {
                names.push(remote.name.clone());
                assert(all.take(i + 1).filter(auto_connect) =~= all.take(i as int).filter(
                    auto_connect,
                ).push(remote@));
                assert(texts(names@) =~= before.push(remote@.name));
            } else {
                assert(all.take(i + 1).filter(auto_connect) =~= all.take(i as int).filter(
                    auto_connect,
                ));
            }
            assert(texts(names@) =~= all.take(i + 1).filter(auto_connect).map_values(name));
            i += 1;
        }
        assert(all.take(i as int) =~= all);
        let ghost kept = all.filter(auto_connect);
        assert forall|r: int|
            0 <= r < self@.remotes.len() && (
            #[trigger] self@.remotes[r]).1.auto_connect implies texts(names@).contains(
            self@.remotes[r].1.name,
        ) by {
            assert(all[r] == self@.remotes[r].1);
            lemma_filter_holds(all, auto_connect, r);
            let k = choose|k: int| 0 <= k < kept.len() && kept[k] == all[r];
            assert(texts(names@)[k] == all[r].name);
        }
        assert forall|k: int| 0 <= k < names@.len() implies is_auto(
            self@.remotes,
            (#[trigger] names@[k])@,
        ) by {
            assert(texts(names@)[k] == names@[k]@);
            lemma_filter_from(all, auto_connect, k);
            let r = choose|r: int| 0 <= r < all.len() && kept[k] == #[trigger] all[r];
            assert(self@.remotes[r].1 == kept[k]);
        }
        names
    }

    /// The shares that the configuration asks for, in order.
    pub fn saved_shares(&self) -> (shares: Vec<SavedShare>)
        ensures
            shares@.map_values(|s: SavedShare| (s.0@, s.1@, texts(s.2@)))
                == self@.config.shares.map_values(
                |e: (Seq<char>, ShareConfigView)| (e.0, e.1.path, e.1.remotes),
            ),
            shares@.len() == self@.config.shares.len(),
            forall|i: int|
                0 <= i < shares@.len() ==> {
                    &&& (#[trigger] shares@[i]).0@ == self@.config.shares[i].0
                    &&& shares@[i].1@ == self@.config.shares[i].1.path
                    &&& texts(shares@[i].2@) == self@.config.shares[i].1.remotes
                },
    {
        let mut shares: Vec<SavedShare> = Vec::new();
        let n = self.config.shares.len();
        let mut i: usize = 0;
        while i < n
            invariant
                i <= n,
                n == self@.config.shares.len(),
                shares@.len() == i,
                forall|j: int|
                    0 <= j < i ==> {
                        let e = self@.config.shares[j];
                        &&& (#[trigger] shares@[j]).0@ == e.0
                        &&& shares@[j].1@ == e.1.path
                        &&& texts(shares@[j].2@) == e.1.remotes
                    },
            decreases n - i,
        {
            let saved = self.config.shares.value_at(i);
            shares.push(
                (
                    self.config.shares.name_at(i).clone(),
                    saved.path.clone(),
                    clone_texts(&saved.remotes),
                ),
            );
            i += 1;
        }
        assert(shares@.map_values(|s: SavedShare| (s.0@, s.1@, texts(s.2@)))
            =~= self@.config.shares.map_values(
            |e: (Seq<char>, ShareConfigView)| (e.0, e.1.path, e.1.remotes),
        ));
        shares
    }

    /// Stops all shares and closes all connections. Returns the names of the
    /// shares and those of the remotes, in order.
    pub fn shutdown(&mut self) -> (stopped: (Vec<String>, Vec<String>))
        ensures
            texts(stopped.0@) == keys(old(self)@.share_manager.shares),
            texts(stopped.1@) == keys(old(self)@.tunnel_handles),
            final(self)@ == old(self)@.stopped(),
            old(self)@.sound() ==> final(self)@.sound(),
    {
        let shares = self.share_manager.shutdown();
        let remotes = self.tunnel_handles.names();
        self.tunnel_handles = NameMap::new();
        (shares, remotes)
    }
}

// ---------------------------------------------------------------------------
// Requests
// ---------------------------------------------------------------------------

/// What the daemon does about a request.
#[derive(Debug, PartialEq)]
pub enum ClientTask {
    /// Answer.
    Reply(ControlResponse),
    /// Save the configuration, and answer by [`save_reply`].
    SaveAndReport,
    /// Save the configuration as well as can be, and answer.
    SaveAndReply(ControlResponse),
    /// Connect to a remote, and answer by [`outcome_reply`].
    Connect { remote: String },
    /// Disconnect from a remote, and answer by [`outcome_reply`].
    Disconnect { remote: String },
    /// Save the configuration as well as can be, share a folder, and answer by
    /// [`outcome_reply`].
    AddShare { name: String, path: String, remotes: Vec<String> },
    /// Save the configuration as well as can be, stop sharing a folder, and
    /// answer by [`outcome_reply`].
    RemoveShare { name: String },
    /// End the processes of these shares and of the connections to these remotes,
    /// answer, and stop.
    Stop { response: ControlResponse, shares: Vec<String>, remotes: Vec<String> },
}

/// The contents of a [`ClientTask`].
pub enum TaskView {
    Reply(ResponseView),
    SaveAndReport,
    SaveAndReply(ResponseView),
    Connect { remote: Seq<char> },
    Disconnect { remote: Seq<char> },
    AddShare { name: Seq<char>, path: Seq<char>, remotes: Seq<Seq<char>> },
    RemoveShare { name: Seq<char> },
    Stop { response: ResponseView, shares: Seq<Seq<char>>, remotes: Seq<Seq<char>> },
}

impl View for ClientTask {
    type V = TaskView;

    open spec fn view(&self) -> TaskView {
        match self {
            ClientTask::Reply(response) => TaskView::Reply(response@),
            ClientTask::SaveAndReport => TaskView::SaveAndReport,
            ClientTask::SaveAndReply(response) => TaskView::SaveAndReply(response@),
            ClientTask::Connect { remote } => TaskView::Connect { remote: remote@ },
            ClientTask::Disconnect { remote } => TaskView::Disconnect { remote: remote@ },
            ClientTask::AddShare { name, path, remotes } => TaskView::AddShare {
                name: name@,
                path: path@,
                remotes: texts(remotes@),
            },
            ClientTask::RemoveShare { name } => TaskView::RemoveShare { name: name@ },
            ClientTask::Stop { response, shares, remotes } => TaskView::Stop {
                response: response@,
                shares: texts(shares@),
                remotes: texts(remotes@),
            },
        }
    }
}

/// The answer to a request that has been carried out: that it is done, or what
/// went wrong.
pub fn outcome_reply(outcome: Result<(), LazyMountError>) -> (response: ControlResponse)
    ensures
        response@ == match outcome {
            Ok(()) => ResponseView::Done,
            Err(e) => ResponseView::Error { message: e@.message() },
        },
{
    match outcome {
        Ok(()) => ControlResponse::Done,
        Err(e) => ControlResponse::Error { message: e.message() },
    }
}

/// The answer after the configuration was saved, or was not.
pub fn save_reply(outcome: Result<(), LazyMountError>) -> (response: ControlResponse)
    ensures
        response@ == match outcome {
            Ok(()) => ResponseView::Done,
            Err(e) => ResponseView::Error {
                message: "saved in memory but failed to persist config: "@ + e@.message(),
            },
        },
{
    match outcome {
        Ok(()) => ControlResponse::Done,
        Err(e) => {
            let mut message = "saved in memory but failed to persist config: ".to_string();
            message.append(e.message().as_str());
            ControlResponse::Error { message }
        },
    }
}

/// A remote as it is listed.
pub open spec fn remote_info(remote: RemoteView) -> RemoteInfoView {
    RemoteInfoView {
        name: remote.name,
        host: remote.host,
        port: remote.port,
        status: remote.status.label(),
    }
}

/// A share as it is listed.
pub open spec fn share_info(share: ShareView) -> ShareInfoView {
    ShareInfoView {
        name: share.name,
        path: path_text(share.path),
        remotes: share.remotes,
        status: share.status.label(),
    }
}

/// The remotes that a request to share names: one, or none for all.
pub open spec fn remotes_asked(remote: Option<Seq<char>>) -> Seq<Seq<char>> {
    match remote {
        Some(r) => seq![r],
        None => Seq::empty(),
    }
}

/// The answer to a request for the status of a client.
pub open spec fn client_status(c: ClientView) -> ResponseView {
    ResponseView::Status {
        role: "client"@,
        running: true,
        details: decimal(c.tunnel_handles.len()) + " connection(s), "@ + decimal(
            c.share_manager.shares.len(),
        ) + " share(s)"@,
    }
}

/// What a client does about a request.
pub open spec fn client_task(c: ClientView, request: RequestView) -> TaskView {
    match request {
        RequestView::Status => TaskView::Reply(client_status(c)),
        RequestView::Shutdown => TaskView::Stop {
            response: ResponseView::Done,
            shares: keys(c.share_manager.shares),
            remotes: keys(c.tunnel_handles),
        },
        RequestView::RemoteAdd { name, host, port, auth } => TaskView::SaveAndReport,
        RequestView::RemoteRemove { name } => if named(c.remotes, name) {
            TaskView::SaveAndReply(ResponseView::Done)
        } else {
            TaskView::Reply(ResponseView::Error { message: no_remote(name).message() })
        },
        RequestView::RemoteList => TaskView::Reply(
            ResponseView::RemoteList {
                remotes: values(c.remotes).map_values(|r: RemoteView| remote_info(r)),
            },
        ),
        RequestView::Connect { remote } => TaskView::Connect { remote },
        RequestView::Disconnect { remote } => TaskView::Disconnect { remote },
        RequestView::ShareAdd { name, path, remote } => TaskView::AddShare {
            name,
            path,
            remotes: remotes_asked(remote),
        },
        RequestView::ShareRemove { name } => TaskView::RemoveShare { name },
        RequestView::ShareList => TaskView::Reply(
            ResponseView::ShareList {
                shares: c.shares().map_values(|s: ShareView| share_info(s)),
            },
        ),
        RequestView::MountList => TaskView::Reply(
            ResponseView::Error { message: "command not supported on client"@ },
        ),
        RequestView::MountStats { share_name } => TaskView::Reply(
            ResponseView::Error { message: "command not supported on client"@ },
        ),
    }
}

impl ClientView {
    /// With one more remote, or another one under its name.
    pub open spec fn with_remote(self, name: Seq<char>, config: RemoteConfigView) -> ClientView {
        ClientView {
            remotes: put(self.remotes, name, remote_of(name, config)),
            config: ClientConfigView {
                remotes: put(self.config.remotes, name, config),
                ..self.config
            },
            ..self
        }
    }

    /// Without a remote.
    pub open spec fn without_remote(self, name: Seq<char>) -> ClientView {
        ClientView {
            remotes: without(self.remotes, name),
            config: ClientConfigView {
                remotes: without(self.config.remotes, name),
                ..self.config
            },
            ..self
        }
    }

    /// With other configured shares.
    pub open spec fn with_saved(self, shares: Seq<(Seq<char>, ShareConfigView)>) -> ClientView {
        ClientView { config: ClientConfigView { shares, ..self.config }, ..self }
    }
}

/// The state after the task for a request was decided: remotes are registered or
/// not, the configuration has what is to be saved, and nothing is shared or
/// connected where the client is to stop.
pub open spec fn client_after(c: ClientView, request: RequestView) -> ClientView {
    match request {
        RequestView::RemoteAdd { name, host, port, auth } => c.with_remote(
            name,
            RemoteConfigView { host, port, auth, auto_connect: false },
        ),
        RequestView::RemoteRemove { name } => if named(c.remotes, name) {
            c.without_remote(name)
        } else {
            c
        },
        RequestView::ShareAdd { name, path, remote } => c.with_saved(
            put(c.config.shares, name, ShareConfigView { path, remotes: remotes_asked(remote) }),
        ),
        RequestView::ShareRemove { name } => c.with_saved(without(c.config.shares, name)),
        RequestView::Shutdown => c.stopped(),
        _ => c,
    }
}

proof fn lemma_after(c: ClientView, request: RequestView)
    requires
        c.sound(),
    ensures
        client_after(c, request).sound(),
        c.wf() && !(request is Shutdown) ==> client_after(c, request).wf(),
{
    match request {
        RequestView::RemoteAdd { name, host, port, auth } => {
            let config = RemoteConfigView { host, port, auth, auto_connect: false };
            lookup_put(c.remotes, name, remote_of(name, config), name);
        },
        RequestView::RemoteRemove { name } => {
            lookup_without(c.remotes, name, name);
            without_keeps_order(c.remotes, name);
        },
        _ => {},
    }
}

impl ClientState {
    fn remote_infos(&self) -> (infos: Vec<RemoteInfo>)
        ensures
            infos@.map_values(|r: RemoteInfo| r@) == values(self@.remotes).map_values(
                |r: RemoteView| remote_info(r),
            ),
    {
        let mut infos: Vec<RemoteInfo> = Vec::new();
        let n = self.remotes.len();
        let mut i: usize = 0;
        while i < n
            invariant
                i <= n,
                n == self@.remotes.len(),
                infos@.len() == i,
                forall|j: int|
                    0 <= j < i ==> #[trigger] infos@[j]@ == remote_info(self@.remotes[j].1),
            decreases n - i,
        {
            let remote = self.remotes.value_at(i);
            infos.push(
                RemoteInfo {
                    name: remote.name.clone(),
                    host: remote.host.clone(),
                    port: remote.port,
                    status: remote.status.label(),
                },
            );
            i += 1;
        }
        assert(infos@.map_values(|r: RemoteInfo| r@) =~= values(self@.remotes).map_values(
            |r: RemoteView| remote_info(r),
        ));
        infos
    }

    fn share_infos(&self) -> (infos: Vec<ShareInfo>)
        ensures
            infos@.map_values(|s: ShareInfo| s@) == self@.shares().map_values(
                |s: ShareView| share_info(s),
            ),
    {
        let mut infos: Vec<ShareInfo> = Vec::new();
        let shares = self.share_manager.list_shares();
        let ghost all = self@.shares();
        let mut i: usize = 0;
        while i < shares.len()
            invariant
                i <= shares@.len(),
                shares@.map_values(|s: Share| s@) == all,
                infos@.len() == i,
                forall|j: int| 0 <= j < i ==> #[trigger] infos@[j]@ == share_info(all[j]),
            decreases shares@.len() - i,
        {
            let share = &shares[i];
            assert(share@ == shares@.map_values(|s: Share| s@)[i as int]);
            infos.push(
                ShareInfo {
                    name: share.name.clone(),
                    path: text_of(&share.path),
                    remotes: clone_texts(&share.remotes),
                    status: share.status.label(),
                },
            );
            i += 1;
        }
        assert(shares@.map_values(|s: Share| s@).len() == shares@.len());
        assert(infos@.map_values(|s: ShareInfo| s@) =~= all.map_values(
            |s: ShareView| share_info(s),
        ));
        infos
    }
}

/// Decides what to do about a control request on the client side. Remotes are
/// registered and removed, what is to be saved is noted in the configuration, and
/// where the client is to stop all shares and connections are taken out, at once.
pub fn handle_client_request(request: ControlRequest, state: &mut ClientState) -> (task: ClientTask)
    ensures
        task@ == client_task(old(state)@, request@),
        final(state)@ == client_after(old(state)@, request@),
        old(state)@.sound() ==> final(state)@.sound(),
        old(state)@.wf() && !(request is Shutdown) ==> final(state)@.wf(),
{
    proof {
        if state@.sound() {
            lemma_after(state@, request@);
        }
    }
    match request {
        ControlRequest::Status => {
            let connected = state.tunnel_handles.len();
            let shares = state.share_manager.len();
            let mut details = decimal_text(connected as u64);
            details.append(" connection(s), ");
            details.append(decimal_text(shares as u64).as_str());
            details.append(" share(s)");
            ClientTask::Reply(
                ControlResponse::Status { role: "client".to_string(), running: true, details },
            )
        },
        ControlRequest::RemoteAdd { name, host, port, auth } => {
            let config = RemoteConfig {
                host: host.clone(),
                port,
                auth: clone_opt(&auth),
                auto_connect: false,
            };
            let remote = Remote {
                name: name.clone(),
                host,
                port,
                auth,
                auto_connect: false,
                status: ConnectionStatus::Disconnected,
            };
            state.remotes.insert(name.clone(), remote);
            state.config.remotes.insert(name, config);
            ClientTask::SaveAndReport
        },
        ControlRequest::RemoteRemove { name } => {
            let ghost before = state@;
            match state.remotes.remove(name.as_str()) {
                Some(_) => {
                    let _ = state.config.remotes.remove(name.as_str());
                    ClientTask::SaveAndReply(ControlResponse::Done)
                },
                None => {
                    proof {
                        without_keeps_order(before.remotes, name@);
                    }
                    ClientTask::Reply(
                        ControlResponse::Error {
                            message: quoted("remote '", name.as_str(), "' not found"),
                        },
                    )
                },
            }
        },
        ControlRequest::RemoteList => ClientTask::Reply(
            ControlResponse::RemoteList { remotes: state.remote_infos() },
        ),
        ControlRequest::Connect { remote } => ClientTask::Connect { remote },
        ControlRequest::Disconnect { remote } => ClientTask::Disconnect { remote },
        ControlRequest::ShareAdd { name, path, remote } => {
            let mut remotes: Vec<String> = Vec::new();
            let ghost asked = remotes_asked(opt_text(remote));
            if let Some(r) = remote {
                remotes.push(r);
            }
            assert(texts(remotes@) =~= asked);
            state.config.shares.insert(
                name.clone(),
                ShareConfig { path: path.clone(), remotes: clone_texts(&remotes) },
            );
            ClientTask::AddShare { name, path, remotes }
        },
        ControlRequest::ShareRemove { name } => {
            let _ = state.config.shares.remove(name.as_str());
            ClientTask::RemoveShare { name }
        },
        ControlRequest::ShareList => ClientTask::Reply(
            ControlResponse::ShareList { shares: state.share_infos() },
        ),
        ControlRequest::Shutdown => {
            let (shares, remotes) = state.shutdown();
            ClientTask::Stop { response: ControlResponse::Done, shares, remotes }
        },
        ControlRequest::MountList | ControlRequest::MountStats { .. } => ClientTask::Reply(
            ControlResponse::Error { message: "command not supported on client".to_string() },
        ),
    }
}

} // verus!
