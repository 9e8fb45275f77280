//! What holds of the client daemon as a whole.

use crate::client::{
    client_after, client_name_of, client_task, connected_already, has_tunnel_port, initial,
    lemma_shared, lemma_unshared, mapping_of, meant_for, no_remote, not_connected, remote_of,
    remotes_asked, start_views, tunnel_port, with_status, ClientState, ClientTask, ClientView,
    TaskView, TunnelStart, TunnelStartView,
};
use crate::config::{ClientConfigView, DaemonConfig, RemoteConfigView, ShareConfigView};
use crate::mounts::MountsView;
use crate::names::{
    distinct, keys, lemma_filter_from, lemma_filter_holds, lookup, lookup_entry, lookup_put,
    lookup_without, named, place, put_then_without, without_keeps_order,
};
use crate::paths::path_text;
use crate::protocol::{EntryView, RequestView, ResponseView};
use crate::server::{
    all_of, all_unmounted, may_take_all, reconciled, reconciled_mounts_match, to_mount, to_unmount,
};
use crate::shares::{add_then_remove, ports_differ};
use crate::text::decimal;
use crate::tunnel::HandleView;
use crate::types::{
    ConnectionStatusView, RemoteView, ShareStatusView, ShareView, TunnelMapping,
};
use std::path::PathBuf;
use vstd::prelude::*;

verus! {

/// No two shares are reached at the same tunnel port.
pub proof fn tunnel_ports_differ(c: ClientView, i: int, j: int)
    requires
        c.wf(),
        0 <= i < c.manifest.shares.len(),
        0 <= j < c.manifest.shares.len(),
        i != j,
    ensures
        c.manifest.shares[i].tunneled_port != c.manifest.shares[j].tunneled_port,
{
    ports_differ(c.share_manager, i, j);
    assert(has_tunnel_port(c.config.daemon, c.share_manager.shares[i].1.sftp_port));
    assert(has_tunnel_port(c.config.daemon, c.share_manager.shares[j].1.sftp_port));
}

/// The manifest lists a name exactly where a share has it.
pub proof fn manifest_lists_shares(c: ClientView, name: Seq<char>)
    requires
        c.wf(),
    ensures
        named(c.share_manager.shares, name) == exists|i: int|
            0 <= i < c.manifest.shares.len() && (#[trigger] c.manifest.shares[i]).name == name,
{
    let shares = c.share_manager.shares;
    if named(shares, name) {
        let p = place(shares, name);
        assert(shares[p].0 == name);
        assert(c.manifest.shares[p].name == name);
    }
    if exists|i: int|
        0 <= i < c.manifest.shares.len() && (#[trigger] c.manifest.shares[i]).name == name {
        let i = choose|i: int|
            0 <= i < c.manifest.shares.len() && (#[trigger] c.manifest.shares[i]).name == name;
        assert(shares[i].1.name == name);
        assert(shares[i].0 == name);
    }
}

/// A remote has a tunnel to every share that is meant for it, from the port at
/// which the manifest lists the share to the port at which it is served.
pub proof fn meant_shares_are_tunnelled(c: ClientView, remote: Seq<char>, i: int)
    requires
        c.wf(),
        0 <= i < c.shares().len(),
        meant_for(c.shares()[i].remotes, remote),
    ensures
        c.mappings(remote).contains(
            (TunnelMapping {
                local_port: c.shares()[i].sftp_port,
                remote_port: c.manifest.shares[i].tunneled_port,
            }),
        ),
{
    let daemon = c.config.daemon;
    let wanted = |s: ShareView| meant_for(s.remotes, remote);
    let tunnel = |s: ShareView| mapping_of(daemon, s);
    lemma_filter_holds(c.shares(), wanted, i);
    let kept = c.shares().filter(wanted);
    let j = choose|j: int| 0 <= j < kept.len() && kept[j] == c.shares()[i];
    assert(c.mappings(remote)[j + 1] == mapping_of(daemon, c.shares()[i]));
}

/// Besides the control channel, a remote has tunnels only to shares that are
/// meant for it.
pub proof fn only_meant_shares_are_tunnelled(c: ClientView, remote: Seq<char>, k: int)
    requires
        1 <= k < c.mappings(remote).len(),
    ensures
        exists|i: int|
            {
                &&& 0 <= i < c.shares().len()
                &&& meant_for((#[trigger] c.shares()[i]).remotes, remote)
                &&& c.mappings(remote)[k] == mapping_of(c.config.daemon, c.shares()[i])
            },
{
    let wanted = |s: ShareView| meant_for(s.remotes, remote);
    lemma_filter_from(c.shares(), wanted, k - 1);
}

/// Connecting to a remote that is not connected, and then disconnecting from it,
/// leaves everything as it was.
pub proof fn connect_then_disconnect(c: ClientView, name: Seq<char>)
    requires
        c.wf(),
        !named(c.tunnel_handles, name),
        lookup(c.remotes, name) matches Some(r) && r.status == ConnectionStatusView::Disconnected,
    ensures
        c.connected(c.start(name)).disconnected(name) == c,
{
    let p = place(c.remotes, name);
    assert(c.remotes[p].0 == name);
    let remote = c.remotes[p].1;
    let n = c.connected(c.start(name));
    put_then_without(
        c.tunnel_handles,
        name,
        HandleView { remote_name: name, tunnels: c.mappings(name) },
    );
    let up = RemoteView { status: ConnectionStatusView::Connected, ..remote };
    lookup_put(c.remotes, name, up, name);
    assert(n.remotes[p] == (name, up));
    lookup_entry(n.remotes, p);
    assert(n.disconnected(name).remotes =~= c.remotes);
}

/// A share that is added and then removed leaves everything as it was.
pub proof fn share_then_unshare(c: ClientView, share: ShareView)
    requires
        c.wf(),
        c.share_manager.ready_for(share),
        has_tunnel_port(c.config.daemon, share.sftp_port),
    ensures
        c.shared(share).unshared(share.name) == c,
{
    let n = c.shared(share);
    lemma_shared(c, share);
    add_then_remove(c.share_manager, share);
    lemma_unshared(n, share.name);
    assert(n.unshared(share.name).share_manager == c.share_manager);
    assert(n.unshared(share.name).manifest.shares == c.manifest.shares);
}

/// A remote that is registered under a new name and then removed leaves
/// everything as it was.
pub proof fn register_then_remove(c: ClientView, name: Seq<char>, config: RemoteConfigView)
    requires
        c.wf(),
        distinct(c.config.remotes),
        !named(c.remotes, name),
        !named(c.config.remotes, name),
    ensures
        c.with_remote(name, config).without_remote(name) == c,
{
    put_then_without(c.remotes, name, remote_of(name, config));
    put_then_without(c.config.remotes, name, config);
}

/// A remote that a new share is not meant for needs the same tunnels as before.
pub proof fn others_keep_tunnels(c: ClientView, share: ShareView, remote: Seq<char>)
    requires
        c.wf(),
        c.share_manager.ready_for(share),
        has_tunnel_port(c.config.daemon, share.sftp_port),
        !meant_for(share.remotes, remote),
    ensures
        c.shared(share).mappings(remote) == c.mappings(remote),
{
    lemma_shared(c, share);
    reveal(Seq::filter);
    let n = c.shared(share);
    let wanted = |s: ShareView| meant_for(s.remotes, remote);
    assert(n.shares().drop_last() =~= c.shares());
    assert(n.shares().filter(wanted) =~= c.shares().filter(wanted));
}

impl ClientView {
    /// Whether every connection to a registered remote has the tunnels that the
    /// remote needs.
    pub open spec fn current(self) -> bool {
        forall|i: int|
            0 <= i < self.tunnel_handles.len() && named(
                self.remotes,
                (#[trigger] self.tunnel_handles[i]).0,
            ) ==> self.tunnel_handles[i].1.tunnels == self.mappings(self.tunnel_handles[i].0)
    }

    /// After connections were opened anew, one by one.
    pub open spec fn all_retunnelled(self, starts: Seq<TunnelStartView>) -> ClientView
        decreases starts.len(),
    {
        if starts.len() == 0 {
            self
        } else {
            self.all_retunnelled(starts.drop_last()).retunnelled(starts.last())
        }
    }
}

proof fn lemma_all_retunnelled(c: ClientView, names: Seq<Seq<char>>)
    requires
        c.wf(),
        forall|k: int| 0 <= k < names.len() ==> named(c.remotes, #[trigger] names[k]),
    ensures
        ({
            let n = c.all_retunnelled(names.map_values(|n: Seq<char>| c.start(n)));
            &&& n == (ClientView { tunnel_handles: n.tunnel_handles, ..c })
            &&& n.wf()
            &&& n.tunnel_handles.len() == c.tunnel_handles.len()
            &&& forall|i: int|
                0 <= i < c.tunnel_handles.len() ==> (#[trigger] n.tunnel_handles[i]).0
                    == c.tunnel_handles[i].0 && n.tunnel_handles[i].1.tunnels == if names.contains(
                    c.tunnel_handles[i].0,
                ) {
                    c.mappings(c.tunnel_handles[i].0)
                } else {
                    c.tunnel_handles[i].1.tunnels
                }
        }),
    decreases names.len(),
{
    let begin = |n: Seq<char>| c.start(n);
    let starts = names.map_values(begin);
    let n = c.all_retunnelled(starts);
    if names.len() > 0 {
        let front = names.drop_last();
        let last = names.last();
        assert forall|k: int| 0 <= k < front.len() implies named(c.remotes, #[trigger] front[k]) by {
            assert(front[k] == names[k]);
        }
        lemma_all_retunnelled(c, front);
        assert(starts.drop_last() =~= front.map_values(begin));
        let m = c.all_retunnelled(front.map_values(begin));
        assert(last == names[names.len() - 1]);
        let q = place(c.remotes, last);
        assert(c.remotes[q].0 == last);
        assert(starts.last() == c.start(last));
        assert(c.start(last).remote.name == last);
        assert forall|x: Seq<char>| names.contains(x) == (front.contains(x) || x == last) by {
            if front.contains(x) {
                let k = choose|k: int| 0 <= k < front.len() && front[k] == x;
                assert(names[k] == x);
            }
            if names.contains(x) && x != last {
                let k = choose|k: int| 0 <= k < names.len() && names[k] == x;
                assert(front[k] == x);
            }
        }
        if named(m.tunnel_handles, last) {
            let p = place(m.tunnel_handles, last);
            assert(m.tunnel_handles[p].0 == last);
            let handle = HandleView { tunnels: c.mappings(last), ..m.tunnel_handles[p].1 };
            lookup_put(m.tunnel_handles, last, handle, last);
            assert forall|i: int| 0 <= i < c.tunnel_handles.len() && i != p implies (
            #[trigger] n.tunnel_handles[i]).0 != last by {
                assert(n.tunnel_handles[i] == m.tunnel_handles[i]);
                lookup_entry(m.tunnel_handles, i);
            }
        } else {
            assert forall|i: int| 0 <= i < c.tunnel_handles.len() implies (
            #[trigger] n.tunnel_handles[i]).0 != last by {
                assert(n.tunnel_handles[i] == m.tunnel_handles[i]);
            }
        }
    } else {
        assert(starts =~= Seq::empty());
    }
}

proof fn lemma_restarted(c: ClientView, remotes: Seq<Seq<char>>)
    requires
        c.wf(),
        forall|i: int|
            0 <= i < c.tunnel_handles.len() && named(
                c.remotes,
                (#[trigger] c.tunnel_handles[i]).0,
            ) && !meant_for(remotes, c.tunnel_handles[i].0) ==> c.tunnel_handles[i].1.tunnels
                == c.mappings(c.tunnel_handles[i].0),
    ensures
        c.all_retunnelled(c.restarts(remotes)).current(),
        c.all_retunnelled(c.restarts(remotes)).wf(),
{
    let all = keys(c.tunnel_handles);
    let wanted = |n: Seq<char>| meant_for(remotes, n) && named(c.remotes, n);
    let names = all.filter(wanted);
    assert forall|k: int| 0 <= k < names.len() implies named(c.remotes, #[trigger] names[k]) by {
        lemma_filter_from(all, wanted, k);
    }
    lemma_all_retunnelled(c, names);
    let n = c.all_retunnelled(c.restarts(remotes));
    assert forall|i: int|
        0 <= i < n.tunnel_handles.len() && named(
            n.remotes,
            (#[trigger] n.tunnel_handles[i]).0,
        ) implies n.tunnel_handles[i].1.tunnels == n.mappings(n.tunnel_handles[i].0) by {
        let name = c.tunnel_handles[i].0;
        assert(n.mappings(name) == c.mappings(name));
        assert(all[i] == name);
        if meant_for(remotes, name) {
            lemma_filter_holds(all, wanted, i);
        }
    }
}

/// Where all connections are current, they are so again once a new share was
/// added and the connections that have to be were opened anew.
pub proof fn sharing_keeps_current(c: ClientView, share: ShareView)
    requires
        c.wf(),
        c.current(),
        c.share_manager.ready_for(share),
        has_tunnel_port(c.config.daemon, share.sftp_port),
    ensures
        ({
            let n = c.shared(share);
            n.all_retunnelled(n.restarts(share.remotes)).current()
        }),
{
    lemma_shared(c, share);
    let n = c.shared(share);
    assert forall|i: int|
        0 <= i < n.tunnel_handles.len() && named(n.remotes, (#[trigger] n.tunnel_handles[i]).0)
            && !meant_for(
            share.remotes,
            n.tunnel_handles[i].0,
        ) implies n.tunnel_handles[i].1.tunnels == n.mappings(n.tunnel_handles[i].0) by {
        others_keep_tunnels(c, share, n.tunnel_handles[i].0);
        assert(c.tunnel_handles[i].1.tunnels == c.mappings(c.tunnel_handles[i].0));
    }
    lemma_restarted(n, share.remotes);
}

/// All connections are current once a share was removed and the connections
/// that have to be were opened anew.
pub proof fn unsharing_makes_current(c: ClientView, name: Seq<char>)
    requires
        c.wf(),
    ensures
        ({
            let n = c.unshared(name);
            n.all_retunnelled(n.restarts(Seq::empty())).current()
        }),
{
    lemma_unshared(c, name);
    lemma_restarted(c.unshared(name), Seq::empty());
}

/// Where all connections are current, they are so with a new one too.
pub proof fn connecting_keeps_current(c: ClientView, name: Seq<char>)
    requires
        c.wf(),
        c.current(),
        named(c.remotes, name),
        !named(c.tunnel_handles, name),
    ensures
        c.connected(c.start(name)).current(),
{
    let p = place(c.remotes, name);
    assert(c.remotes[p].0 == name);
    let n = c.connected(c.start(name));
    let up = RemoteView { status: ConnectionStatusView::Connected, ..c.remotes[p].1 };
    assert forall|i: int|
        0 <= i < n.tunnel_handles.len() && named(
            n.remotes,
            (#[trigger] n.tunnel_handles[i]).0,
        ) implies n.tunnel_handles[i].1.tunnels == n.mappings(n.tunnel_handles[i].0) by {
        let other = n.tunnel_handles[i].0;
        lookup_put(c.remotes, name, up, other);
        assert(n.mappings(other) == c.mappings(other));
        if i < c.tunnel_handles.len() {
            assert(c.tunnel_handles[i].1.tunnels == c.mappings(c.tunnel_handles[i].0));
        }
    }
}

/// A server whose mounts were reconciled with this client's manifest has each at
/// a port from which, where the share is meant for that server, a tunnel leads to
/// the port at which the client serves it.
pub proof fn mounted_shares_are_reached(
    c: ClientView,
    remote: Seq<char>,
    m: MountsView,
    unmount: Seq<Seq<char>>,
    places: Seq<(u16, PathBuf)>,
    i: int,
)
    requires
        c.wf(),
        m.wf(),
        all_of(m, c.manifest.client_name),
        to_unmount(m, c.manifest, unmount),
        may_take_all(
            all_unmounted(m, c.manifest.client_name, unmount),
            c.manifest.client_name,
            to_mount(m, c.manifest),
            places,
        ),
        0 <= i < reconciled(m, c.manifest, unmount, places).mounts.len(),
    ensures
        ({
            let mount = reconciled(m, c.manifest, unmount, places).mounts[i].1;
            exists|k: int|
                {
                    &&& 0 <= k < c.shares().len()
                    &&& (#[trigger] c.shares()[k]).name == mount.share_name
                    &&& meant_for(c.shares()[k].remotes, remote) ==> c.mappings(remote).contains(
                        (TunnelMapping {
                            local_port: c.shares()[k].sftp_port,
                            remote_port: mount.tunneled_port,
                        }),
                    )
                }
        }),
{
    let mount = reconciled(m, c.manifest, unmount, places).mounts[i].1;
    let entry = EntryView { name: mount.share_name, tunneled_port: mount.tunneled_port };
    reconciled_mounts_match(m, c.manifest, unmount, places);
    assert(c.manifest.shares.contains(entry));
    let k = choose|k: int| 0 <= k < c.manifest.shares.len() && c.manifest.shares[k] == entry;
    assert(c.shares()[k].name == mount.share_name);
    if meant_for(c.shares()[k].remotes, remote) {
        meant_shares_are_tunnelled(c, remote, k);
    }
}

// ---------------------------------------------------------------------------
// Tunnels
// ---------------------------------------------------------------------------

/// The first tunnel of every remote is the control channel: the control port, on
/// both sides.
pub proof fn control_channel_comes_first(c: ClientView, remote: Seq<char>)
    ensures
        c.mappings(remote).len() > 0,
        c.mappings(remote)[0].local_port == c.config.daemon.control_port,
        c.mappings(remote)[0].remote_port == c.config.daemon.control_port,
{
}

proof fn lemma_tunnelled(c: ClientView, remote: Seq<char>, s: int)
    requires
        c.sound(),
        0 <= s < c.share_manager.shares.len(),
        meant_for(c.share_manager.shares[s].1.remotes, remote),
    ensures
        exists|k: int|
            {
                &&& 1 <= k < c.mappings(remote).len()
                &&& (#[trigger] c.mappings(remote)[k]).local_port
                    == c.share_manager.shares[s].1.sftp_port
                &&& c.mappings(remote)[k].remote_port - c.config.daemon.tunnel_port_range_start
                    == c.share_manager.shares[s].1.sftp_port
                    - c.config.daemon.sftp_port_range_start
            },
{
    let daemon = c.config.daemon;
    let share = c.share_manager.shares[s].1;
    let wanted = |x: ShareView| meant_for(x.remotes, remote);
    assert(c.shares()[s] == share);
    assert(has_tunnel_port(daemon, share.sftp_port));
    lemma_filter_holds(c.shares(), wanted, s);
    let kept = c.shares().filter(wanted);
    let j = choose|j: int| 0 <= j < kept.len() && kept[j] == share;
    assert(c.mappings(remote)[j + 1] == mapping_of(daemon, share));
}

/// Every remote that stands in the list of a share, wherever it stands, has a tunnel
/// to that share: from the port at which the share is served to the one that is as
/// far from the first tunnel port as that is from the first local port.
pub proof fn every_listed_remote_has_a_tunnel(c: ClientView, s: int, i: int)
    requires
        c.sound(),
        0 <= s < c.share_manager.shares.len(),
        0 <= i < c.share_manager.shares[s].1.remotes.len(),
    ensures
        ({
            let share = c.share_manager.shares[s].1;
            exists|k: int|
                {
                    &&& 1 <= k < c.mappings(share.remotes[i]).len()
                    &&& (#[trigger] c.mappings(share.remotes[i])[k]).local_port == share.sftp_port
                    &&& c.mappings(share.remotes[i])[k].remote_port
                        - c.config.daemon.tunnel_port_range_start == share.sftp_port
                        - c.config.daemon.sftp_port_range_start
                }
        }),
{
    let share = c.share_manager.shares[s].1;
    assert(share.remotes.contains(share.remotes[i]));
    lemma_tunnelled(c, share.remotes[i], s);
}

/// Every remote has a tunnel to a share that lists none.
pub proof fn a_share_for_all_is_tunnelled_to_all(c: ClientView, s: int, remote: Seq<char>)
    requires
        c.sound(),
        0 <= s < c.share_manager.shares.len(),
        c.share_manager.shares[s].1.remotes.len() == 0,
    ensures
        exists|k: int|
            {
                &&& 1 <= k < c.mappings(remote).len()
                &&& (#[trigger] c.mappings(remote)[k]).local_port
                    == c.share_manager.shares[s].1.sftp_port
                &&& c.mappings(remote)[k].remote_port - c.config.daemon.tunnel_port_range_start
                    == c.share_manager.shares[s].1.sftp_port
                    - c.config.daemon.sftp_port_range_start
            },
{
    lemma_tunnelled(c, remote, s);
}

/// A tunnel besides the control channel leads to a share that lists the remote, or
/// that lists none.
pub proof fn a_tunnel_has_its_share(c: ClientView, remote: Seq<char>, k: int)
    requires
        c.sound(),
        1 <= k < c.mappings(remote).len(),
    ensures
        exists|s: int|
            {
                let share = (#[trigger] c.share_manager.shares[s]).1;
                &&& 0 <= s < c.share_manager.shares.len()
                &&& share.remotes.len() == 0 || exists|i: int|
                    0 <= i < share.remotes.len() && #[trigger] share.remotes[i] == remote
                &&& c.mappings(remote)[k].local_port == share.sftp_port
                &&& c.mappings(remote)[k].remote_port - c.config.daemon.tunnel_port_range_start
                    == share.sftp_port - c.config.daemon.sftp_port_range_start
            },
{
    only_meant_shares_are_tunnelled(c, remote, k);
    let s = choose|s: int|
        {
            &&& 0 <= s < c.shares().len()
            &&& meant_for((#[trigger] c.shares()[s]).remotes, remote)
            &&& c.mappings(remote)[k] == mapping_of(c.config.daemon, c.shares()[s])
        };
    let share = c.share_manager.shares[s].1;
    assert(has_tunnel_port(c.config.daemon, share.sftp_port));
    if share.remotes.len() > 0 {
        let i = choose|i: int| 0 <= i < share.remotes.len() && share.remotes[i] == remote;
        assert(share.remotes[i] == remote);
    }
}

/// A remote that stands nowhere in the list of a share has no tunnel to that share.
pub proof fn an_unlisted_remote_has_no_tunnel(c: ClientView, s: int, remote: Seq<char>, k: int)
    requires
        c.sound(),
        0 <= s < c.share_manager.shares.len(),
        c.share_manager.shares[s].1.remotes.len() > 0,
        forall|i: int|
            0 <= i < c.share_manager.shares[s].1.remotes.len()
                ==> #[trigger] c.share_manager.shares[s].1.remotes[i] != remote,
        1 <= k < c.mappings(remote).len(),
    ensures
        c.mappings(remote)[k].local_port != c.share_manager.shares[s].1.sftp_port,
        c.mappings(remote)[k].remote_port - c.config.daemon.tunnel_port_range_start
            != c.share_manager.shares[s].1.sftp_port - c.config.daemon.sftp_port_range_start,
{
    a_tunnel_has_its_share(c, remote, k);
    let t = choose|t: int|
        {
            let share = (#[trigger] c.share_manager.shares[t]).1;
            &&& 0 <= t < c.share_manager.shares.len()
            &&& share.remotes.len() == 0 || exists|i: int|
                0 <= i < share.remotes.len() && #[trigger] share.remotes[i] == remote
            &&& c.mappings(remote)[k].local_port == share.sftp_port
            &&& c.mappings(remote)[k].remote_port - c.config.daemon.tunnel_port_range_start
                == share.sftp_port - c.config.daemon.sftp_port_range_start
        };
    if t != s {
        ports_differ(c.share_manager, t, s);
    }
}

proof fn lemma_kept_in_order(
    shares: Seq<(Seq<char>, ShareView)>,
    keep: spec_fn(ShareView) -> bool,
    j: int,
    k: int,
)
    requires
        forall|a: int, b: int|
            0 <= a < b < shares.len() ==> (#[trigger] shares[a]).1.sftp_port < (
            #[trigger] shares[b]).1.sftp_port,
        0 <= j < k < crate::names::values(shares).filter(keep).len(),
    ensures
        crate::names::values(shares).filter(keep)[j].sftp_port < crate::names::values(
            shares,
        ).filter(keep)[k].sftp_port,
    decreases shares.len(),
{
    reveal(Seq::filter);
    let all = crate::names::values(shares);
    let front = shares.drop_last();
    assert(all.drop_last() =~= crate::names::values(front));
    let kept = all.drop_last().filter(keep);
    if k < kept.len() {
        lemma_kept_in_order(front, keep, j, k);
    } else {
        lemma_filter_from(all.drop_last(), keep, j);
        let a = choose|a: int|
            0 <= a < all.drop_last().len() && kept[j] == #[trigger] all.drop_last()[a];
        assert(shares[a].1.sftp_port < shares[shares.len() - 1].1.sftp_port);
    }
}

/// The tunnels to shares are in the order of the shares' ports, and none occurs
/// twice.
pub proof fn tunnels_are_in_order(c: ClientView, remote: Seq<char>, j: int, k: int)
    requires
        c.sound(),
        1 <= j < k < c.mappings(remote).len(),
    ensures
        c.mappings(remote)[j].local_port < c.mappings(remote)[k].local_port,
        c.mappings(remote)[j].remote_port < c.mappings(remote)[k].remote_port,
{
    lemma_kept_in_order(
        c.share_manager.shares,
        |x: ShareView| meant_for(x.remotes, remote),
        j - 1,
        k - 1,
    );
    a_tunnel_has_its_share(c, remote, j);
    a_tunnel_has_its_share(c, remote, k);
}

/// A local port has a tunnel port exactly where it is not below the first local
/// port and the port as far from the first tunnel port is a port.
pub proof fn tunnel_ports_are_as_far(daemon: DaemonConfig, sftp_port: u16)
    ensures
        has_tunnel_port(daemon, sftp_port) == exists|offset: nat|
            sftp_port == daemon.sftp_port_range_start + offset
                && #[trigger] (daemon.tunnel_port_range_start + offset) <= 65535,
        tunnel_port(daemon, sftp_port) - daemon.tunnel_port_range_start == sftp_port
            - daemon.sftp_port_range_start,
{
    if has_tunnel_port(daemon, sftp_port) {
        let offset = (sftp_port - daemon.sftp_port_range_start) as nat;
        assert(daemon.tunnel_port_range_start + offset <= 65535);
    }
}

/// The manifest lists every share under its name, in order, at the port that is as
/// far from the first tunnel port as the share's port is from the first local port.
pub proof fn the_manifest_lists_every_share(c: ClientView, s: int)
    requires
        c.wf(),
        0 <= s < c.share_manager.shares.len(),
    ensures
        c.manifest.shares.len() == c.share_manager.shares.len(),
        c.manifest.shares[s].name == c.share_manager.shares[s].1.name,
        c.manifest.shares[s].name == c.share_manager.shares[s].0,
        c.manifest.shares[s].tunneled_port - c.config.daemon.tunnel_port_range_start
            == c.share_manager.shares[s].1.sftp_port - c.config.daemon.sftp_port_range_start,
{
    assert(has_tunnel_port(c.config.daemon, c.share_manager.shares[s].1.sftp_port));
}

// ---------------------------------------------------------------------------
// Connections
// ---------------------------------------------------------------------------

/// What is begun for a registered remote is that remote, with the tunnels that it
/// needs, each of which is handed to a chisel that is sent to the remote's host and
/// port with its credentials.
pub proof fn a_connection_goes_to_its_remote(c: ClientView, r: int)
    requires
        c.sound(),
        0 <= r < c.remotes.len(),
    ensures
        ({
            let remote = c.remotes[r].1;
            let start = c.start(c.remotes[r].0);
            let address = remote.host + ":"@ + decimal(remote.port as nat);
            &&& start.remote == remote
            &&& start.tunnels == c.mappings(remote.name)
            &&& start.process.program == "chisel"@
            &&& start.process.args.len() == 2 + start.tunnels.len()
            &&& start.process.args[0] == "client"@
            &&& remote.auth matches Some(auth) ==> start.process.args[1] == "http://"@ + auth
                + "@"@ + address
            &&& remote.auth is None ==> start.process.args[1] == "http://"@ + address
            &&& forall|k: int|
                0 <= k < start.tunnels.len() ==> start.process.args[k + 2] == "R:"@ + decimal(
                    (#[trigger] start.tunnels[k]).remote_port as nat,
                ) + ":localhost:"@ + decimal(start.tunnels[k].local_port as nat)
        }),
{
    let remote = c.remotes[r].1;
    let digits = decimal(remote.port as nat);
    lookup_entry(c.remotes, r);
    if let Some(auth) = remote.auth {
        assert("http://"@ + auth + "@"@ + remote.host + ":"@ + digits =~= "http://"@ + auth + "@"@
            + (remote.host + ":"@ + digits));
    } else {
        assert("http://"@ + remote.host + ":"@ + digits =~= "http://"@ + (remote.host + ":"@
            + digits));
    }
}

/// After a connection was opened, its remote is connected and the connection is kept
/// with the tunnels that it was opened with. Every other remote and connection, the
/// shares, the manifest and the configuration are as they were.
pub proof fn connecting_notes_the_connection(
    c: ClientView,
    start: TunnelStartView,
    other: Seq<char>,
)
    requires
        c.sound(),
    ensures
        ({
            let name = start.remote.name;
            let n = c.connected(start);
            &&& lookup(n.tunnel_handles, name) matches Some(h) && h.tunnels == start.tunnels
                && h.remote_name == name
            &&& lookup(c.remotes, name) matches Some(r) ==> (lookup(n.remotes, name) matches Some(
                q,
            ) && q.status == ConnectionStatusView::Connected && q.name == r.name && q.host
                == r.host && q.port == r.port && q.auth == r.auth && q.auto_connect
                == r.auto_connect)
            &&& other != name ==> lookup(n.tunnel_handles, other) == lookup(
                c.tunnel_handles,
                other,
            ) && lookup(n.remotes, other) == lookup(c.remotes, other)
            &&& n.remotes.len() == c.remotes.len()
            &&& n.share_manager == c.share_manager
            &&& n.manifest == c.manifest
            &&& n.config == c.config
        }),
{
    let name = start.remote.name;
    let handle = HandleView { remote_name: name, tunnels: start.tunnels };
    lookup_put(c.tunnel_handles, name, handle, name);
    lookup_put(c.tunnel_handles, name, handle, other);
    lemma_status_set(c.remotes, name, ConnectionStatusView::Connected, other);
}

proof fn lemma_status_set(
    remotes: Seq<(Seq<char>, RemoteView)>,
    name: Seq<char>,
    status: ConnectionStatusView,
    other: Seq<char>,
)
    requires
        distinct(remotes),
    ensures
        ({
            let n = with_status(remotes, name, status);
            &&& n.len() == remotes.len()
            &&& other != name ==> lookup(n, other) == lookup(remotes, other)
            &&& match lookup(remotes, name) {
                Some(r) => lookup(n, name) == Some(RemoteView { status, ..r }),
                None => lookup(n, name) is None,
            }
        }),
{
    if let Some(r) = lookup(remotes, name) {
        lookup_put(remotes, name, RemoteView { status, ..r }, name);
        lookup_put(remotes, name, RemoteView { status, ..r }, other);
    }
}

/// After a connection was closed, it is gone and its remote is disconnected. Every
/// other remote and connection, the shares, the manifest and the configuration are
/// as they were.
pub proof fn disconnecting_drops_the_connection(c: ClientView, name: Seq<char>, other: Seq<char>)
    requires
        c.sound(),
    ensures
        ({
            let n = c.disconnected(name);
            &&& !named(n.tunnel_handles, name)
            &&& lookup(c.remotes, name) matches Some(r) ==> (lookup(n.remotes, name) matches Some(
                q,
            ) && q.status == ConnectionStatusView::Disconnected && q.name == r.name && q.host
                == r.host && q.port == r.port && q.auth == r.auth && q.auto_connect
                == r.auto_connect)
            &&& other != name ==> lookup(n.tunnel_handles, other) == lookup(
                c.tunnel_handles,
                other,
            ) && lookup(n.remotes, other) == lookup(c.remotes, other)
            &&& n.remotes.len() == c.remotes.len()
            &&& n.share_manager == c.share_manager
            &&& n.manifest == c.manifest
            &&& n.config == c.config
        }),
{
    lookup_without(c.tunnel_handles, name, name);
    lookup_without(c.tunnel_handles, name, other);
    lemma_status_set(c.remotes, name, ConnectionStatusView::Disconnected, other);
}

/// After a connection was opened anew, it has the tunnels that it was opened with,
/// and everything else is as it was.
pub proof fn reopening_notes_the_tunnels(c: ClientView, start: TunnelStartView, other: Seq<char>)
    requires
        c.sound(),
    ensures
        ({
            let name = start.remote.name;
            let n = c.retunnelled(start);
            &&& lookup(c.tunnel_handles, name) matches Some(h) ==> (lookup(
                n.tunnel_handles,
                name,
            ) matches Some(g) && g.tunnels == start.tunnels && g.remote_name == h.remote_name)
            &&& lookup(c.tunnel_handles, name) is None ==> n == c
            &&& other != name ==> lookup(n.tunnel_handles, other) == lookup(
                c.tunnel_handles,
                other,
            )
            &&& n.tunnel_handles.len() == c.tunnel_handles.len()
            &&& n.remotes == c.remotes
            &&& n.share_manager == c.share_manager
            &&& n.manifest == c.manifest
            &&& n.config == c.config
        }),
{
    let name = start.remote.name;
    if let Some(h) = lookup(c.tunnel_handles, name) {
        let handle = HandleView { tunnels: start.tunnels, ..h };
        lookup_put(c.tunnel_handles, name, handle, name);
        lookup_put(c.tunnel_handles, name, handle, other);
    }
}

/// After a change that is meant for some remotes, the connection to a registered
/// remote is opened anew with the tunnels that it needs where the remote stands in
/// the list, wherever it stands, or the list is empty.
pub proof fn listed_connections_are_reopened(c: ClientView, remotes: Seq<Seq<char>>, h: int)
    requires
        c.sound(),
        0 <= h < c.tunnel_handles.len(),
        named(c.remotes, c.tunnel_handles[h].0),
        remotes.len() == 0 || exists|i: int|
            0 <= i < remotes.len() && #[trigger] remotes[i] == c.tunnel_handles[h].0,
    ensures
        exists|k: int|
            {
                &&& 0 <= k < c.restarts(remotes).len()
                &&& (#[trigger] c.restarts(remotes)[k]).remote.name == c.tunnel_handles[h].0
                &&& c.restarts(remotes)[k].tunnels == c.mappings(c.tunnel_handles[h].0)
            },
{
    let name = c.tunnel_handles[h].0;
    let all = keys(c.tunnel_handles);
    let wanted = |n: Seq<char>| meant_for(remotes, n) && named(c.remotes, n);
    assert(all[h] == name);
    if remotes.len() > 0 {
        let i = choose|i: int| 0 <= i < remotes.len() && #[trigger] remotes[i] == name;
        assert(remotes.contains(remotes[i]));
    }
    lemma_filter_holds(all, wanted, h);
    let kept = all.filter(wanted);
    let k = choose|k: int| 0 <= k < kept.len() && kept[k] == name;
    let p = place(c.remotes, name);
    assert(c.remotes[p].0 == name);
    assert(c.restarts(remotes)[k] == c.start(name));
}

/// No other connection is opened anew.
pub proof fn only_listed_connections_are_reopened(c: ClientView, remotes: Seq<Seq<char>>, k: int)
    requires
        c.sound(),
        0 <= k < c.restarts(remotes).len(),
    ensures
        ({
            let start = c.restarts(remotes)[k];
            &&& named(c.tunnel_handles, start.remote.name)
            &&& lookup(c.remotes, start.remote.name) == Some(start.remote)
            &&& remotes.len() == 0 || exists|i: int|
                0 <= i < remotes.len() && #[trigger] remotes[i] == start.remote.name
            &&& start == c.start(start.remote.name)
        }),
{
    let all = keys(c.tunnel_handles);
    let wanted = |n: Seq<char>| meant_for(remotes, n) && named(c.remotes, n);
    let kept = all.filter(wanted);
    lemma_filter_from(all, wanted, k);
    let name = kept[k];
    let p = place(c.remotes, name);
    assert(c.remotes[p].0 == name);
    let h = choose|h: int| 0 <= h < all.len() && kept[k] == #[trigger] all[h];
    assert(c.tunnel_handles[h].0 == name);
    if remotes.len() > 0 {
        let i = choose|i: int| 0 <= i < remotes.len() && remotes[i] == name;
        assert(remotes[i] == name);
    }
}

// ---------------------------------------------------------------------------
// Shares
// ---------------------------------------------------------------------------

/// A share that is added is the last one, as it was given, and is listed last at the
/// port that is as far from the first tunnel port as its port is from the first
/// local port. Everything else is as it was.
pub proof fn sharing_adds_one_share(c: ClientView, share: ShareView)
    requires
        c.sound(),
        c.share_manager.ready_for(share),
        has_tunnel_port(c.config.daemon, share.sftp_port),
    ensures
        ({
            let n = c.shared(share);
            let count = c.share_manager.shares.len();
            let listed = c.manifest.shares.len();
            &&& n.share_manager.shares.len() == count + 1
            &&& n.share_manager.shares[count as int] == (share.name, share)
            &&& forall|i: int|
                0 <= i < count ==> #[trigger] n.share_manager.shares[i]
                    == c.share_manager.shares[i]
            &&& n.share_manager.next_sftp_port == c.share_manager.next_sftp_port
            &&& n.manifest.shares.len() == listed + 1
            &&& n.manifest.shares[listed as int].name == share.name
            &&& n.manifest.shares[listed as int].tunneled_port
                - c.config.daemon.tunnel_port_range_start == share.sftp_port
                - c.config.daemon.sftp_port_range_start
            &&& forall|i: int|
                0 <= i < listed ==> #[trigger] n.manifest.shares[i] == c.manifest.shares[i]
            &&& n.manifest.version == c.manifest.version
            &&& n.manifest.client_name == c.manifest.client_name
            &&& n.tunnel_handles == c.tunnel_handles
            &&& n.remotes == c.remotes
            &&& n.config == c.config
        }),
{
    lemma_shared(c, share);
    assert(c.shared(share).share_manager.shares =~= c.share_manager.shares.push(
        (share.name, share),
    ));
}

/// A share that is removed is neither shared nor listed any more. Every other share
/// is as it was, and everything else too.
pub proof fn unsharing_removes_one_share(c: ClientView, name: Seq<char>, other: Seq<char>)
    requires
        c.wf(),
    ensures
        ({
            let n = c.unshared(name);
            &&& !named(n.share_manager.shares, name)
            &&& other != name ==> lookup(n.share_manager.shares, other) == lookup(
                c.share_manager.shares,
                other,
            )
            &&& n.share_manager.next_sftp_port == c.share_manager.next_sftp_port
            &&& forall|i: int|
                0 <= i < n.manifest.shares.len() ==> (#[trigger] n.manifest.shares[i]).name
                    != name
            &&& forall|i: int|
                0 <= i < c.manifest.shares.len() && (#[trigger] c.manifest.shares[i]).name
                    != name ==> n.manifest.shares.contains(c.manifest.shares[i])
            &&& n.manifest.shares.len() == c.manifest.shares.len() - if named(
                c.share_manager.shares,
                name,
            ) {
                1int
            } else {
                0
            }
            &&& n.manifest.version == c.manifest.version
            &&& n.manifest.client_name == c.manifest.client_name
            &&& n.tunnel_handles == c.tunnel_handles
            &&& n.remotes == c.remotes
            &&& n.config == c.config
        }),
{
    let n = c.unshared(name);
    let keep = |e: EntryView| e.name != name;
    lemma_unshared(c, name);
    lookup_without(c.share_manager.shares, name, name);
    lookup_without(c.share_manager.shares, name, other);
    without_keeps_order(c.share_manager.shares, name);
    assert forall|i: int| 0 <= i < n.manifest.shares.len() implies (
    #[trigger] n.manifest.shares[i]).name != name by {
        lemma_filter_from(c.manifest.shares, keep, i);
    }
    assert forall|i: int|
        0 <= i < c.manifest.shares.len() && (#[trigger] c.manifest.shares[i]).name
            != name implies n.manifest.shares.contains(c.manifest.shares[i]) by {
        lemma_filter_holds(c.manifest.shares, keep, i);
    }
}

/// A port that was taken for a share is not given away again: the next search starts
/// behind it. Nothing else changes.
pub proof fn a_taken_port_is_passed(c: ClientView, port: u16)
    requires
        port < 65535,
    ensures
        c.port_taken(port).share_manager.next_sftp_port == port + 1,
        c.port_taken(port).share_manager.shares == c.share_manager.shares,
        c.port_taken(port).manifest == c.manifest,
        c.port_taken(port).tunnel_handles == c.tunnel_handles,
        c.port_taken(port).remotes == c.remotes,
        c.port_taken(port).config == c.config,
{
}

// ---------------------------------------------------------------------------
// Start
// ---------------------------------------------------------------------------

/// A client starts with the remotes of its configuration, each with its address and
/// credentials and not connected, and with nothing shared.
pub proof fn a_client_starts_as_configured(
    config: ClientConfigView,
    client_name: Seq<char>,
    r: int,
)
    requires
        0 <= r < config.remotes.len(),
    ensures
        ({
            let c = initial(config, client_name);
            let saved = config.remotes[r].1;
            &&& c.remotes.len() == config.remotes.len()
            &&& c.remotes[r].0 == config.remotes[r].0
            &&& c.remotes[r].1.name == config.remotes[r].0
            &&& c.remotes[r].1.host == saved.host
            &&& c.remotes[r].1.port == saved.port
            &&& c.remotes[r].1.auth == saved.auth
            &&& c.remotes[r].1.auto_connect == saved.auto_connect
            &&& c.remotes[r].1.status == ConnectionStatusView::Disconnected
        }),
{
}

/// A client starts without shares and connections, under its name, and takes its
/// ports from the first one on.
pub proof fn a_client_starts_empty(config: ClientConfigView, client_name: Seq<char>)
    ensures
        initial(config, client_name).config == config,
        initial(config, client_name).remotes.len() == config.remotes.len(),
        initial(config, client_name).share_manager.shares.len() == 0,
        initial(config, client_name).share_manager.next_sftp_port
            == config.daemon.sftp_port_range_start,
        initial(config, client_name).tunnel_handles.len() == 0,
        initial(config, client_name).manifest.shares.len() == 0,
        initial(config, client_name).manifest.version == 1,
        initial(config, client_name).manifest.client_name == client_name,
{
}

/// A client offers its shares under the name of its machine.
pub proof fn clients_go_by_their_machine(name: Seq<char>)
    ensures
        client_name_of(Some(name)) == name,
        client_name_of(None) == "unknown"@,
{
}

// ---------------------------------------------------------------------------
// Requests
// ---------------------------------------------------------------------------

/// A remote that is registered has the host, the port and the credentials that were
/// given, among the remotes and in the configuration, which is then saved. It is not
/// connected. Every other remote, and everything else, is as it was.
pub proof fn registering_keeps_what_was_given(
    c: ClientView,
    name: Seq<char>,
    host: Seq<char>,
    port: u16,
    auth: Option<Seq<char>>,
    other: Seq<char>,
)
    requires
        c.sound(),
        distinct(c.config.remotes),
    ensures
        ({
            let request = RequestView::RemoteAdd { name, host, port, auth };
            let n = client_after(c, request);
            &&& client_task(c, request) == TaskView::SaveAndReport
            &&& lookup(n.remotes, name) matches Some(r) && r.name == name && r.host == host
                && r.port == port && r.auth == auth && !r.auto_connect && r.status
                == ConnectionStatusView::Disconnected
            &&& lookup(n.config.remotes, name) matches Some(r) && r.host == host && r.port == port
                && r.auth == auth && !r.auto_connect
            &&& other != name ==> lookup(n.remotes, other) == lookup(c.remotes, other) && lookup(
                n.config.remotes,
                other,
            ) == lookup(c.config.remotes, other)
            &&& n.config.shares == c.config.shares
            &&& n.config.daemon == c.config.daemon
            &&& n.config.cache == c.config.cache
            &&& n.share_manager == c.share_manager
            &&& n.tunnel_handles == c.tunnel_handles
            &&& n.manifest == c.manifest
        }),
{
    let config = RemoteConfigView { host, port, auth, auto_connect: false };
    lookup_put(c.remotes, name, remote_of(name, config), name);
    lookup_put(c.remotes, name, remote_of(name, config), other);
    lookup_put(c.config.remotes, name, config, name);
    lookup_put(c.config.remotes, name, config, other);
}

/// A remote that is removed is gone from the remotes and from the configuration,
/// which is then saved. Every other remote, and everything else, is as it was. Where
/// there is no such remote the answer says so, and nothing changes.
pub proof fn removing_forgets_one_remote(c: ClientView, name: Seq<char>, other: Seq<char>)
    requires
        c.sound(),
        distinct(c.config.remotes),
    ensures
        ({
            let request = RequestView::RemoteRemove { name };
            let n = client_after(c, request);
            &&& !named(c.remotes, name) ==> n == c && client_task(c, request) == TaskView::Reply(
                ResponseView::Error { message: "remote '"@ + name + "' not found"@ },
            )
            &&& named(c.remotes, name) ==> {
                &&& client_task(c, request) == TaskView::SaveAndReply(ResponseView::Done)
                &&& !named(n.remotes, name)
                &&& !named(n.config.remotes, name)
            }
            &&& other != name ==> lookup(n.remotes, other) == lookup(c.remotes, other) && lookup(
                n.config.remotes,
                other,
            ) == lookup(c.config.remotes, other)
            &&& n.config.shares == c.config.shares
            &&& n.config.daemon == c.config.daemon
            &&& n.config.cache == c.config.cache
            &&& n.share_manager == c.share_manager
            &&& n.tunnel_handles == c.tunnel_handles
            &&& n.manifest == c.manifest
        }),
{
    lookup_without(c.remotes, name, name);
    lookup_without(c.remotes, name, other);
    lookup_without(c.config.remotes, name, name);
    lookup_without(c.config.remotes, name, other);
}

/// A request to share a folder is remembered in the configuration as it was given,
/// for the one remote that it names or for all, and is then carried out so. Nothing
/// else changes at once.
pub proof fn a_share_is_remembered_as_given(
    c: ClientView,
    name: Seq<char>,
    path: Seq<char>,
    remote: Option<Seq<char>>,
    other: Seq<char>,
)
    requires
        distinct(c.config.shares),
    ensures
        ({
            let request = RequestView::ShareAdd { name, path, remote };
            let n = client_after(c, request);
            &&& client_task(c, request) matches TaskView::AddShare { name: a, path: p, remotes }
                && a == name && p == path && match remote {
                Some(r) => remotes.len() == 1 && remotes[0] == r,
                None => remotes.len() == 0,
            }
            &&& lookup(n.config.shares, name) matches Some(s) && s.path == path && match remote {
                Some(r) => s.remotes.len() == 1 && s.remotes[0] == r,
                None => s.remotes.len() == 0,
            }
            &&& other != name ==> lookup(n.config.shares, other) == lookup(c.config.shares, other)
            &&& n.config.remotes == c.config.remotes
            &&& n.config.daemon == c.config.daemon
            &&& n.config.cache == c.config.cache
            &&& n.share_manager == c.share_manager
            &&& n.tunnel_handles == c.tunnel_handles
            &&& n.remotes == c.remotes
            &&& n.manifest == c.manifest
        }),
{
    let saved = ShareConfigView { path, remotes: remotes_asked(remote) };
    lookup_put(c.config.shares, name, saved, name);
    lookup_put(c.config.shares, name, saved, other);
}

/// A request to stop sharing a folder takes it out of the configuration, and is then
/// carried out. Nothing else changes at once.
pub proof fn an_unshared_folder_is_forgotten(c: ClientView, name: Seq<char>, other: Seq<char>)
    requires
        distinct(c.config.shares),
    ensures
        ({
            let request = RequestView::ShareRemove { name };
            let n = client_after(c, request);
            &&& client_task(c, request) == (TaskView::RemoveShare { name })
            &&& !named(n.config.shares, name)
            &&& other != name ==> lookup(n.config.shares, other) == lookup(c.config.shares, other)
            &&& n.config.remotes == c.config.remotes
            &&& n.config.daemon == c.config.daemon
            &&& n.config.cache == c.config.cache
            &&& n.share_manager == c.share_manager
            &&& n.tunnel_handles == c.tunnel_handles
            &&& n.remotes == c.remotes
            &&& n.manifest == c.manifest
        }),
{
    lookup_without(c.config.shares, name, name);
    lookup_without(c.config.shares, name, other);
}

/// Requests to connect and to disconnect are carried out for the remote that they
/// name, and change nothing before.
pub proof fn connections_are_made_as_asked(c: ClientView, remote: Seq<char>)
    ensures
        client_task(c, RequestView::Connect { remote }) == (TaskView::Connect { remote }),
        client_task(c, RequestView::Disconnect { remote }) == (TaskView::Disconnect { remote }),
        client_after(c, RequestView::Connect { remote }) == c,
        client_after(c, RequestView::Disconnect { remote }) == c,
{
}

/// Requests for lists and for the status change nothing, and neither do those that
/// only a server supports, which are refused.
pub proof fn questions_change_nothing(c: ClientView, share_name: Seq<char>)
    ensures
        client_after(c, RequestView::Status) == c,
        client_after(c, RequestView::RemoteList) == c,
        client_after(c, RequestView::ShareList) == c,
        client_after(c, RequestView::MountList) == c,
        client_after(c, RequestView::MountStats { share_name }) == c,
        client_task(c, RequestView::MountList) == TaskView::Reply(
            ResponseView::Error { message: "command not supported on client"@ },
        ),
        client_task(c, RequestView::MountStats { share_name }) == TaskView::Reply(
            ResponseView::Error { message: "command not supported on client"@ },
        ),
{
}

/// The status of a client counts its connections and its shares.
pub proof fn the_status_counts(c: ClientView)
    ensures
        client_task(c, RequestView::Status) matches TaskView::Reply(
            ResponseView::Status { role, running, details },
        ) && role == "client"@ && running && details == decimal(c.tunnel_handles.len())
            + " connection(s), "@ + decimal(c.share_manager.shares.len()) + " share(s)"@,
{
}

/// A client that is asked to stop ends every share and every connection, by name and
/// in order, and then has none. Its remotes and its configuration stay.
pub proof fn stopping_ends_each_process(c: ClientView)
    ensures
        client_task(c, RequestView::Shutdown) matches TaskView::Stop { response, shares, remotes }
            && response == ResponseView::Done && shares.len() == c.share_manager.shares.len()
            && remotes.len() == c.tunnel_handles.len() && (forall|i: int|
            0 <= i < shares.len() ==> #[trigger] shares[i] == c.share_manager.shares[i].0) && (
        forall|i: int|
            0 <= i < remotes.len() ==> #[trigger] remotes[i] == c.tunnel_handles[i].0),
        client_after(c, RequestView::Shutdown).share_manager.shares.len() == 0,
        client_after(c, RequestView::Shutdown).tunnel_handles.len() == 0,
        client_after(c, RequestView::Shutdown).remotes == c.remotes,
        client_after(c, RequestView::Shutdown).config == c.config,
        client_after(c, RequestView::Shutdown).manifest == c.manifest,
        client_after(c, RequestView::Shutdown).share_manager.next_sftp_port
            == c.share_manager.next_sftp_port,
{
}

/// The list of remotes has every remote in its place, with its own name, host, port
/// and status: of one that is connected the list says "connected", of one that is
/// not "disconnected".
pub proof fn remotes_are_listed_with_their_status(c: ClientView, i: int)
    requires
        0 <= i < c.remotes.len(),
    ensures
        client_task(c, RequestView::RemoteList) matches TaskView::Reply(
            ResponseView::RemoteList { remotes },
        ) && {
            let remote = c.remotes[i].1;
            &&& remotes.len() == c.remotes.len()
            &&& remotes[i].name == remote.name
            &&& remotes[i].host == remote.host
            &&& remotes[i].port == remote.port
            &&& match remote.status {
                ConnectionStatusView::Disconnected => remotes[i].status == "disconnected"@,
                ConnectionStatusView::Connecting => remotes[i].status == "connecting"@,
                ConnectionStatusView::Connected => remotes[i].status == "connected"@,
                ConnectionStatusView::Reconnecting { since, attempts } => remotes[i].status
                    == "reconnecting (attempt "@ + decimal(attempts as nat) + ")"@,
                ConnectionStatusView::Error(e) => remotes[i].status == "error: "@ + e,
            }
        },
{
}

/// Once a connection to a registered remote was noted, the list of remotes says
/// that it is connected, and once the connection was closed that it is not. Of every
/// other remote the list says what it said before.
pub proof fn connecting_shows_in_the_list(c: ClientView, r: int, o: int)
    requires
        c.sound(),
        0 <= r < c.remotes.len(),
        0 <= o < c.remotes.len(),
    ensures
        ({
            let name = c.remotes[r].0;
            let up = c.connected(c.start(name));
            let down = c.disconnected(name);
            match (
                client_task(c, RequestView::RemoteList),
                client_task(up, RequestView::RemoteList),
                client_task(down, RequestView::RemoteList),
            ) {
                (
                    TaskView::Reply(ResponseView::RemoteList { remotes: before }),
                    TaskView::Reply(ResponseView::RemoteList { remotes: connected }),
                    TaskView::Reply(ResponseView::RemoteList { remotes: disconnected }),
                ) => {
                    &&& connected.len() == c.remotes.len()
                    &&& disconnected.len() == c.remotes.len()
                    &&& connected[r].name == name
                    &&& connected[r].status == "connected"@
                    &&& disconnected[r].name == name
                    &&& disconnected[r].status == "disconnected"@
                    &&& o != r ==> connected[o] == before[o] && disconnected[o] == before[o]
                },
                _ => false,
            }
        }),
{
    let name = c.remotes[r].0;
    lookup_entry(c.remotes, r);
    assert(c.start(name).remote.name == name);
    let up = c.connected(c.start(name));
    let down = c.disconnected(name);
    assert(up.remotes[r].1.status == ConnectionStatusView::Connected);
    assert(down.remotes[r].1.status == ConnectionStatusView::Disconnected);
    remotes_are_listed_with_their_status(up, r);
    remotes_are_listed_with_their_status(down, r);
    if o != r {
        assert(up.remotes[o] == c.remotes[o]);
        assert(down.remotes[o] == c.remotes[o]);
    }
}

/// The list of shares has every share in its place, with its own name, path, remotes
/// and status.
pub proof fn shares_are_listed_as_they_are(c: ClientView, i: int)
    requires
        0 <= i < c.share_manager.shares.len(),
    ensures
        client_task(c, RequestView::ShareList) matches TaskView::Reply(
            ResponseView::ShareList { shares },
        ) && {
            let share = c.share_manager.shares[i].1;
            &&& shares.len() == c.share_manager.shares.len()
            &&& shares[i].name == share.name
            &&& shares[i].path == path_text(share.path)
            &&& shares[i].remotes == share.remotes
            &&& match share.status {
                ShareStatusView::Stopped => shares[i].status == "stopped"@,
                ShareStatusView::Starting => shares[i].status == "starting"@,
                ShareStatusView::Serving => shares[i].status == "serving"@,
                ShareStatusView::Error(e) => shares[i].status == "error: "@ + e,
            }
        },
{
    assert(c.shares()[i] == c.share_manager.shares[i].1);
}

/// Without remotes the list of remotes is empty, and without shares that of shares.
pub proof fn nothing_is_listed_of_nothing(c: ClientView)
    ensures
        client_task(c, RequestView::RemoteList) matches TaskView::Reply(
            ResponseView::RemoteList { remotes },
        ) && remotes.len() == c.remotes.len(),
        client_task(c, RequestView::ShareList) matches TaskView::Reply(
            ResponseView::ShareList { shares },
        ) && shares.len() == c.share_manager.shares.len(),
{
}

/// The client's errors name the remote that they are about.
pub proof fn errors_name_the_remote(name: Seq<char>)
    ensures
        no_remote(name).message() == "remote '"@ + name + "' not found"@,
        connected_already(name).message() == "already connected to '"@ + name + "'"@,
        not_connected(name).message() == "not connected to '"@ + name + "'"@,
{
}

/// The contents of a client, and of what it is about to do, leave nothing out.
pub proof fn clients_are_viewed_whole(
    c: ClientState,
    start: TunnelStart,
    starts: Seq<TunnelStart>,
    task: ClientTask,
    i: int,
)
    ensures
        c@.config == c.config@,
        c@.share_manager == c.share_manager@,
        c@.tunnel_handles == c.tunnel_handles@,
        c@.remotes == c.remotes@,
        c@.manifest == c.manifest@,
        start@.remote == start.remote@,
        start@.tunnels == start.tunnels@,
        start@.process == start.process@,
        start_views(starts).len() == starts.len(),
        0 <= i < starts.len() ==> start_views(starts)[i] == starts[i]@,
        match task {
            ClientTask::Reply(r) => task@ == TaskView::Reply(r@),
            ClientTask::SaveAndReport => task@ is SaveAndReport,
            ClientTask::SaveAndReply(r) => task@ == TaskView::SaveAndReply(r@),
            ClientTask::Connect { remote } => task@ == (TaskView::Connect { remote: remote@ }),
            ClientTask::Disconnect { remote } => task@ == (TaskView::Disconnect {
                remote: remote@,
            }),
            ClientTask::AddShare { name, path, remotes } => task@ matches TaskView::AddShare {
                name: n,
                path: p,
                remotes: r,
            } && n == name@ && p == path@ && r.len() == remotes@.len() && (0 <= i < r.len()
                ==> r[i] == remotes@[i]@),
            ClientTask::RemoveShare { name } => task@ == (TaskView::RemoveShare { name: name@ }),
            ClientTask::Stop { response, shares, remotes } => task@ matches TaskView::Stop {
                response: a,
                shares: s,
                remotes: r,
            } && a == response@ && s.len() == shares@.len() && (0 <= i < s.len() ==> s[i]
                == shares@[i]@) && r.len() == remotes@.len() && (0 <= i < r.len() ==> r[i]
                == remotes@[i]@),
        },
{
}

} // verus!
