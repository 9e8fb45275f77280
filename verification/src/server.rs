//! The server daemon: how it follows a client's manifest, and how it answers the
//! command line.

use crate::config::{
    check_binary, expands, found_at, found_nowhere, missing, ServerConfig, ServerConfigView,
};
use crate::mounts::{
    mount_key, mounting_keeps_order, new_mount, no_mount, taking_makes_ready, unmounting_keeps_order,
    MountManager, MountsView,
};
use crate::names::{
    lemma_filter_from, lookup, lookup_entry, lookup_put, lookup_without, named, place, values,
    without_keeps_order,
};
use crate::paths::{path_from, path_text, text_of};
use crate::process::ProcessConfig;
use crate::protocol::{
    entries, ControlRequest, ControlResponse, EntryView, ManifestView, MountInfo, MountInfoView,
    RequestView, ResponseView, ShareManifest, ShareManifestEntry,
};
use crate::rclone_rc::{control_url, mount_stats, RcloneRcClient};
use crate::text::{contains_text, decimal, decimal_text, quoted, same_text, texts};
use crate::tunnel::{server_process, ChiselTunnelProvider};
use crate::types::{
    ErrorView, LazyMountError, MountStats, MountStatusView, MountedShare, MountedShareView,
};
use std::path::PathBuf;
use vstd::arithmetic::power2::pow2;
use vstd::prelude::*;

verus! {

/// Where the client's manifest is to be had, through the tunnel.
pub const MANIFEST_URL: &'static str = "http://localhost:3200/";

/// How many seconds pass between two polls.
pub const POLL_SECS: u32 = 5;

/// The directory for caches: the one that was found, or a temporary one.
pub fn cache_base(found: Result<PathBuf, LazyMountError>) -> (dir: PathBuf)
    ensures
        match found {
            Ok(d) => dir == d,
            Err(_) => path_text(dir) == "/tmp/lazymount-cache"@,
        },
{
    match found {
        Ok(d) => d,
        Err(_) => path_from("/tmp/lazymount-cache"),
    }
}

// ---------------------------------------------------------------------------
// Polling
// ---------------------------------------------------------------------------

/// What came of a poll.
#[derive(Debug, PartialEq)]
pub enum PollOutcome {
    /// The client's manifest.
    Manifest(ShareManifest),
    /// An answer that is no manifest.
    Unreadable,
    /// No answer, or one that says that the poll failed.
    Failed,
}

/// The contents of a [`PollOutcome`].
pub enum OutcomeView {
    Manifest(ManifestView),
    Unreadable,
    Failed,
}

impl View for PollOutcome {
    type V = OutcomeView;

    open spec fn view(&self) -> OutcomeView {
        match self {
            PollOutcome::Manifest(m) => OutcomeView::Manifest(m@),
            PollOutcome::Unreadable => OutcomeView::Unreadable,
            PollOutcome::Failed => OutcomeView::Failed,
        }
    }
}

/// What a poll calls for.
#[derive(Debug, Clone, Copy, PartialEq, Eq, Structural)]
pub enum PollAction {
    /// Nothing.
    Wait,
    /// Make the mounts match the manifest.
    Reconcile,
    /// Unmount everything.
    UnmountAll,
}

/// What is known of a client between polls.
#[derive(Debug)]
pub struct Poller {
    last_manifest: Option<ShareManifest>,
    consecutive_failures: u32,
    grace_period: u64,
}

/// The state of a [`Poller`].
pub struct PollerView {
    pub last_manifest: Option<ManifestView>,
    pub consecutive_failures: u32,
    pub grace_period: u64,
}

impl View for Poller {
    type V = PollerView;

    closed spec fn view(&self) -> PollerView {
        PollerView {
            last_manifest: match self.last_manifest {
                Some(m) => Some(m@),
                None => None,
            },
            consecutive_failures: self.consecutive_failures,
            grace_period: self.grace_period,
        }
    }
}

impl PollerView {
    /// Whether a client that has not answered `failures` polls in a row has been
    /// offline for the grace period.
    pub open spec fn past_grace(self, failures: int) -> bool {
        failures > 0 && failures * POLL_SECS >= self.grace_period
    }

    /// Whether a manifest lists other shares than the last one did.
    pub open spec fn changed(self, manifest: ManifestView) -> bool {
        match self.last_manifest {
            Some(last) => last.shares != manifest.shares,
            None => true,
        }
    }

    /// Whether one more failure can be counted. The count is a machine integer.
    pub open spec fn may_fail(self) -> bool {
        self.consecutive_failures < u32::MAX
    }

    /// What a poll calls for.
    pub open spec fn action(self, outcome: OutcomeView) -> PollAction {
        match outcome {
            OutcomeView::Manifest(m) => if self.changed(m) {
                PollAction::Reconcile
            } else {
                PollAction::Wait
            },
            OutcomeView::Unreadable => PollAction::Wait,
            OutcomeView::Failed => if self.last_manifest is Some && self.past_grace(
                self.consecutive_failures + 1,
            ) {
                PollAction::UnmountAll
            } else {
                PollAction::Wait
            },
        }
    }

    /// The state after a poll.
    pub open spec fn after(self, outcome: OutcomeView) -> PollerView {
        match outcome {
            OutcomeView::Manifest(m) => PollerView {
                last_manifest: Some(m),
                consecutive_failures: 0,
                ..self
            },
            OutcomeView::Unreadable => PollerView { consecutive_failures: 0, ..self },
            OutcomeView::Failed => if self.action(outcome) == PollAction::UnmountAll {
                PollerView { last_manifest: None, consecutive_failures: 0, ..self }
            } else {
                PollerView {
                    consecutive_failures: (self.consecutive_failures + 1) as u32,
                    ..self
                }
            },
        }
    }
}

fn same_entries(a: &Vec<ShareManifestEntry>, b: &Vec<ShareManifestEntry>) -> (same: bool)
    ensures
        same == (entries(a@) == entries(b@)),
{
    if a.len() != b.len() {
        assert(entries(a@).len() != entries(b@).len());
        return false;
    }
    let mut i: usize = 0;
    while i < a.len()
        invariant
            i <= a@.len(),
            a@.len() == b@.len(),
            forall|j: int| 0 <= j < i ==> #[trigger] a@[j]@ == b@[j]@,
        decreases a@.len() - i,
    {
        if !same_text(a[i].name.as_str(), b[i].name.as_str()) || a[i].tunneled_port
            != b[i].tunneled_port {
            assert(entries(a@)[i as int] != entries(b@)[i as int]);
            return false;
        }
        i += 1;
    }
    assert(entries(a@) =~= entries(b@));
    true
}

impl Poller {
    /// Before the first poll.
    pub fn new(grace_period: u64) -> (p: Self)
        ensures
            p@ == (PollerView { last_manifest: None, consecutive_failures: 0, grace_period }),
    {
        Poller { last_manifest: None, consecutive_failures: 0, grace_period }
    }

    /// The manifest of the last poll that brought one, unless the client has been
    /// given up since.
    pub fn last_manifest(&self) -> (manifest: Option<&ShareManifest>)
        ensures
            match (manifest, self@.last_manifest) {
                (Some(m), Some(v)) => m@ == v,
                (None, None) => true,
                _ => false,
            },
    {
        match &self.last_manifest {
            Some(m) => Some(m),
            None => None,
        }
    }

    /// How many polls have failed in a row.
    pub fn consecutive_failures(&self) -> (n: u32)
        ensures
            n == self@.consecutive_failures,
    {
        self.consecutive_failures
    }

    /// Takes in what came of a poll.
    pub fn poll(&mut self, outcome: PollOutcome) -> (action: PollAction)
        requires
            outcome is Failed ==> old(self)@.may_fail(),
        ensures
            action == old(self)@.action(outcome@),
            final(self)@ == old(self)@.after(outcome@),
    {
        match outcome {
            PollOutcome::Manifest(manifest) => {
                self.consecutive_failures = 0;
                let changed = match &self.last_manifest {
                    Some(last) => !same_entries(&last.shares, &manifest.shares),
                    None => true,
                };
                self.last_manifest = Some(manifest);
                if changed {
                    PollAction::Reconcile
                } else {
                    PollAction::Wait
                }
            },
            PollOutcome::Unreadable => {
                self.consecutive_failures = 0;
                PollAction::Wait
            },
            PollOutcome::Failed => {
                self.consecutive_failures = self.consecutive_failures + 1;
                let failures: u64 = self.consecutive_failures as u64;
                assert(failures * POLL_SECS <= u64::MAX) by (nonlinear_arith)
                    requires
                        failures <= u32::MAX,
                        POLL_SECS == 5,
                ;
                let offline: u64 = failures * POLL_SECS as u64;
                if offline >= self.grace_period && self.last_manifest.is_some() {
                    self.last_manifest = None;
                    self.consecutive_failures = 0;
                    PollAction::UnmountAll
                } else {
                    PollAction::Wait
                }
            },
        }
    }
}

impl PollerView {
    /// The number of failed polls in a row after which a known client is given
    /// up: the first at which the grace period has passed.
    pub open spec fn patience(self) -> int {
        if self.grace_period == 0 {
            1
        } else {
            (self.grace_period + POLL_SECS - 1) / POLL_SECS as int
        }
    }

    /// The state after `n` polls in a row have failed.
    pub open spec fn after_failures(self, n: nat) -> PollerView
        decreases n,
    {
        if n == 0 {
            self
        } else {
            self.after_failures((n - 1) as nat).after(OutcomeView::Failed)
        }
    }
}

/// The mounts of a known client stay while it is offline for less than the grace
/// period, and go at the first failed poll at which the period has passed, as far
/// as failures are counted.
pub proof fn grace_is_kept(p: PollerView, n: nat)
    requires
        p.last_manifest is Some,
        p.consecutive_failures == 0,
        n < p.patience(),
        n <= u32::MAX,
    ensures
        p.after_failures(n) == (PollerView { consecutive_failures: n as u32, ..p }),
        p.after_failures(n).action(OutcomeView::Failed) == if n + 1 == p.patience() {
            PollAction::UnmountAll
        } else {
            PollAction::Wait
        },
    decreases n,
{
    if n > 0 {
        grace_is_kept(p, (n - 1) as nat);
    }
}

/// A client that was given up is mounted anew at the first manifest that it
/// offers again.
pub proof fn given_up_then_reconciled(p: PollerView, manifest: ManifestView)
    requires
        p.action(OutcomeView::Failed) == PollAction::UnmountAll,
    ensures
        p.after(OutcomeView::Failed).action(OutcomeView::Manifest(manifest))
            == PollAction::Reconcile,
{
}

/// A manifest that lists the same shares as the last one calls for nothing.
pub proof fn same_shares_call_for_nothing(p: PollerView, first: ManifestView, second: ManifestView)
    requires
        first.shares == second.shares,
    ensures
        p.after(OutcomeView::Manifest(first)).action(OutcomeView::Manifest(second))
            == PollAction::Wait,
{
}

// ---------------------------------------------------------------------------
// Start
// ---------------------------------------------------------------------------

/// A server that is about to start: the tunnel server, no mounts, and no poll
/// yet.
#[derive(Debug)]
pub struct ServerStart {
    pub process: ProcessConfig,
    pub manager: MountManager,
    pub poller: Poller,
}

/// The state of mounts with which a server starts.
pub open spec fn initial_mounts(
    config: ServerConfigView,
    mount_base_dir: PathBuf,
    cache_base_dir: PathBuf,
) -> MountsView {
    MountsView {
        mounts: Seq::empty(),
        mount_base_dir,
        cache_config: config.cache,
        cache_base_dir,
        next_rc_port: config.server.rc_port_range_start,
    }
}

/// Prepares to start the server daemon: checks that chisel is there.
pub fn prepare_server<F: Fn(&PathBuf) -> bool>(
    config: ServerConfig,
    cache_dir: PathBuf,
    dirs: &Vec<PathBuf>,
    is_file: F,
) -> (r: Result<ServerStart, LazyMountError>)
    requires
        forall|p: PathBuf| call_requires(is_file, (&p,)),
    ensures
        match r {
            Ok(start) => {
                &&& exists|t: PathBuf| found_at(is_file, "chisel"@, dirs@, t)
                &&& start.process@ == server_process(config@)
                &&& exists|home: Option<PathBuf>|
                    expands(config@.server.mount_base_dir, home, start.manager@.mount_base_dir)
                &&& start.manager@ == initial_mounts(
                    config@,
                    start.manager@.mount_base_dir,
                    cache_dir,
                )
                &&& start.manager@.wf()
                &&& start.poller@ == (PollerView {
                    last_manifest: None,
                    consecutive_failures: 0,
                    grace_period: config@.server.offline_grace_period,
                })
            },
            Err(e) => found_nowhere(is_file, "chisel"@, dirs@) && e@ == missing("chisel"@),
        },
{
    match check_binary("chisel", dirs, is_file) {
        Ok(_) => {},
        Err(e) => {
            return Err(e);
        },
    }
    let process = ChiselTunnelProvider.server_process(&config);
    let poller = Poller::new(config.server.offline_grace_period);
    let base = config.server.mount_base_dir.as_str();
    assert(base@ == config@.server.mount_base_dir);
    let manager = MountManager::new(
        base,
        config.cache,
        cache_dir,
        config.server.rc_port_range_start,
    );
    Ok(ServerStart { process, manager, poller })
}

// ---------------------------------------------------------------------------
// Reconciliation
// ---------------------------------------------------------------------------

/// Whether some mount is of a share of that name.
pub open spec fn is_mounted(m: MountsView, name: Seq<char>) -> bool {
    exists|i: int| 0 <= i < m.mounts.len() && (#[trigger] m.mounts[i]).1.share_name == name
}

/// Whether a manifest lists a share of that name.
pub open spec fn is_listed(manifest: ManifestView, name: Seq<char>) -> bool {
    exists|i: int|
        0 <= i < manifest.shares.len() && (#[trigger] manifest.shares[i]).name == name
}

/// The port at which a manifest lists a share: that of the first entry of the
/// name.
pub open spec fn listed_port(shares: Seq<EntryView>, name: Seq<char>) -> Option<u16>
    decreases shares.len(),
{
    if shares.len() == 0 {
        None
    } else {
        match listed_port(shares.drop_last(), name) {
            Some(port) => Some(port),
            None => if shares.last().name == name {
                Some(shares.last().tunneled_port)
            } else {
                None
            },
        }
    }
}

/// Whether a share of the manifest's client is mounted at another port than the
/// one at which the manifest lists it.
pub open spec fn is_moved(m: MountsView, manifest: ManifestView, name: Seq<char>) -> bool {
    exists|i: int|
        {
            &&& 0 <= i < m.mounts.len()
            &&& (#[trigger] m.mounts[i]).1.share_name == name
            &&& m.mounts[i].1.client_name == manifest.client_name
            &&& listed_port(manifest.shares, name) is Some
            &&& listed_port(manifest.shares, name) != Some(m.mounts[i].1.tunneled_port)
        }
}

/// How mounts are made to match a manifest: the names of the shares to unmount
/// first, and then the shares to mount.
#[derive(Debug, PartialEq)]
pub struct Reconciliation {
    pub unmount: Vec<String>,
    pub mount: Vec<ShareManifestEntry>,
}

/// Whether these are the shares to unmount: every one that is mounted and is not
/// listed, or is listed at another port, once.
pub open spec fn to_unmount(
    m: MountsView,
    manifest: ManifestView,
    names: Seq<Seq<char>>,
) -> bool {
    &&& names.no_duplicates()
    &&& forall|n: Seq<char>| #[trigger]
        names.contains(n) <==> is_mounted(m, n) && (!is_listed(manifest, n) || is_moved(
            m,
            manifest,
            n,
        ))
}

/// Whether an entry of a manifest is to be mounted: its share is not mounted, or
/// is mounted at another port than this one, at which it is listed.
pub open spec fn is_due(m: MountsView, manifest: ManifestView, e: EntryView) -> bool {
    ||| !is_mounted(m, e.name)
    ||| is_moved(m, manifest, e.name) && listed_port(manifest.shares, e.name) == Some(
        e.tunneled_port,
    )
}

/// The shares to mount, in order.
pub open spec fn to_mount(m: MountsView, manifest: ManifestView) -> Seq<EntryView> {
    manifest.shares.filter(|e: EntryView| is_due(m, manifest, e))
}

fn mounts_share(mounts: &Vec<MountedShare>, name: &str) -> (found: bool)
    ensures
        found == exists|i: int|
            0 <= i < mounts@.len() && (#[trigger] mounts@[i])@.share_name == name@,
{
    let mut i: usize = 0;
    while i < mounts.len()
        invariant
            i <= mounts@.len(),
            forall|j: int| 0 <= j < i ==> (#[trigger] mounts@[j])@.share_name != name@,
        decreases mounts@.len() - i,
    {
        if same_text(mounts[i].share_name.as_str(), name) {
            return true;
        }
        i += 1;
    }
    false
}

proof fn lemma_listed_port(shares: Seq<EntryView>, name: Seq<char>)
    ensures
        listed_port(shares, name) is Some == exists|i: int|
            0 <= i < shares.len() && (#[trigger] shares[i]).name == name,
        listed_port(shares, name) matches Some(port) ==> shares.contains(
            EntryView { name, tunneled_port: port },
        ),
    decreases shares.len(),
{
    if shares.len() > 0 {
        let front = shares.drop_last();
        lemma_listed_port(front, name);
        assert(shares[shares.len() - 1] == shares.last());
        if listed_port(front, name) is Some {
            let entry = EntryView { name, tunneled_port: listed_port(front, name)->Some_0 };
            let k = choose|k: int| 0 <= k < front.len() && front[k] == entry;
            assert(shares[k] == entry);
        } else if exists|i: int| 0 <= i < shares.len() && (#[trigger] shares[i]).name == name {
            let i = choose|i: int| 0 <= i < shares.len() && (#[trigger] shares[i]).name == name;
            if i < front.len() {
                assert(front[i].name == name);
            }
        }
    }
}

proof fn lemma_listed_port_prefix(shares: Seq<EntryView>, name: Seq<char>, n: int)
    requires
        0 <= n <= shares.len(),
        listed_port(shares.take(n), name) is Some,
    ensures
        listed_port(shares, name) == listed_port(shares.take(n), name),
    decreases shares.len(),
{
    if n < shares.len() {
        assert(shares.drop_last().take(n) =~= shares.take(n));
        lemma_listed_port_prefix(shares.drop_last(), name, n);
    } else {
        assert(shares.take(n) =~= shares);
    }
}

fn find_listed_port(manifest: &ShareManifest, name: &str) -> (port: Option<u16>)
    ensures
        port == listed_port(manifest@.shares, name@),
        port is Some == is_listed(manifest@, name@),
{
    let ghost all = manifest@.shares;
    proof {
        lemma_listed_port(all, name@);
    }
    let mut i: usize = 0;
    while i < manifest.shares.len()
        invariant
            i <= manifest.shares@.len(),
            all == manifest@.shares,
            listed_port(all, name@) is Some == is_listed(manifest@, name@),
            listed_port(all.take(i as int), name@) is None,
        decreases manifest.shares@.len() - i,
    {
        assert(all[i as int] == manifest.shares@[i as int]@);
        assert(all.take(i + 1).drop_last() =~= all.take(i as int));
        if same_text(manifest.shares[i].name.as_str(), name) {
            proof {
                lemma_listed_port_prefix(all, name@, i + 1);
            }
            return Some(manifest.shares[i].tunneled_port);
        }
        i += 1;
    }
    assert(all.take(i as int) =~= all);
    None
}

fn has_moved(
    mounts: &Vec<MountedShare>,
    manifest: &ShareManifest,
    name: &str,
) -> (moved: bool)
    ensures
        moved == exists|i: int|
            {
                &&& 0 <= i < mounts@.len()
                &&& (#[trigger] mounts@[i])@.share_name == name@
                &&& mounts@[i]@.client_name == manifest@.client_name
                &&& listed_port(manifest@.shares, name@) is Some
                &&& listed_port(manifest@.shares, name@) != Some(mounts@[i]@.tunneled_port)
            },
{
    let port: u16 = match find_listed_port(manifest, name) {
        Some(port) => port,
        None => {
            return false;
        },
    };
    let mut i: usize = 0;
    while i < mounts.len()
        invariant
            i <= mounts@.len(),
            listed_port(manifest@.shares, name@) == Some(port),
            forall|j: int|
                0 <= j < i ==> (#[trigger] mounts@[j])@.share_name != name@
                    || mounts@[j]@.client_name != manifest@.client_name
                    || mounts@[j]@.tunneled_port == port,
        decreases mounts@.len() - i,
    {
        if same_text(mounts[i].share_name.as_str(), name) && same_text(
            mounts[i].client_name.as_str(),
            manifest.client_name.as_str(),
        ) && mounts[i].tunneled_port != port {
            return true;
        }
        i += 1;
    }
    false
}

proof fn lemma_same_moved(
    mounts: Seq<MountedShare>,
    m: MountsView,
    manifest: ManifestView,
    name: Seq<char>,
)
    requires
        mounts.len() == m.mounts.len(),
        forall|k: int| 0 <= k < mounts.len() ==> (#[trigger] mounts[k])@ == m.mounts[k].1,
    ensures
        is_moved(m, manifest, name) == exists|i: int|
            {
                &&& 0 <= i < mounts.len()
                &&& (#[trigger] mounts[i])@.share_name == name
                &&& mounts[i]@.client_name == manifest.client_name
                &&& listed_port(manifest.shares, name) is Some
                &&& listed_port(manifest.shares, name) != Some(mounts[i]@.tunneled_port)
            },
{
    if is_moved(m, manifest, name) {
        let i = choose|i: int|
            {
                &&& 0 <= i < m.mounts.len()
                &&& (#[trigger] m.mounts[i]).1.share_name == name
                &&& m.mounts[i].1.client_name == manifest.client_name
                &&& listed_port(manifest.shares, name) is Some
                &&& listed_port(manifest.shares, name) != Some(m.mounts[i].1.tunneled_port)
            };
        assert(mounts[i]@.share_name == name);
    }
}

/// Compares a manifest with the current mounts: what to unmount, and what to
/// mount.
pub fn reconcile_mounts(manager: &MountManager, manifest: &ShareManifest) -> (r: Reconciliation)
    ensures
        to_unmount(manager@, manifest@, texts(r.unmount@)),
        entries(r.mount@) == to_mount(manager@, manifest@),
{
    let mounts = manager.list_mounts();
    let ghost m = manager@;
    let ghost views = mounts@.map_values(|m: MountedShare| m@);
    assert(views.len() == m.mounts.len());
    assert forall|k: int| 0 <= k < mounts@.len() implies (#[trigger] mounts@[k])@
        == m.mounts[k].1 by {
        assert(views[k] == values(m.mounts)[k]);
    }
    let mut unmount: Vec<String> = Vec::new();
    assert(texts(unmount@) =~= Seq::<Seq<char>>::empty());
    let mut i: usize = 0;
    while i < mounts.len()
        invariant
            i <= mounts@.len(),
            mounts@.len() == m.mounts.len(),
            forall|k: int|
                0 <= k < mounts@.len() ==> (#[trigger] mounts@[k])@ == m.mounts[k].1,
            texts(unmount@).no_duplicates(),
            forall|n: Seq<char>| #[trigger]
                texts(unmount@).contains(n) ==> is_mounted(m, n) && (!is_listed(manifest@, n)
                    || is_moved(m, manifest@, n)),
            forall|j: int|
                0 <= j < i && (!is_listed(manifest@, (#[trigger] m.mounts[j]).1.share_name)
                    || is_moved(m, manifest@, m.mounts[j].1.share_name)) ==> texts(
                    unmount@,
                ).contains(m.mounts[j].1.share_name),
        decreases mounts@.len() - i,
    {
        let name = mounts[i].share_name.clone();
        assert(m.mounts[i as int].1 == mounts@[i as int]@);
        assert(is_mounted(m, name@));
        let ghost before = texts(unmount@);
        let known = contains_text(&unmount, name.as_str());
        let listed = find_listed_port(manifest, name.as_str()).is_some();
        let moved = has_moved(&mounts, manifest, name.as_str());
        proof {
            lemma_same_moved(mounts@, m, manifest@, name@);
        }
        if (!listed || moved) && !known {
            unmount.push(name);
            assert(texts(unmount@) =~= before.push(name@));
            assert forall|n: Seq<char>| #[trigger]
                texts(unmount@).contains(n) == (before.contains(n) || n == name@) by {
                if before.contains(n) {
                    let k = choose|k: int| 0 <= k < before.len() && before[k] == n;
                    assert(texts(unmount@)[k] == n);
                }
                assert(texts(unmount@)[before.len() as int] == name@);
                if texts(unmount@).contains(n) && n != name@ {
                    let k = choose|k: int|
                        0 <= k < texts(unmount@).len() && texts(unmount@)[k] == n;
                    assert(before[k] == n);
                }
            }
        }
        i += 1;
    }
    assert forall|n: Seq<char>|
        is_mounted(m, n) && (!is_listed(manifest@, n) || is_moved(m, manifest@, n)) implies texts(
        unmount@,
    ).contains(n) by {
        let j = choose|j: int|
            0 <= j < m.mounts.len() && (#[trigger] m.mounts[j]).1.share_name == n;
        assert(texts(unmount@).contains(m.mounts[j].1.share_name));
    }
    let mut mount: Vec<ShareManifestEntry> = Vec::new();
    let ghost all = manifest@.shares;
    let ghost new = |e: EntryView| is_due(m, manifest@, e);
    assert(all.take(0).filter(new) =~= Seq::empty()) by {
        reveal(Seq::filter);
    }
    assert(entries(mount@) =~= all.take(0).filter(new));
    let mut i: usize = 0;
    while i < manifest.shares.len()
        invariant
            i <= manifest.shares@.len(),
            all == manifest@.shares,
            new == (|e: EntryView| is_due(m, manifest@, e)),
            mounts@.len() == m.mounts.len(),
            forall|k: int|
                0 <= k < mounts@.len() ==> (#[trigger] mounts@[k])@ == m.mounts[k].1,
            entries(mount@) == all.take(i as int).filter(new),
        decreases manifest.shares@.len() - i,
    {
        let entry = &manifest.shares[i];
        assert(all[i as int] == entry@);
        assert(all.take(i + 1).drop_last() =~= all.take(i as int));
        proof {
            reveal(Seq::filter);
        }
        let ghost before = entries(mount@);
        let mounted = mounts_share(&mounts, entry.name.as_str());
        assert(mounted == is_mounted(m, entry@.name)) by {
            if is_mounted(m, entry@.name) {
                let k = choose|k: int|
                    0 <= k < m.mounts.len() && (#[trigger] m.mounts[k]).1.share_name
                        == entry@.name;
                assert(mounts@[k]@.share_name == entry@.name);
            }
        }
        let moved = has_moved(&mounts, manifest, entry.name.as_str());
        let port = find_listed_port(manifest, entry.name.as_str());
        let here = match port {
            Some(port) => port == entry.tunneled_port,
            None => false,
        };
        proof {
            lemma_same_moved(mounts@, m, manifest@, entry@.name);
        }
        assert((!mounted || (moved && here)) == is_due(m, manifest@, entry@));
        if !mounted || (moved && here) {
            mount.push(entry.clone());
            assert(entries(mount@) =~= before.push(entry@));
        }
        assert(entries(mount@) =~= all.take(i + 1).filter(new));
        i += 1;
    }
    assert(all.take(i as int) =~= all);
    Reconciliation { unmount, mount }
}

/// The mounts after some shares of a client were unmounted, one by one.
pub open spec fn all_unmounted(
    m: MountsView,
    client: Seq<char>,
    names: Seq<Seq<char>>,
) -> MountsView
    decreases names.len(),
{
    if names.len() == 0 {
        m
    } else {
        all_unmounted(m, client, names.drop_last()).unmounted(mount_key(client, names.last()))
    }
}

/// The mounts after some shares of a client were mounted, one by one, each with
/// its control port and its mount point. One that is mounted already is refused.
pub open spec fn all_mounted(
    m: MountsView,
    client: Seq<char>,
    shares: Seq<EntryView>,
    places: Seq<(u16, PathBuf)>,
) -> MountsView
    decreases shares.len(),
{
    if shares.len() == 0 {
        m
    } else {
        let n = all_mounted(m, client, shares.drop_last(), places);
        let share = shares.last();
        let (port, point) = places[shares.len() - 1];
        if named(n.mounts, mount_key(client, share.name)) {
            n
        } else {
            n.taken(port).mounted(new_mount(share.name, client, share.tunneled_port, port, point))
        }
    }
}

/// Whether every port that is taken may be taken when its turn comes, and every
/// mount is in its place.
pub open spec fn may_take_all(
    m: MountsView,
    client: Seq<char>,
    shares: Seq<EntryView>,
    places: Seq<(u16, PathBuf)>,
) -> bool
    decreases shares.len(),
{
    shares.len() == 0 || {
        let n = all_mounted(m, client, shares.drop_last(), places);
        &&& may_take_all(m, client, shares.drop_last(), places)
        &&& named(n.mounts, mount_key(client, shares.last().name)) || {
            &&& n.may_take(places[shares.len() - 1].0)
            &&& n.is_place(shares.last().name, places[shares.len() - 1].1)
        }
    }
}

/// Whether all mounts are of one client.
pub open spec fn all_of(m: MountsView, client: Seq<char>) -> bool {
    forall|i: int| 0 <= i < m.mounts.len() ==> (#[trigger] m.mounts[i]).1.client_name == client
}

proof fn lemma_keys_differ(client: Seq<char>, a: Seq<char>, b: Seq<char>)
    requires
        mount_key(client, a) == mount_key(client, b),
    ensures
        a == b,
{
    let n = (client + "/"@).len() as int;
    assert(mount_key(client, a).skip(n) =~= a);
    assert(mount_key(client, b).skip(n) =~= b);
}

proof fn lemma_mounted_by_key(m: MountsView, client: Seq<char>, name: Seq<char>)
    requires
        m.wf(),
        all_of(m, client),
    ensures
        is_mounted(m, name) == named(m.mounts, mount_key(client, name)),
{
    if is_mounted(m, name) {
        let i = choose|i: int|
            0 <= i < m.mounts.len() && (#[trigger] m.mounts[i]).1.share_name == name;
        assert(m.mounts[i].0 == mount_key(client, name));
    }
    if named(m.mounts, mount_key(client, name)) {
        let i = place(m.mounts, mount_key(client, name));
        assert(m.mounts[i].0 == mount_key(client, name));
        lemma_keys_differ(client, m.mounts[i].1.share_name, name);
    }
}

proof fn lemma_all_unmounted(m: MountsView, client: Seq<char>, names: Seq<Seq<char>>)
    requires
        m.wf(),
        all_of(m, client),
    ensures
        all_unmounted(m, client, names).wf(),
        all_of(all_unmounted(m, client, names), client),
        forall|n: Seq<char>| #[trigger]
            is_mounted(all_unmounted(m, client, names), n) == (is_mounted(m, n) && !names.contains(
                n,
            )),
    decreases names.len(),
{
    if names.len() > 0 {
        let front = names.drop_last();
        let last = names.last();
        lemma_all_unmounted(m, client, front);
        let before = all_unmounted(m, client, front);
        let after = before.unmounted(mount_key(client, last));
        unmounting_keeps_order(before, mount_key(client, last));
        without_keeps_order(before.mounts, mount_key(client, last));
        assert forall|i: int| 0 <= i < after.mounts.len() implies (
        #[trigger] after.mounts[i]).1.client_name == client by {
            let j = crate::names::place_before(before.mounts, mount_key(client, last), i);
            assert(after.mounts[i] == before.mounts[j]);
        }
        assert forall|n: Seq<char>| #[trigger]
            is_mounted(after, n) == (is_mounted(m, n) && !names.contains(n)) by {
            lemma_mounted_by_key(before, client, n);
            lemma_mounted_by_key(after, client, n);
            lookup_without(before.mounts, mount_key(client, last), mount_key(client, n));
            if mount_key(client, n) == mount_key(client, last) {
                lemma_keys_differ(client, n, last);
            }
            if front.contains(n) {
                let k = choose|k: int| 0 <= k < front.len() && front[k] == n;
                assert(names[k] == n);
            }
            if names.contains(n) && n != last {
                let k = choose|k: int| 0 <= k < names.len() && names[k] == n;
                assert(front[k] == n);
            }
            assert(names[names.len() - 1] == last);
        }
    }
}

proof fn lemma_all_mounted(
    m: MountsView,
    client: Seq<char>,
    shares: Seq<EntryView>,
    places: Seq<(u16, PathBuf)>,
)
    requires
        m.wf(),
        all_of(m, client),
        may_take_all(m, client, shares, places),
    ensures
        all_mounted(m, client, shares, places).wf(),
        all_of(all_mounted(m, client, shares, places), client),
        forall|n: Seq<char>| #[trigger]
            is_mounted(all_mounted(m, client, shares, places), n) == (is_mounted(m, n) || exists|
                k: int,
            |
                0 <= k < shares.len() && (#[trigger] shares[k]).name == n),
    decreases shares.len(),
{
    if shares.len() > 0 {
        let front = shares.drop_last();
        let share = shares.last();
        let (port, point) = places[shares.len() - 1];
        lemma_all_mounted(m, client, front, places);
        let before = all_mounted(m, client, front, places);
        let after = all_mounted(m, client, shares, places);
        let key = mount_key(client, share.name);
        let mount = new_mount(share.name, client, share.tunneled_port, port, point);
        assert(shares[shares.len() - 1] == share);
        if !named(before.mounts, key) {
            taking_makes_ready(before, share.name, client, share.tunneled_port, port, point);
            mounting_keeps_order(before.taken(port), mount);
            assert forall|i: int| 0 <= i < after.mounts.len() implies (
            #[trigger] after.mounts[i]).1.client_name == client by {
                if i < before.mounts.len() {
                    assert(after.mounts[i] == before.mounts[i]);
                }
            }
        }
        assert forall|n: Seq<char>| #[trigger]
            is_mounted(after, n) == (is_mounted(m, n) || exists|k: int|
                0 <= k < shares.len() && (#[trigger] shares[k]).name == n) by {
            lemma_mounted_by_key(before, client, n);
            lemma_mounted_by_key(after, client, n);
            lookup_put(before.mounts, key, mount, mount_key(client, n));
            if mount_key(client, n) == key {
                lemma_keys_differ(client, n, share.name);
            }
            if exists|k: int| 0 <= k < front.len() && (#[trigger] front[k]).name == n {
                let k = choose|k: int| 0 <= k < front.len() && (#[trigger] front[k]).name == n;
                assert(shares[k].name == n);
            }
            if exists|k: int| 0 <= k < shares.len() && (#[trigger] shares[k]).name == n {
                let k = choose|k: int| 0 <= k < shares.len() && (#[trigger] shares[k]).name == n;
                if k < front.len() {
                    assert(front[k].name == n);
                }
            }
        }
    }
}

/// The mounts after everything that is to be unmounted, and then everything that
/// is to be mounted, was.
pub open spec fn reconciled(
    m: MountsView,
    manifest: ManifestView,
    unmount: Seq<Seq<char>>,
    places: Seq<(u16, PathBuf)>,
) -> MountsView {
    let client = manifest.client_name;
    all_mounted(all_unmounted(m, client, unmount), client, to_mount(m, manifest), places)
}

proof fn lemma_left_from(m: MountsView, client: Seq<char>, names: Seq<Seq<char>>, i: int)
    requires
        m.wf(),
        all_of(m, client),
        0 <= i < all_unmounted(m, client, names).mounts.len(),
    ensures
        exists|j: int|
            0 <= j < m.mounts.len() && #[trigger] m.mounts[j] == all_unmounted(
                m,
                client,
                names,
            ).mounts[i],
    decreases names.len(),
{
    if names.len() > 0 {
        let front = names.drop_last();
        let before = all_unmounted(m, client, front);
        let key = mount_key(client, names.last());
        lemma_all_unmounted(m, client, front);
        without_keeps_order(before.mounts, key);
        let k = crate::names::place_before(before.mounts, key, i);
        assert(before.unmounted(key).mounts[i] == before.mounts[k]);
        lemma_left_from(m, client, front, k);
    } else {
        assert(m.mounts[i] == all_unmounted(m, client, names).mounts[i]);
    }
}

proof fn lemma_mount_origin(
    m: MountsView,
    client: Seq<char>,
    shares: Seq<EntryView>,
    places: Seq<(u16, PathBuf)>,
    i: int,
)
    requires
        m.wf(),
        all_of(m, client),
        may_take_all(m, client, shares, places),
        0 <= i < all_mounted(m, client, shares, places).mounts.len(),
    ensures
        ({
            let mount = all_mounted(m, client, shares, places).mounts[i].1;
            ||| i < m.mounts.len() && mount == m.mounts[i].1
            ||| listed_port(shares, mount.share_name) == Some(mount.tunneled_port)
        }),
    decreases shares.len(),
{
    let n = all_mounted(m, client, shares, places);
    if shares.len() > 0 {
        let front = shares.drop_last();
        let before = all_mounted(m, client, front, places);
        let mount = n.mounts[i].1;
        if i < before.mounts.len() {
            assert(n.mounts[i] == before.mounts[i]);
            lemma_mount_origin(m, client, front, places, i);
        } else {
            let name = shares.last().name;
            lemma_all_mounted(m, client, front, places);
            lemma_mounted_by_key(before, client, name);
            lemma_listed_port(front, name);
            assert(mount.share_name == name);
            assert(!is_mounted(before, name));
            assert(listed_port(front, name) is None);
        }
    }
}

proof fn lemma_listed_port_kept(
    shares: Seq<EntryView>,
    keep: spec_fn(EntryView) -> bool,
    name: Seq<char>,
)
    requires
        forall|e: EntryView|
            e.name == name && listed_port(shares, name) == Some(e.tunneled_port) ==> #[trigger] keep(
                e,
            ),
    ensures
        listed_port(shares.filter(keep), name) == listed_port(shares, name),
    decreases shares.len(),
{
    reveal(Seq::filter);
    if shares.len() > 0 {
        let front = shares.drop_last();
        lemma_listed_port_kept(front, keep, name);
        if keep(shares.last()) {
            let kept = shares.filter(keep);
            assert(kept.drop_last() =~= front.filter(keep));
            assert(kept.last() == shares.last());
        }
    }
}

proof fn lemma_due(m: MountsView, manifest: ManifestView, name: Seq<char>)
    ensures
        (exists|k: int|
            0 <= k < to_mount(m, manifest).len() && (#[trigger] to_mount(m, manifest)[k]).name
                == name) == (is_listed(manifest, name) && (!is_mounted(m, name) || is_moved(
            m,
            manifest,
            name,
        ))),
        !is_mounted(m, name) || is_moved(m, manifest, name) ==> listed_port(
            to_mount(m, manifest),
            name,
        ) == listed_port(manifest.shares, name),
{
    let due = |e: EntryView| is_due(m, manifest, e);
    let shares = to_mount(m, manifest);
    lemma_listed_port(manifest.shares, name);
    lemma_listed_port(shares, name);
    if exists|k: int| 0 <= k < shares.len() && (#[trigger] shares[k]).name == name {
        let k = choose|k: int| 0 <= k < shares.len() && (#[trigger] shares[k]).name == name;
        lemma_filter_from(manifest.shares, due, k);
    }
    if !is_mounted(m, name) || is_moved(m, manifest, name) {
        assert forall|e: EntryView|
            e.name == name && listed_port(manifest.shares, name) == Some(
                e.tunneled_port,
            ) implies #[trigger] due(e) by {}
        lemma_listed_port_kept(manifest.shares, due, name);
    }
}

/// Where all mounts are of the client that offers the manifest, and everything
/// that is to be unmounted and mounted is, the shares that are mounted are those
/// that the manifest lists, each at the port at which it is listed.
pub proof fn reconciled_mounts_match(
    m: MountsView,
    manifest: ManifestView,
    unmount: Seq<Seq<char>>,
    places: Seq<(u16, PathBuf)>,
)
    requires
        m.wf(),
        all_of(m, manifest.client_name),
        to_unmount(m, manifest, unmount),
        may_take_all(
            all_unmounted(m, manifest.client_name, unmount),
            manifest.client_name,
            to_mount(m, manifest),
            places,
        ),
    ensures
        ({
            let n = reconciled(m, manifest, unmount, places);
            &&& n.wf()
            &&& all_of(n, manifest.client_name)
            &&& forall|name: Seq<char>| #[trigger]
                is_mounted(n, name) == is_listed(manifest, name)
            &&& forall|i: int|
                0 <= i < n.mounts.len() ==> {
                    let mount = (#[trigger] n.mounts[i]).1;
                    &&& listed_port(manifest.shares, mount.share_name) == Some(
                        mount.tunneled_port,
                    )
                    &&& manifest.shares.contains(
                        EntryView { name: mount.share_name, tunneled_port: mount.tunneled_port },
                    )
                }
        }),
{
    let client = manifest.client_name;
    let left = all_unmounted(m, client, unmount);
    let shares = to_mount(m, manifest);
    let n = reconciled(m, manifest, unmount, places);
    lemma_all_unmounted(m, client, unmount);
    lemma_all_mounted(left, client, shares, places);
    assert forall|name: Seq<char>| #[trigger] is_mounted(n, name) == is_listed(manifest, name) by {
        lemma_due(m, manifest, name);
        assert(is_mounted(left, name) == (is_mounted(m, name) && !unmount.contains(name)));
    }
    assert forall|i: int| 0 <= i < n.mounts.len() implies listed_port(
        manifest.shares,
        (#[trigger] n.mounts[i]).1.share_name,
    ) == Some(n.mounts[i].1.tunneled_port) && manifest.shares.contains(
        EntryView {
            name: n.mounts[i].1.share_name,
            tunneled_port: n.mounts[i].1.tunneled_port,
        },
    ) by {
        let mount = n.mounts[i].1;
        let name = mount.share_name;
        lemma_mount_origin(left, client, shares, places, i);
        lemma_listed_port(manifest.shares, name);
        lemma_listed_port(shares, name);
        lemma_due(m, manifest, name);
        if i < left.mounts.len() && mount == left.mounts[i].1 {
            lemma_left_from(m, client, unmount, i);
            let j = choose|j: int|
                0 <= j < m.mounts.len() && #[trigger] m.mounts[j] == left.mounts[i];
            assert(m.mounts[j].1.share_name == name);
            assert(is_mounted(left, name));
            assert(!unmount.contains(name));
            assert(!is_moved(m, manifest, name));
        }
    }
}

/// Mounts that match a manifest, ports too, stay as they are when it comes again.
pub proof fn matching_mounts_stay(m: MountsView, manifest: ManifestView, unmount: Seq<Seq<char>>)
    requires
        forall|name: Seq<char>| #[trigger] is_mounted(m, name) == is_listed(manifest, name),
        forall|i: int|
            0 <= i < m.mounts.len() ==> listed_port(
                manifest.shares,
                (#[trigger] m.mounts[i]).1.share_name,
            ) == Some(m.mounts[i].1.tunneled_port),
        to_unmount(m, manifest, unmount),
    ensures
        unmount.len() == 0,
        to_mount(m, manifest).len() == 0,
{
    if unmount.len() > 0 {
        assert(unmount.contains(unmount[0]));
    }
    let shares = to_mount(m, manifest);
    if shares.len() > 0 {
        let name = shares[0].name;
        lemma_due(m, manifest, name);
        assert(is_mounted(m, name) == is_listed(manifest, name));
    }
}

/// Once mounts were reconciled with a manifest, to reconcile them with it again
/// calls for nothing.
pub proof fn reconciling_twice(
    m: MountsView,
    manifest: ManifestView,
    unmount: Seq<Seq<char>>,
    places: Seq<(u16, PathBuf)>,
    again: Seq<Seq<char>>,
)
    requires
        m.wf(),
        all_of(m, manifest.client_name),
        to_unmount(m, manifest, unmount),
        may_take_all(
            all_unmounted(m, manifest.client_name, unmount),
            manifest.client_name,
            to_mount(m, manifest),
            places,
        ),
        to_unmount(reconciled(m, manifest, unmount, places), manifest, again),
    ensures
        again.len() == 0,
        to_mount(reconciled(m, manifest, unmount, places), manifest).len() == 0,
{
    reconciled_mounts_match(m, manifest, unmount, places);
    matching_mounts_stay(reconciled(m, manifest, unmount, places), manifest, again);
}

// ---------------------------------------------------------------------------
// Sizes
// ---------------------------------------------------------------------------

/// The bytes of a kilobyte.
pub const KB: u64 = 1024;

/// The bytes of a megabyte.
pub const MB: u64 = 1048576;

/// The bytes of a gigabyte.
pub const GB: u64 = 1073741824;

/// The integers below this one are doubles.
pub const DOUBLE_LIMIT: u64 = 9007199254740992;

/// `n / d`, rounded to the nearest integer, and to the even one of two.
pub open spec fn nearest(n: nat, d: nat) -> nat {
    let q = n / d;
    let r = n % d;
    if 2 * r < d || (2 * r == d && q % 2 == 0) {
        q
    } else {
        q + 1
    }
}

/// The distance between the doubles around `n`.
pub open spec fn spacing(n: nat) -> nat
    decreases n,
{
    if n < DOUBLE_LIMIT {
        1
    } else {
        2 * spacing(n / 2)
    }
}

/// The double that is nearest to an integer, which is an integer too.
pub open spec fn as_double(n: nat) -> nat {
    nearest(n, spacing(n)) * spacing(n)
}

/// The tenths of a unit that a number of bytes, as a double, comes nearest to.
pub open spec fn tenths(bytes: nat, unit: nat) -> nat {
    nearest(10 * as_double(bytes), unit)
}

/// A number of bytes in a unit, with one decimal.
pub open spec fn in_unit(bytes: nat, unit: nat, name: Seq<char>) -> Seq<char> {
    let t = tenths(bytes, unit);
    decimal(t / 10) + "."@ + decimal(t % 10) + name
}

/// A number of bytes as the user reads it: in the largest unit of which there is
/// at least one.
pub open spec fn size_text(bytes: nat) -> Seq<char> {
    if bytes >= GB {
        in_unit(bytes, GB as nat, " GB"@)
    } else if bytes >= MB {
        in_unit(bytes, MB as nat, " MB"@)
    } else if bytes >= KB {
        in_unit(bytes, KB as nat, " KB"@)
    } else {
        decimal(bytes) + " B"@
    }
}

fn nearest_to(n: u128, d: u128) -> (q: u128)
    requires
        0 < d <= 0x1_0000_0000_0000_0000,
        n < 0x1_0000_0000_0000_0000_0000,
    ensures
        q == nearest(n as nat, d as nat),
{
    let q = n / d;
    let r = n % d;
    assert(q <= n) by (nonlinear_arith)
        requires
            q == n / d,
            d > 0,
    ;
    if 2 * r < d || (2 * r == d && q % 2 == 0) {
        q
    } else {
        q + 1
    }
}

proof fn lemma_spacing(n: nat)
    ensures
        spacing(n) >= 1,
        n < DOUBLE_LIMIT ==> spacing(n) == 1,
        n >= DOUBLE_LIMIT ==> spacing(n) * DOUBLE_LIMIT <= 2 * n,
    decreases n,
{
    if n >= DOUBLE_LIMIT {
        lemma_spacing(n / 2);
    }
}

fn spacing_at(n: u64) -> (s: u64)
    ensures
        s == spacing(n as nat),
        1 <= s <= 4096,
    decreases n,
{
    proof {
        lemma_spacing(n as nat);
    }
    if n < DOUBLE_LIMIT {
        1
    } else {
        let half = spacing_at(n / 2);
        assert(spacing(n as nat) == 2 * spacing((n / 2) as nat));
        2 * half
    }
}

proof fn lemma_nearest(n: nat, d: nat)
    requires
        d > 0,
    ensures
        nearest(n, d) * d <= n + d,
        nearest(n, d) <= n + 1,
{
    let q = n / d;
    assert(q * d <= n && q <= n) by (nonlinear_arith)
        requires
            q == n / d,
            d > 0,
    ;
    assert((q + 1) * d == q * d + d) by (nonlinear_arith);
}

fn text_in_unit(bytes: u64, unit: u64, name: &str) -> (t: String)
    requires
        unit >= KB,
    ensures
        t@ == in_unit(bytes as nat, unit as nat, name@),
{
    let s = spacing_at(bytes);
    let q = nearest_to(bytes as u128, s as u128);
    proof {
        lemma_nearest(bytes as nat, s as nat);
    }
    let double: u128 = q * (s as u128);
    let t10 = nearest_to(10 * double, unit as u128);
    proof {
        lemma_nearest(10 * double as nat, unit as nat);
        assert(1024 * t10 <= 10 * double + 1024) by (nonlinear_arith)
            requires
                t10 * unit <= 10 * double + unit,
                unit >= 1024,
        ;
    }
    let whole: u64 = (t10 / 10) as u64;
    let rest: u64 = (t10 % 10) as u64;
    let mut t = decimal_text(whole);
    t.append(".");
    t.append(decimal_text(rest).as_str());
    t.append(name);
    t
}

/// A number of bytes as the user reads it.
pub fn format_bytes(bytes: u64) -> (t: String)
    ensures
        t@ == size_text(bytes as nat),
{
    if bytes >= GB {
        text_in_unit(bytes, GB, " GB")
    } else if bytes >= MB {
        text_in_unit(bytes, MB, " MB")
    } else if bytes >= KB {
        text_in_unit(bytes, KB, " KB")
    } else {
        let mut t = decimal_text(bytes);
        t.append(" B");
        t
    }
}

// ---------------------------------------------------------------------------
// Requests
// ---------------------------------------------------------------------------

/// What the daemon does about a request.
#[derive(Debug, PartialEq)]
pub enum ServerTask {
    /// Answer.
    Reply(ControlResponse),
    /// Ask a mount for the figures of its cache and for those of its transfers,
    /// each at an address, and answer by [`stats_reply`].
    FetchStats { share_name: String, vfs_url: String, transfer_url: String },
    /// Unmount these, answer, and stop.
    Stop { response: ControlResponse, mounts: Vec<MountedShare> },
}

/// The contents of a [`ServerTask`].
pub enum ServerTaskView {
    Reply(ResponseView),
    FetchStats { share_name: Seq<char>, vfs_url: Seq<char>, transfer_url: Seq<char> },
    Stop { response: ResponseView, mounts: Seq<MountedShareView> },
}

impl View for ServerTask {
    type V = ServerTaskView;

    open spec fn view(&self) -> ServerTaskView {
        match self {
            ServerTask::Reply(response) => ServerTaskView::Reply(response@),
            ServerTask::FetchStats { share_name, vfs_url, transfer_url } => {
                ServerTaskView::FetchStats {
                    share_name: share_name@,
                    vfs_url: vfs_url@,
                    transfer_url: transfer_url@,
                }
            },
            ServerTask::Stop { response, mounts } => ServerTaskView::Stop {
                response: response@,
                mounts: mounts@.map_values(|m: MountedShare| m@),
            },
        }
    }
}

/// The answer for figures that cannot be had.
pub open spec fn no_stats(error: ErrorView) -> ResponseView {
    ResponseView::Error { message: "failed to get stats: "@ + error.message() }
}

fn no_stats_reply(error: &LazyMountError) -> (response: ControlResponse)
    ensures
        response@ == no_stats(error@),
{
    let mut message = "failed to get stats: ".to_string();
    message.append(error.message().as_str());
    ControlResponse::Error { message }
}

/// The answer with the figures of a mount: those of its cache and those of its
/// transfers. Where those of the cache cannot be had, the answer says why. Those of
/// the transfers are left as they stand with the cache's where they cannot be had.
pub fn stats_reply(
    share_name: String,
    vfs: Result<MountStats, LazyMountError>,
    transfer: Result<MountStats, LazyMountError>,
) -> (response: ControlResponse)
    ensures
        response@ == match (vfs, transfer) {
            (Ok(v), Ok(t)) => ResponseView::MountStats {
                share_name: share_name@,
                cache_size_bytes: v.cache_size_bytes,
                cached_files: v.cached_files,
                bytes_transferred: t.bytes_transferred,
                transfer_speed_bits: t.transfer_speed_bits,
            },
            (Ok(v), Err(_)) => ResponseView::MountStats {
                share_name: share_name@,
                cache_size_bytes: v.cache_size_bytes,
                cached_files: v.cached_files,
                bytes_transferred: v.bytes_transferred,
                transfer_speed_bits: v.transfer_speed_bits,
            },
            (Err(e), _) => no_stats(e@),
        },
{
    let stats = match (vfs, transfer) {
        (Ok(v), Ok(t)) => mount_stats(v, t),
        (Ok(v), Err(_)) => v,
        (Err(e), _) => {
            return no_stats_reply(&e);
        },
    };
    ControlResponse::MountStats {
        share_name,
        cache_size_bytes: stats.cache_size_bytes,
        cached_files: stats.cached_files,
        bytes_transferred: stats.bytes_transferred,
        transfer_speed_bits: stats.transfer_speed_bits,
    }
}

/// A mount as it is listed.
pub open spec fn mount_info(mount: MountedShareView) -> MountInfoView {
    MountInfoView {
        client_name: mount.client_name,
        share_name: mount.share_name,
        mount_point: path_text(mount.mount_point),
        cache_size: size_text(
            match mount.stats {
                Some(s) => s.cache_size_bytes as nat,
                None => 0,
            },
        ),
        status: mount.status.label(),
    }
}

/// The first mount of a share of that name.
pub open spec fn first_of(mounts: Seq<MountedShareView>, name: Seq<char>) -> Option<
    MountedShareView,
>
    decreases mounts.len(),
{
    if mounts.len() == 0 {
        None
    } else {
        match first_of(mounts.drop_last(), name) {
            Some(mount) => Some(mount),
            None => if mounts.last().share_name == name {
                Some(mounts.last())
            } else {
                None
            },
        }
    }
}

/// To ask the mount at a control port for the figures of its cache and of its
/// transfers.
pub open spec fn fetch_stats(share_name: Seq<char>, rc_port: u16) -> ServerTaskView {
    ServerTaskView::FetchStats {
        share_name,
        vfs_url: control_url(rc_port) + "/vfs/stats"@,
        transfer_url: control_url(rc_port) + "/core/stats"@,
    }
}

/// What a server does about a request for the figures of a mount.
pub open spec fn stats_task(m: MountsView, share_name: Seq<char>) -> ServerTaskView {
    match first_of(values(m.mounts), share_name) {
        Some(mount) => {
            let key = mount_key(mount.client_name, share_name);
            match lookup(m.mounts, key) {
                Some(kept) => fetch_stats(share_name, kept.rc_port),
                None => ServerTaskView::Reply(no_stats(no_mount(key))),
            }
        },
        None => ServerTaskView::Reply(
            ResponseView::Error { message: "mount '"@ + share_name + "' not found"@ },
        ),
    }
}

/// What a server does about a request.
pub open spec fn server_task(m: MountsView, request: RequestView) -> ServerTaskView {
    match request {
        RequestView::Status => ServerTaskView::Reply(
            ResponseView::Status {
                role: "server"@,
                running: true,
                details: "server daemon running"@,
            },
        ),
        RequestView::MountList => ServerTaskView::Reply(
            ResponseView::MountList {
                mounts: values(m.mounts).map_values(|x: MountedShareView| mount_info(x)),
            },
        ),
        RequestView::MountStats { share_name } => stats_task(m, share_name),
        RequestView::Shutdown => ServerTaskView::Stop {
            response: ResponseView::Done,
            mounts: values(m.mounts),
        },
        _ => ServerTaskView::Reply(
            ResponseView::Error { message: "command not supported on server"@ },
        ),
    }
}

/// The mounts after the task for a request was decided: none where the server is
/// to stop.
pub open spec fn server_after(m: MountsView, request: RequestView) -> MountsView {
    match request {
        RequestView::Shutdown => m.stopped(),
        _ => m,
    }
}

fn mount_infos(manager: &MountManager) -> (infos: Vec<MountInfo>)
    ensures
        infos@.map_values(|m: MountInfo| m@) == values(manager@.mounts).map_values(
            |x: MountedShareView| mount_info(x),
        ),
{
    let mounts = manager.list_mounts();
    let ghost all = values(manager@.mounts);
    let mut infos: Vec<MountInfo> = Vec::new();
    let mut i: usize = 0;
    while i < mounts.len()
        invariant
            i <= mounts@.len(),
            mounts@.map_values(|m: MountedShare| m@) == all,
            infos@.len() == i,
            forall|j: int| 0 <= j < i ==> #[trigger] infos@[j]@ == mount_info(all[j]),
        decreases mounts@.len() - i,
    {
        let mount = &mounts[i];
        assert(mount@ == mounts@.map_values(|m: MountedShare| m@)[i as int]);
        let size: u64 = match &mount.stats {
            Some(s) => s.cache_size_bytes,
            None => 0,
        };
        infos.push(
            MountInfo {
                client_name: mount.client_name.clone(),
                share_name: mount.share_name.clone(),
                mount_point: text_of(&mount.mount_point),
                cache_size: format_bytes(size),
                status: mount.status.label(),
            },
        );
        i += 1;
    }
    assert(mounts@.map_values(|m: MountedShare| m@).len() == mounts@.len());
    assert(infos@.map_values(|m: MountInfo| m@) =~= all.map_values(
        |x: MountedShareView| mount_info(x),
    ));
    infos
}

fn first_client(manager: &MountManager, name: &str) -> (client: Option<String>)
    ensures
        match (client, first_of(values(manager@.mounts), name@)) {
            (Some(c), Some(mount)) => c@ == mount.client_name,
            (None, None) => true,
            _ => false,
        },
{
    let mounts = manager.list_mounts();
    let ghost all = values(manager@.mounts);
    let ghost views = mounts@.map_values(|m: MountedShare| m@);
    assert(views == all);
    assert(views.len() == mounts@.len());
    let mut i: usize = 0;
    while i < mounts.len()
        invariant
            i <= mounts@.len(),
            views == mounts@.map_values(|m: MountedShare| m@),
            views == all,
            all == values(manager@.mounts),
            first_of(all.take(i as int), name@) is None,
        decreases mounts@.len() - i,
    {
        assert(views[i as int] == mounts@[i as int]@);
        assert(all.take(i + 1).drop_last() =~= all.take(i as int));
        if same_text(mounts[i].share_name.as_str(), name) {
            proof {
                lemma_first_of(all, name@, i + 1);
            }
            return Some(mounts[i].client_name.clone());
        }
        i += 1;
    }
    assert(all.take(i as int) =~= all);
    None
}

proof fn lemma_first_of(mounts: Seq<MountedShareView>, name: Seq<char>, n: int)
    requires
        0 <= n <= mounts.len(),
        first_of(mounts.take(n), name) is Some,
    ensures
        first_of(mounts, name) == first_of(mounts.take(n), name),
    decreases mounts.len(),
{
    if n < mounts.len() {
        assert(mounts.drop_last().take(n) =~= mounts.take(n));
        lemma_first_of(mounts.drop_last(), name, n);
    } else {
        assert(mounts.take(n) =~= mounts);
    }
}

/// Decides what to do about a control request on the server side. Where the
/// server is to stop, all mounts are taken out at once.
pub fn handle_server_request(request: ControlRequest, manager: &mut MountManager) -> (task:
    ServerTask)
    ensures
        task@ == server_task(old(manager)@, request@),
        final(manager)@ == server_after(old(manager)@, request@),
        old(manager)@.wf() ==> final(manager)@.wf(),
{
    match request {
        ControlRequest::Status => ServerTask::Reply(
            ControlResponse::Status {
                role: "server".to_string(),
                running: true,
                details: "server daemon running".to_string(),
            },
        ),
        ControlRequest::MountList => ServerTask::Reply(
            ControlResponse::MountList { mounts: mount_infos(manager) },
        ),
        ControlRequest::MountStats { share_name } => match first_client(
            manager,
            share_name.as_str(),
        ) {
            Some(client) => match manager.stats_port(share_name.as_str(), client.as_str()) {
                Ok(rc_port) => {
                    let client = RcloneRcClient::new(rc_port);
                    ServerTask::FetchStats {
                        share_name,
                        vfs_url: client.vfs_stats_url(),
                        transfer_url: client.transfer_stats_url(),
                    }
                },
                Err(e) => ServerTask::Reply(no_stats_reply(&e)),
            },
            None => ServerTask::Reply(
                ControlResponse::Error {
                    message: quoted("mount '", share_name.as_str(), "' not found"),
                },
            ),
        },
        ControlRequest::Shutdown => ServerTask::Stop {
            response: ControlResponse::Done,
            mounts: manager.shutdown(),
        },
        _ => ServerTask::Reply(
            ControlResponse::Error { message: "command not supported on server".to_string() },
        ),
    }
}

/// Numbers of bytes that are doubles are shown without loss but for the rounding
/// to one decimal.
pub proof fn small_sizes_are_exact(bytes: nat)
    requires
        bytes < DOUBLE_LIMIT,
    ensures
        as_double(bytes) == bytes,
{
    lemma_spacing(bytes);
}

/// A request for the figures of a share that is mounted is put to a mount of
/// that share.
pub proof fn stats_come_from_the_mount(m: MountsView, share_name: Seq<char>)
    requires
        m.wf(),
        is_mounted(m, share_name),
    ensures
        exists|i: int|
            {
                &&& 0 <= i < m.mounts.len()
                &&& (#[trigger] m.mounts[i]).1.share_name == share_name
                &&& stats_task(m, share_name) == fetch_stats(share_name, m.mounts[i].1.rc_port)
            },
{
    let all = values(m.mounts);
    let i = choose|i: int|
        0 <= i < m.mounts.len() && (#[trigger] m.mounts[i]).1.share_name == share_name;
    assert(all[i] == m.mounts[i].1);
    lemma_first_is_there(all, share_name, i);
    lemma_first_from(all, share_name);
    let mount = first_of(all, share_name)->Some_0;
    let j = choose|j: int| 0 <= j < all.len() && #[trigger] all[j] == mount;
    assert(m.mounts[j].1 == mount);
    assert(m.mounts[j].0 == mount_key(mount.client_name, mount.share_name));
    lookup_entry(m.mounts, j);
}

proof fn lemma_first_is_there(mounts: Seq<MountedShareView>, name: Seq<char>, i: int)
    requires
        0 <= i < mounts.len(),
        mounts[i].share_name == name,
    ensures
        first_of(mounts, name) is Some,
    decreases mounts.len(),
{
    if i < mounts.len() - 1 {
        assert(mounts.drop_last()[i] == mounts[i]);
        lemma_first_is_there(mounts.drop_last(), name, i);
    }
}

proof fn lemma_first_from(mounts: Seq<MountedShareView>, name: Seq<char>)
    requires
        first_of(mounts, name) is Some,
    ensures
        first_of(mounts, name)->Some_0.share_name == name,
        exists|j: int|
            0 <= j < mounts.len() && #[trigger] mounts[j] == first_of(mounts, name)->Some_0,
    decreases mounts.len(),
{
    let front = mounts.drop_last();
    if first_of(front, name) is Some {
        lemma_first_from(front, name);
        let j = choose|j: int|
            0 <= j < front.len() && #[trigger] front[j] == first_of(front, name)->Some_0;
        assert(mounts[j] == front[j]);
    } else {
        assert(mounts[mounts.len() - 1] == mounts.last());
    }
}

// ---------------------------------------------------------------------------
// Laws of polling
// ---------------------------------------------------------------------------

/// A manifest that lists more or fewer shares than the last one, or that differs from
/// it in the name or the port of any entry, calls for the mounts to be reconciled.
pub proof fn any_changed_entry_is_noticed(p: PollerView, last: ManifestView, new: ManifestView)
    requires
        p.last_manifest == Some(last),
        last.shares.len() != new.shares.len() || exists|i: int|
            {
                &&& 0 <= i < last.shares.len()
                &&& (#[trigger] last.shares[i]).name != new.shares[i].name
                    || last.shares[i].tunneled_port != new.shares[i].tunneled_port
            },
    ensures
        p.action(OutcomeView::Manifest(new)) == PollAction::Reconcile,
{
    if last.shares.len() == new.shares.len() {
        let i = choose|i: int|
            {
                &&& 0 <= i < last.shares.len()
                &&& (#[trigger] last.shares[i]).name != new.shares[i].name
                    || last.shares[i].tunneled_port != new.shares[i].tunneled_port
            };
        assert(last.shares[i] != new.shares[i]);
    }
}

/// A manifest that agrees with the last one in the name and the port of every entry
/// calls for nothing.
pub proof fn an_unchanged_list_calls_for_nothing(
    p: PollerView,
    last: ManifestView,
    new: ManifestView,
)
    requires
        p.last_manifest == Some(last),
        last.shares.len() == new.shares.len(),
        forall|i: int|
            0 <= i < last.shares.len() ==> (#[trigger] last.shares[i]).name == new.shares[i].name
                && last.shares[i].tunneled_port == new.shares[i].tunneled_port,
    ensures
        p.action(OutcomeView::Manifest(new)) == PollAction::Wait,
{
    assert(last.shares =~= new.shares);
}

/// The first manifest calls for the mounts to be reconciled. Every manifest is
/// remembered, whatever it calls for, and ends the count of failures.
pub proof fn a_manifest_is_remembered(p: PollerView, manifest: ManifestView)
    ensures
        p.last_manifest is None ==> p.action(OutcomeView::Manifest(manifest))
            == PollAction::Reconcile,
        p.after(OutcomeView::Manifest(manifest)).last_manifest == Some(manifest),
        p.after(OutcomeView::Manifest(manifest)).consecutive_failures == 0,
        p.after(OutcomeView::Manifest(manifest)).grace_period == p.grace_period,
{
}

/// An answer that cannot be read calls for nothing and ends the count of failures;
/// the last manifest is kept.
pub proof fn an_unreadable_answer_is_passed_over(p: PollerView)
    ensures
        p.action(OutcomeView::Unreadable) == PollAction::Wait,
        p.after(OutcomeView::Unreadable).last_manifest == p.last_manifest,
        p.after(OutcomeView::Unreadable).consecutive_failures == 0,
        p.after(OutcomeView::Unreadable).grace_period == p.grace_period,
{
}

/// With a poll every five seconds, a known client is given up at the failed poll at
/// which the failures in a row make up the grace period, and not before. It is then
/// forgotten. A failure before that is counted, and one of a client that is not known
/// only that.
pub proof fn a_client_is_given_up_after_the_grace_period(p: PollerView)
    requires
        p.consecutive_failures < u32::MAX,
    ensures
        ({
            let offline = 5 * (p.consecutive_failures + 1);
            let n = p.after(OutcomeView::Failed);
            &&& n.grace_period == p.grace_period
            &&& if p.last_manifest is Some && offline >= p.grace_period {
                &&& p.action(OutcomeView::Failed) == PollAction::UnmountAll
                &&& n.last_manifest is None
                &&& n.consecutive_failures == 0
            } else {
                &&& p.action(OutcomeView::Failed) == PollAction::Wait
                &&& n.last_manifest == p.last_manifest
                &&& n.consecutive_failures == p.consecutive_failures + 1
            }
        }),
{
}

/// A server starts without mounts, which go below the directory that the
/// configuration names, with its cache settings, and take their control ports from
/// the first one on.
pub proof fn a_server_starts_as_configured(
    config: ServerConfigView,
    mount_base_dir: PathBuf,
    cache_base_dir: PathBuf,
)
    ensures
        ({
            let m = initial_mounts(config, mount_base_dir, cache_base_dir);
            &&& m.mounts.len() == 0
            &&& m.mount_base_dir == mount_base_dir
            &&& m.cache_base_dir == cache_base_dir
            &&& m.cache_config == config.cache
            &&& m.next_rc_port == config.server.rc_port_range_start
        }),
{
}

// ---------------------------------------------------------------------------
// Laws of reconciliation
// ---------------------------------------------------------------------------

/// A share is listed at the port of the first entry that has its name, and nowhere
/// where no entry has it.
pub proof fn a_share_is_listed_at_its_first_entry(shares: Seq<EntryView>, i: int)
    requires
        0 <= i < shares.len(),
        forall|j: int| 0 <= j < i ==> (#[trigger] shares[j]).name != shares[i].name,
    ensures
        listed_port(shares, shares[i].name) == Some(shares[i].tunneled_port),
    decreases shares.len(),
{
    let name = shares[i].name;
    let front = shares.drop_last();
    if i < front.len() {
        assert(front[i] == shares[i]);
        a_share_is_listed_at_its_first_entry(front, i);
    } else {
        lemma_listed_port(front, name);
        assert(forall|j: int| 0 <= j < front.len() ==> (#[trigger] front[j]) == shares[j]);
    }
}

/// A share that no entry of the manifest names is unmounted.
pub proof fn an_unlisted_share_is_unmounted(
    m: MountsView,
    manifest: ManifestView,
    unmount: Seq<Seq<char>>,
    i: int,
)
    requires
        to_unmount(m, manifest, unmount),
        0 <= i < m.mounts.len(),
        forall|j: int|
            0 <= j < manifest.shares.len() ==> (#[trigger] manifest.shares[j]).name
                != m.mounts[i].1.share_name,
    ensures
        unmount.contains(m.mounts[i].1.share_name),
{
    assert(is_mounted(m, m.mounts[i].1.share_name));
}

/// A share of the manifest's client that is mounted at another port than that of the
/// first entry that names it is unmounted, and mounted again at that port.
pub proof fn a_moved_share_is_mounted_again(
    m: MountsView,
    manifest: ManifestView,
    unmount: Seq<Seq<char>>,
    i: int,
    j: int,
)
    requires
        to_unmount(m, manifest, unmount),
        0 <= i < m.mounts.len(),
        m.mounts[i].1.client_name == manifest.client_name,
        0 <= j < manifest.shares.len(),
        manifest.shares[j].name == m.mounts[i].1.share_name,
        manifest.shares[j].tunneled_port != m.mounts[i].1.tunneled_port,
        forall|k: int|
            0 <= k < j ==> (#[trigger] manifest.shares[k]).name != m.mounts[i].1.share_name,
    ensures
        unmount.contains(m.mounts[i].1.share_name),
        to_mount(m, manifest).contains(manifest.shares[j]),
{
    a_share_is_listed_at_its_first_entry(manifest.shares, j);
    assert(is_mounted(m, m.mounts[i].1.share_name));
    assert(is_moved(m, manifest, m.mounts[i].1.share_name));
    crate::names::lemma_filter_holds(
        manifest.shares,
        |e: EntryView| is_due(m, manifest, e),
        j,
    );
}

/// An entry of the manifest whose share is not mounted is mounted.
pub proof fn a_new_share_is_mounted(m: MountsView, manifest: ManifestView, j: int)
    requires
        0 <= j < manifest.shares.len(),
        forall|i: int|
            0 <= i < m.mounts.len() ==> (#[trigger] m.mounts[i]).1.share_name
                != manifest.shares[j].name,
    ensures
        to_mount(m, manifest).contains(manifest.shares[j]),
{
    crate::names::lemma_filter_holds(
        manifest.shares,
        |e: EntryView| is_due(m, manifest, e),
        j,
    );
}

/// A share is unmounted once, and only where it is mounted and no entry names it or
/// the first entry that does has another port.
pub proof fn nothing_else_is_unmounted(
    m: MountsView,
    manifest: ManifestView,
    unmount: Seq<Seq<char>>,
    u: int,
    v: int,
)
    requires
        to_unmount(m, manifest, unmount),
        0 <= u < unmount.len(),
    ensures
        u < v < unmount.len() ==> unmount[u] != unmount[v],
        exists|i: int|
            0 <= i < m.mounts.len() && (#[trigger] m.mounts[i]).1.share_name == unmount[u],
        (forall|j: int|
            0 <= j < manifest.shares.len() ==> (#[trigger] manifest.shares[j]).name != unmount[u])
            || (exists|i: int, j: int|
            {
                &&& 0 <= i < m.mounts.len()
                &&& (#[trigger] m.mounts[i]).1.share_name == unmount[u]
                &&& m.mounts[i].1.client_name == manifest.client_name
                &&& 0 <= j < manifest.shares.len()
                &&& (#[trigger] manifest.shares[j]).name == unmount[u]
                &&& manifest.shares[j].tunneled_port != m.mounts[i].1.tunneled_port
            }),
{
    let name = unmount[u];
    assert(unmount.contains(name));
    assert(is_mounted(m, name));
    if is_moved(m, manifest, name) {
        let i = choose|i: int|
            {
                &&& 0 <= i < m.mounts.len()
                &&& (#[trigger] m.mounts[i]).1.share_name == name
                &&& m.mounts[i].1.client_name == manifest.client_name
                &&& listed_port(manifest.shares, name) is Some
                &&& listed_port(manifest.shares, name) != Some(m.mounts[i].1.tunneled_port)
            };
        lemma_listed_port(manifest.shares, name);
        let entry = EntryView {
            name,
            tunneled_port: listed_port(manifest.shares, name)->Some_0,
        };
        let j = choose|j: int| 0 <= j < manifest.shares.len() && manifest.shares[j] == entry;
        assert(m.mounts[i].1.share_name == name && manifest.shares[j].name == name);
    }
}

/// What is mounted is an entry of the manifest, and its share is not mounted, or is
/// mounted for the manifest's client at another port.
pub proof fn nothing_else_is_mounted(m: MountsView, manifest: ManifestView, k: int)
    requires
        0 <= k < to_mount(m, manifest).len(),
    ensures
        ({
            let entry = to_mount(m, manifest)[k];
            &&& manifest.shares.contains(entry)
            &&& (forall|i: int|
                0 <= i < m.mounts.len() ==> (#[trigger] m.mounts[i]).1.share_name != entry.name)
                || (exists|i: int|
                {
                    &&& 0 <= i < m.mounts.len()
                    &&& (#[trigger] m.mounts[i]).1.share_name == entry.name
                    &&& m.mounts[i].1.client_name == manifest.client_name
                    &&& m.mounts[i].1.tunneled_port != entry.tunneled_port
                })
        }),
{
    let due = |e: EntryView| is_due(m, manifest, e);
    lemma_filter_from(manifest.shares, due, k);
    let entry = to_mount(m, manifest)[k];
    let j = choose|j: int| 0 <= j < manifest.shares.len() && entry == #[trigger] manifest.shares[j];
    assert(manifest.shares.contains(manifest.shares[j]));
    if is_mounted(m, entry.name) {
        let i = choose|i: int|
            {
                &&& 0 <= i < m.mounts.len()
                &&& (#[trigger] m.mounts[i]).1.share_name == entry.name
                &&& m.mounts[i].1.client_name == manifest.client_name
                &&& listed_port(manifest.shares, entry.name) is Some
                &&& listed_port(manifest.shares, entry.name) != Some(m.mounts[i].1.tunneled_port)
            };
        assert(m.mounts[i].1.tunneled_port != entry.tunneled_port);
    }
}

proof fn lemma_filter_all<A>(s: Seq<A>, p: spec_fn(A) -> bool)
    requires
        forall|i: int| 0 <= i < s.len() ==> p(#[trigger] s[i]),
    ensures
        s.filter(p) == s,
    decreases s.len(),
{
    reveal(Seq::filter);
    if s.len() > 0 {
        let front = s.drop_last();
        assert(forall|i: int| 0 <= i < front.len() ==> (#[trigger] front[i]) == s[i]);
        lemma_filter_all(front, p);
        assert(s.filter(p) =~= front.push(s.last()));
    }
    assert(s.filter(p) =~= s);
}

/// A server without mounts mounts the whole manifest, in its order.
pub proof fn an_empty_server_mounts_everything(m: MountsView, manifest: ManifestView)
    requires
        m.mounts.len() == 0,
    ensures
        to_mount(m, manifest) == manifest.shares,
{
    lemma_filter_all(manifest.shares, |e: EntryView| is_due(m, manifest, e));
}

// ---------------------------------------------------------------------------
// Laws of sizes
// ---------------------------------------------------------------------------

/// A rounded quotient is off by at most a half, and of two that are as near the even
/// one is taken.
pub proof fn rounding_goes_to_the_nearest(n: nat, d: nat)
    requires
        d > 0,
    ensures
        -(d as int) <= 2 * (nearest(n, d) * d - n) <= d,
        2 * (nearest(n, d) * d - n) == d || 2 * (nearest(n, d) * d - n) == -d ==> nearest(n, d)
            % 2 == 0,
{
    let q = n / d;
    let r = n % d;
    assert(n == q * d + r && r < d) by (nonlinear_arith)
        requires
            q == n / d,
            r == n % d,
            d > 0,
    ;
    assert((q + 1) * d == q * d + d) by (nonlinear_arith);
}

/// The doubles around an integer are a power of two apart, by which the integer is
/// divided into 53 bits.
pub proof fn doubles_have_53_bits(n: nat)
    ensures
        exists|e: nat|
            {
                &&& spacing(n) == #[trigger] pow2(e)
                &&& n < 9007199254740992 * pow2(e)
                &&& e > 0 ==> 4503599627370496 * pow2(e) <= n
            },
    decreases n,
{
    if n < DOUBLE_LIMIT {
        vstd::arithmetic::power2::lemma2_to64();
        assert(spacing(n) == pow2(0));
    } else {
        doubles_have_53_bits(n / 2);
        let e = choose|e: nat|
            {
                &&& spacing(n / 2) == #[trigger] pow2(e)
                &&& n / 2 < 9007199254740992 * pow2(e)
                &&& e > 0 ==> 4503599627370496 * pow2(e) <= n / 2
            };
        vstd::arithmetic::power2::lemma_pow2_unfold(e + 1);
        vstd::arithmetic::power2::lemma2_to64();
        assert(spacing(n) == pow2(e + 1));
    }
}

/// A number of bytes is shown as it is below a kilobyte, and otherwise in the largest
/// of kilobytes, megabytes and gigabytes of which there is at least one, with one
/// decimal that is off by at most half of its place from the double nearest to the
/// number, and is even where two are as near.
pub proof fn sizes_are_shown_in_their_unit(bytes: nat)
    ensures
        bytes < 1024 ==> size_text(bytes) == decimal(bytes) + " B"@,
        bytes >= 1024 ==> exists|t: nat, unit: nat|
            {
                &&& size_text(bytes) == #[trigger] decimal(t / 10) + "."@ + decimal(t % 10) + (
                if unit == 1024 {
                    " KB"@
                } else if unit == 1048576 {
                    " MB"@
                } else {
                    " GB"@
                })
                &&& unit == if bytes < 1048576 {
                    1024nat
                } else if bytes < 1073741824 {
                    1048576
                } else {
                    1073741824
                }
                &&& -(unit as int) <= 2 * (#[trigger] (t * unit) - 10 * as_double(bytes)) <= unit
                &&& 2 * (t * unit - 10 * as_double(bytes)) == unit || 2 * (t * unit - 10
                    * as_double(bytes)) == -unit ==> t % 2 == 0
            },
        exists|q: nat|
            {
                &&& as_double(bytes) == #[trigger] (q * spacing(bytes))
                &&& -(spacing(bytes) as int) <= 2 * (as_double(bytes) - bytes) <= spacing(bytes)
                &&& 2 * (as_double(bytes) - bytes) == spacing(bytes) || 2 * (as_double(bytes)
                    - bytes) == -spacing(bytes) ==> q % 2 == 0
            },
{
    lemma_spacing(bytes);
    rounding_goes_to_the_nearest(bytes, spacing(bytes));
    assert(as_double(bytes) == nearest(bytes, spacing(bytes)) * spacing(bytes));
    if bytes >= 1024 {
        let unit: nat = if bytes < 1048576 {
            1024
        } else if bytes < 1073741824 {
            1048576
        } else {
            1073741824
        };
        let t = tenths(bytes, unit);
        rounding_goes_to_the_nearest(10 * as_double(bytes), unit);
        assert(size_text(bytes) == decimal(t / 10) + "."@ + decimal(t % 10) + (if unit == 1024 {
            " KB"@
        } else if unit == 1048576 {
            " MB"@
        } else {
            " GB"@
        }));
        assert(t * unit == nearest(10 * as_double(bytes), unit) * unit);
    }
}

// ---------------------------------------------------------------------------
// Laws of requests
// ---------------------------------------------------------------------------

/// The list of mounts has every mount in its place, with its own client, share, mount
/// point, size of its cache, and status.
pub proof fn mounts_are_listed_as_they_are(m: MountsView, i: int)
    requires
        0 <= i < m.mounts.len(),
    ensures
        server_task(m, RequestView::MountList) matches ServerTaskView::Reply(
            ResponseView::MountList { mounts },
        ) && {
            let mount = m.mounts[i].1;
            &&& mounts.len() == m.mounts.len()
            &&& mounts[i].client_name == mount.client_name
            &&& mounts[i].share_name == mount.share_name
            &&& mounts[i].mount_point == path_text(mount.mount_point)
            &&& mount.stats matches Some(s) ==> mounts[i].cache_size == size_text(
                s.cache_size_bytes as nat,
            )
            &&& mount.stats is None ==> mounts[i].cache_size == decimal(0) + " B"@
            &&& match mount.status {
                MountStatusView::Discovered => mounts[i].status == "discovered"@,
                MountStatusView::Mounting => mounts[i].status == "mounting"@,
                MountStatusView::Mounted => mounts[i].status == "mounted"@,
                MountStatusView::Unmounting => mounts[i].status == "unmounting"@,
                MountStatusView::Stale { since } => mounts[i].status == "stale"@,
                MountStatusView::Error(e) => mounts[i].status == "error: "@ + e,
            }
        },
{
}

/// The figures of a share are asked of the first mount that has its name, at the
/// control port of that mount: those of its cache and those of its transfers.
pub proof fn figures_are_asked_of_the_first_mount(m: MountsView, i: int)
    requires
        m.wf(),
        0 <= i < m.mounts.len(),
        forall|j: int|
            0 <= j < i ==> (#[trigger] m.mounts[j]).1.share_name != m.mounts[i].1.share_name,
    ensures
        ({
            let name = m.mounts[i].1.share_name;
            let base = "http://127.0.0.1:"@ + decimal(m.mounts[i].1.rc_port as nat);
            server_task(m, RequestView::MountStats { share_name: name }) == (
            ServerTaskView::FetchStats {
                share_name: name,
                vfs_url: base + "/vfs/stats"@,
                transfer_url: base + "/core/stats"@,
            })
        }),
{
    let all = values(m.mounts);
    let name = m.mounts[i].1.share_name;
    lemma_first_at(all, i);
    assert(first_of(all, name) == Some(m.mounts[i].1));
    assert(m.mounts[i].0 == mount_key(m.mounts[i].1.client_name, name));
    lookup_entry(m.mounts, i);
}

proof fn lemma_first_at(mounts: Seq<MountedShareView>, i: int)
    requires
        0 <= i < mounts.len(),
        forall|j: int|
            0 <= j < i ==> (#[trigger] mounts[j]).share_name != mounts[i].share_name,
    ensures
        first_of(mounts, mounts[i].share_name) == Some(mounts[i]),
    decreases mounts.len(),
{
    let front = mounts.drop_last();
    assert(forall|j: int| 0 <= j < front.len() ==> (#[trigger] front[j]) == mounts[j]);
    if i < front.len() {
        lemma_first_at(front, i);
    } else {
        if first_of(front, mounts[i].share_name) is Some {
            lemma_first_from(front, mounts[i].share_name);
            let j = choose|j: int|
                0 <= j < front.len() && #[trigger] front[j] == first_of(
                    front,
                    mounts[i].share_name,
                )->Some_0;
            assert(mounts[j].share_name == mounts[i].share_name);
        }
    }
}

/// Of a share that is not mounted the answer says that it was not found.
pub proof fn an_unmounted_share_has_no_figures(m: MountsView, share_name: Seq<char>)
    requires
        forall|i: int|
            0 <= i < m.mounts.len() ==> (#[trigger] m.mounts[i]).1.share_name != share_name,
    ensures
        server_task(m, RequestView::MountStats { share_name }) == ServerTaskView::Reply(
            ResponseView::Error { message: "mount '"@ + share_name + "' not found"@ },
        ),
{
    let all = values(m.mounts);
    if first_of(all, share_name) is Some {
        lemma_first_from(all, share_name);
        let j = choose|j: int|
            0 <= j < all.len() && #[trigger] all[j] == first_of(all, share_name)->Some_0;
        assert(m.mounts[j].1.share_name == share_name);
    }
}

/// A server says that it runs, and refuses what only a client supports. Only a
/// request to stop changes its mounts: each is unmounted, in order, and none is left.
pub proof fn a_server_answers_its_requests(m: MountsView, request: RequestView)
    ensures
        request is Status ==> server_task(m, request) == ServerTaskView::Reply(
            ResponseView::Status {
                role: "server"@,
                running: true,
                details: "server daemon running"@,
            },
        ),
        request is RemoteAdd || request is RemoteRemove || request is RemoteList || request
            is Connect || request is Disconnect || request is ShareAdd || request is ShareRemove
            || request is ShareList ==> server_task(m, request) == ServerTaskView::Reply(
            ResponseView::Error { message: "command not supported on server"@ },
        ),
        !(request is Shutdown) ==> server_after(m, request) == m,
        request is Shutdown ==> {
            &&& server_task(m, request) matches ServerTaskView::Stop { response, mounts }
                && response == ResponseView::Done && mounts.len() == m.mounts.len() && (forall|
                i: int,
            |
                0 <= i < mounts.len() ==> #[trigger] mounts[i] == m.mounts[i].1)
            &&& server_after(m, request).mounts.len() == 0
            &&& server_after(m, request).mount_base_dir == m.mount_base_dir
            &&& server_after(m, request).cache_base_dir == m.cache_base_dir
            &&& server_after(m, request).cache_config == m.cache_config
            &&& server_after(m, request).next_rc_port == m.next_rc_port
        },
{
}

/// An answer for figures that cannot be had says why.
pub proof fn missing_figures_are_explained(error: ErrorView)
    ensures
        no_stats(error) == (ResponseView::Error {
            message: "failed to get stats: "@ + error.message(),
        }),
{
}

/// The contents of what came of a poll, and of what a server is about to do, leave
/// nothing out.
pub proof fn servers_are_viewed_whole(outcome: PollOutcome, task: ServerTask, i: int)
    ensures
        match outcome {
            PollOutcome::Manifest(m) => outcome@ == OutcomeView::Manifest(m@),
            PollOutcome::Unreadable => outcome@ is Unreadable,
            PollOutcome::Failed => outcome@ is Failed,
        },
        match task {
            ServerTask::Reply(r) => task@ == ServerTaskView::Reply(r@),
            ServerTask::FetchStats { share_name, vfs_url, transfer_url } => task@ == (
            ServerTaskView::FetchStats {
                share_name: share_name@,
                vfs_url: vfs_url@,
                transfer_url: transfer_url@,
            }),
            ServerTask::Stop { response, mounts } => task@ matches ServerTaskView::Stop {
                response: a,
                mounts: m,
            } && a == response@ && m.len() == mounts@.len() && (0 <= i < m.len() ==> m[i]
                == mounts@[i]@),
        },
{
}

/// The manifest is polled every five seconds, where the tunnel of the control channel
/// ends.
pub proof fn polls_go_through_the_control_channel()
    ensures
        MANIFEST_URL@ == "http://localhost:3200/"@,
        POLL_SECS == 5,
{
}

} // verus!
