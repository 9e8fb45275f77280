//! What client, server and command line say to each other.

use crate::text::{clone_opt, clone_texts, opt_text, texts};
use vstd::prelude::*;

verus! {

// ---------------------------------------------------------------------------
// Share manifest: from client to server through the control channel
// ---------------------------------------------------------------------------

/// The shares that a client offers.
#[derive(Debug, PartialEq)]
pub struct ShareManifest {
    pub version: u32,
    pub client_name: String,
    pub shares: Vec<ShareManifestEntry>,
}

/// The contents of a [`ShareManifest`].
pub struct ManifestView {
    pub version: u32,
    pub client_name: Seq<char>,
    pub shares: Seq<EntryView>,
}

/// The contents of a list of manifest entries.
pub open spec fn entries(shares: Seq<ShareManifestEntry>) -> Seq<EntryView> {
    shares.map_values(|e: ShareManifestEntry| e@)
}

impl View for ShareManifest {
    type V = ManifestView;

    open spec fn view(&self) -> ManifestView {
        ManifestView {
            version: self.version,
            client_name: self.client_name@,
            shares: entries(self.shares@),
        }
    }
}

/// A share and the port at which the server reaches it.
#[derive(Debug, PartialEq)]
pub struct ShareManifestEntry {
    pub name: String,
    pub tunneled_port: u16,
}

/// The contents of a [`ShareManifestEntry`].
pub struct EntryView {
    pub name: Seq<char>,
    pub tunneled_port: u16,
}

impl View for ShareManifestEntry {
    type V = EntryView;

    open spec fn view(&self) -> EntryView {
        EntryView { name: self.name@, tunneled_port: self.tunneled_port }
    }
}

impl Clone for ShareManifestEntry {
    fn clone(&self) -> (copy: Self)
        ensures
            copy@ == self@,
    {
        ShareManifestEntry { name: self.name.clone(), tunneled_port: self.tunneled_port }
    }
}

impl Clone for ShareManifest {
    fn clone(&self) -> (copy: Self)
        ensures
            copy@ == self@,
    {
        let mut shares: Vec<ShareManifestEntry> = Vec::new();
        let mut i: usize = 0;
        while i < self.shares.len()
            invariant
                i <= self.shares@.len(),
                shares@.len() == i,
                forall|j: int| 0 <= j < i ==> #[trigger] shares@[j]@ == self.shares@[j]@,
            decreases self.shares@.len() - i,
        {
            shares.push(self.shares[i].clone());
            i += 1;
        }
        assert(entries(shares@) =~= entries(self.shares@));
        ShareManifest { version: self.version, client_name: self.client_name.clone(), shares }
    }
}

// ---------------------------------------------------------------------------
// Control socket: between command line and daemon
// ---------------------------------------------------------------------------

/// What the command line asks of a daemon.
#[allow(inconsistent_fields)]
#[derive(Debug, PartialEq)]
pub enum ControlRequest {
    Status,
    Shutdown,
    RemoteAdd { name: String, host: String, port: u16, auth: Option<String> },
    RemoteRemove { name: String },
    RemoteList,
    Connect { remote: String },
    Disconnect { remote: String },
    ShareAdd { name: String, path: String, remote: Option<String> },
    ShareRemove { name: String },
    ShareList,
    MountList,
    MountStats { share_name: String },
}

impl Clone for ControlRequest {
    fn clone(&self) -> (copy: Self)
        ensures
            copy@ == self@,
    {
        match self {
            ControlRequest::Status => ControlRequest::Status,
            ControlRequest::Shutdown => ControlRequest::Shutdown,
            ControlRequest::RemoteAdd { name, host, port, auth } => ControlRequest::RemoteAdd {
                name: name.clone(),
                host: host.clone(),
                port: *port,
                auth: clone_opt(auth),
            },
            ControlRequest::RemoteRemove { name } => ControlRequest::RemoteRemove {
                name: name.clone(),
            },
            ControlRequest::RemoteList => ControlRequest::RemoteList,
            ControlRequest::Connect { remote } => ControlRequest::Connect {
                remote: remote.clone(),
            },
            ControlRequest::Disconnect { remote } => ControlRequest::Disconnect {
                remote: remote.clone(),
            },
            ControlRequest::ShareAdd { name, path, remote } => ControlRequest::ShareAdd {
                name: name.clone(),
                path: path.clone(),
                remote: clone_opt(remote),
            },
            ControlRequest::ShareRemove { name } => ControlRequest::ShareRemove {
                name: name.clone(),
            },
            ControlRequest::ShareList => ControlRequest::ShareList,
            ControlRequest::MountList => ControlRequest::MountList,
            ControlRequest::MountStats { share_name } => ControlRequest::MountStats {
                share_name: share_name.clone(),
            },
        }
    }
}

/// The contents of a [`ControlRequest`].
#[allow(inconsistent_fields)]
pub enum RequestView {
    Status,
    Shutdown,
    RemoteAdd { name: Seq<char>, host: Seq<char>, port: u16, auth: Option<Seq<char>> },
    RemoteRemove { name: Seq<char> },
    RemoteList,
    Connect { remote: Seq<char> },
    Disconnect { remote: Seq<char> },
    ShareAdd { name: Seq<char>, path: Seq<char>, remote: Option<Seq<char>> },
    ShareRemove { name: Seq<char> },
    ShareList,
    MountList,
    MountStats { share_name: Seq<char> },
}

impl View for ControlRequest {
    type V = RequestView;

    open spec fn view(&self) -> RequestView {
        match self {
            ControlRequest::Status => RequestView::Status,
            ControlRequest::Shutdown => RequestView::Shutdown,
            ControlRequest::RemoteAdd { name, host, port, auth } => RequestView::RemoteAdd {
                name: name@,
                host: host@,
                port: *port,
                auth: opt_text(*auth),
            },
            ControlRequest::RemoteRemove { name } => RequestView::RemoteRemove { name: name@ },
            ControlRequest::RemoteList => RequestView::RemoteList,
            ControlRequest::Connect { remote } => RequestView::Connect { remote: remote@ },
            ControlRequest::Disconnect { remote } => RequestView::Disconnect { remote: remote@ },
            ControlRequest::ShareAdd { name, path, remote } => RequestView::ShareAdd {
                name: name@,
                path: path@,
                remote: opt_text(*remote),
            },
            ControlRequest::ShareRemove { name } => RequestView::ShareRemove { name: name@ },
            ControlRequest::ShareList => RequestView::ShareList,
            ControlRequest::MountList => RequestView::MountList,
            ControlRequest::MountStats { share_name } => RequestView::MountStats {
                share_name: share_name@,
            },
        }
    }
}

/// What a daemon answers.
#[derive(Debug, PartialEq)]
pub enum ControlResponse {
    Done,
    Error { message: String },
    Status { role: String, running: bool, details: String },
    RemoteList { remotes: Vec<RemoteInfo> },
    ShareList { shares: Vec<ShareInfo> },
    MountList { mounts: Vec<MountInfo> },
    MountStats {
        share_name: String,
        cache_size_bytes: u64,
        cached_files: u64,
        bytes_transferred: u64,
        transfer_speed_bits: u64,
    },
}

/// The contents of a [`ControlResponse`].
pub enum ResponseView {
    Done,
    Error { message: Seq<char> },
    Status { role: Seq<char>, running: bool, details: Seq<char> },
    RemoteList { remotes: Seq<RemoteInfoView> },
    ShareList { shares: Seq<ShareInfoView> },
    MountList { mounts: Seq<MountInfoView> },
    MountStats {
        share_name: Seq<char>,
        cache_size_bytes: u64,
        cached_files: u64,
        bytes_transferred: u64,
        transfer_speed_bits: u64,
    },
}

impl View for ControlResponse {
    type V = ResponseView;

    open spec fn view(&self) -> ResponseView {
        match self {
            ControlResponse::Done => ResponseView::Done,
            ControlResponse::Error { message } => ResponseView::Error { message: message@ },
            ControlResponse::Status { role, running, details } => ResponseView::Status {
                role: role@,
                running: *running,
                details: details@,
            },
            ControlResponse::RemoteList { remotes } => ResponseView::RemoteList {
                remotes: remotes@.map_values(|r: RemoteInfo| r@),
            },
            ControlResponse::ShareList { shares } => ResponseView::ShareList {
                shares: shares@.map_values(|s: ShareInfo| s@),
            },
            ControlResponse::MountList { mounts } => ResponseView::MountList {
                mounts: mounts@.map_values(|m: MountInfo| m@),
            },
            ControlResponse::MountStats {
                share_name,
                cache_size_bytes,
                cached_files,
                bytes_transferred,
                transfer_speed_bits,
            } => ResponseView::MountStats {
                share_name: share_name@,
                cache_size_bytes: *cache_size_bytes,
                cached_files: *cached_files,
                bytes_transferred: *bytes_transferred,
                transfer_speed_bits: *transfer_speed_bits,
            },
        }
    }
}

/// A line of the list of remotes.
#[derive(Debug, PartialEq)]
pub struct RemoteInfo {
    pub name: String,
    pub host: String,
    pub port: u16,
    pub status: String,
}

/// The contents of a [`RemoteInfo`].
pub struct RemoteInfoView {
    pub name: Seq<char>,
    pub host: Seq<char>,
    pub port: u16,
    pub status: Seq<char>,
}

impl View for RemoteInfo {
    type V = RemoteInfoView;

    open spec fn view(&self) -> RemoteInfoView {
        RemoteInfoView {
            name: self.name@,
            host: self.host@,
            port: self.port,
            status: self.status@,
        }
    }
}

/// A line of the list of shares.
#[derive(Debug, PartialEq)]
pub struct ShareInfo {
    pub name: String,
    pub path: String,
    pub remotes: Vec<String>,
    pub status: String,
}

/// The contents of a [`ShareInfo`].
pub struct ShareInfoView {
    pub name: Seq<char>,
    pub path: Seq<char>,
    pub remotes: Seq<Seq<char>>,
    pub status: Seq<char>,
}

impl View for ShareInfo {
    type V = ShareInfoView;

    open spec fn view(&self) -> ShareInfoView {
        ShareInfoView {
            name: self.name@,
            path: self.path@,
            remotes: texts(self.remotes@),
            status: self.status@,
        }
    }
}

/// A line of the list of mounts.
#[derive(Debug, PartialEq)]
pub struct MountInfo {
    pub client_name: String,
    pub share_name: String,
    pub mount_point: String,
    pub cache_size: String,
    pub status: String,
}

/// The contents of a [`MountInfo`].
pub struct MountInfoView {
    pub client_name: Seq<char>,
    pub share_name: Seq<char>,
    pub mount_point: Seq<char>,
    pub cache_size: Seq<char>,
    pub status: Seq<char>,
}

impl View for MountInfo {
    type V = MountInfoView;

    open spec fn view(&self) -> MountInfoView {
        MountInfoView {
            client_name: self.client_name@,
            share_name: self.share_name@,
            mount_point: self.mount_point@,
            cache_size: self.cache_size@,
            status: self.status@,
        }
    }
}

impl Clone for RemoteInfo {
    fn clone(&self) -> (copy: Self)
        ensures
            copy@ == self@,
    {
        RemoteInfo {
            name: self.name.clone(),
            host: self.host.clone(),
            port: self.port,
            status: self.status.clone(),
        }
    }
}

impl Clone for ShareInfo {
    fn clone(&self) -> (copy: Self)
        ensures
            copy@ == self@,
    {
        ShareInfo {
            name: self.name.clone(),
            path: self.path.clone(),
            remotes: clone_texts(&self.remotes),
            status: self.status.clone(),
        }
    }
}

impl Clone for MountInfo {
    fn clone(&self) -> (copy: Self)
        ensures
            copy@ == self@,
    {
        MountInfo {
            client_name: self.client_name.clone(),
            share_name: self.share_name.clone(),
            mount_point: self.mount_point.clone(),
            cache_size: self.cache_size.clone(),
            status: self.status.clone(),
        }
    }
}

fn clone_remotes(list: &Vec<RemoteInfo>) -> (copy: Vec<RemoteInfo>)
    ensures
        copy@.map_values(|r: RemoteInfo| r@) == list@.map_values(|r: RemoteInfo| r@),
{
    let mut copy: Vec<RemoteInfo> = Vec::new();
    let mut i: usize = 0;
    while i < list.len()
        invariant
            i <= list@.len(),
            copy@.len() == i,
            forall|j: int| 0 <= j < i ==> #[trigger] copy@[j]@ == list@[j]@,
        decreases list@.len() - i,
    {
        copy.push(list[i].clone());
        i += 1;
    }
    assert(copy@.map_values(|r: RemoteInfo| r@) =~= list@.map_values(|r: RemoteInfo| r@));
    copy
}

fn clone_shares(list: &Vec<ShareInfo>) -> (copy: Vec<ShareInfo>)
    ensures
        copy@.map_values(|s: ShareInfo| s@) == list@.map_values(|s: ShareInfo| s@),
{
    let mut copy: Vec<ShareInfo> = Vec::new();
    let mut i: usize = 0;
    while i < list.len()
        invariant
            i <= list@.len(),
            copy@.len() == i,
            forall|j: int| 0 <= j < i ==> #[trigger] copy@[j]@ == list@[j]@,
        decreases list@.len() - i,
    {
        copy.push(list[i].clone());
        i += 1;
    }
    assert(copy@.map_values(|s: ShareInfo| s@) =~= list@.map_values(|s: ShareInfo| s@));
    copy
}

fn clone_mounts(list: &Vec<MountInfo>) -> (copy: Vec<MountInfo>)
    ensures
        copy@.map_values(|m: MountInfo| m@) == list@.map_values(|m: MountInfo| m@),
{
    let mut copy: Vec<MountInfo> = Vec::new();
    let mut i: usize = 0;
    while i < list.len()
        invariant
            i <= list@.len(),
            copy@.len() == i,
            forall|j: int| 0 <= j < i ==> #[trigger] copy@[j]@ == list@[j]@,
        decreases list@.len() - i,
    {
        copy.push(list[i].clone());
        i += 1;
    }
    assert(copy@.map_values(|m: MountInfo| m@) =~= list@.map_values(|m: MountInfo| m@));
    copy
}

impl Clone for ControlResponse {
    fn clone(&self) -> (copy: Self)
        ensures
            copy@ == self@,
    {
        match self {
            ControlResponse::Done => ControlResponse::Done,
            ControlResponse::Error { message } => ControlResponse::Error {
                message: message.clone(),
            },
            ControlResponse::Status { role, running, details } => ControlResponse::Status {
                role: role.clone(),
                running: *running,
                details: details.clone(),
            },
            ControlResponse::RemoteList { remotes } => ControlResponse::RemoteList {
                remotes: clone_remotes(remotes),
            },
            ControlResponse::ShareList { shares } => ControlResponse::ShareList {
                shares: clone_shares(shares),
            },
            ControlResponse::MountList { mounts } => ControlResponse::MountList {
                mounts: clone_mounts(mounts),
            },
            ControlResponse::MountStats {
                share_name,
                cache_size_bytes,
                cached_files,
                bytes_transferred,
                transfer_speed_bits,
            } => ControlResponse::MountStats {
                share_name: share_name.clone(),
                cache_size_bytes: *cache_size_bytes,
                cached_files: *cached_files,
                bytes_transferred: *bytes_transferred,
                transfer_speed_bits: *transfer_speed_bits,
            },
        }
    }
}

/// The entries of a manifest are in place, each with its name and its port.
pub proof fn entries_are_in_place(shares: Seq<ShareManifestEntry>, i: int)
    requires
        0 <= i < shares.len(),
    ensures
        entries(shares).len() == shares.len(),
        entries(shares)[i].name == shares[i].name@,
        entries(shares)[i].tunneled_port == shares[i].tunneled_port,
{
}

/// The contents of a manifest leave nothing out.
pub proof fn manifests_are_viewed_whole(m: ShareManifest, i: int)
    requires
        0 <= i < m.shares@.len(),
    ensures
        m@.version == m.version,
        m@.client_name == m.client_name@,
        m@.shares.len() == m.shares@.len(),
        m@.shares[i].name == m.shares@[i].name@,
        m@.shares[i].tunneled_port == m.shares@[i].tunneled_port,
{
}

/// The contents of a request leave nothing out: requests of the same contents ask for
/// the same.
pub proof fn requests_are_viewed_whole(a: ControlRequest, b: ControlRequest)
    requires
        a@ == b@,
    ensures
        match (a, b) {
            (ControlRequest::Status, ControlRequest::Status) => true,
            (ControlRequest::Shutdown, ControlRequest::Shutdown) => true,
            (
                ControlRequest::RemoteAdd { name: n, host: h, port: p, auth: u },
                ControlRequest::RemoteAdd { name, host, port, auth },
            ) => n@ == name@ && h@ == host@ && p == port && match (u, auth) {
                (Some(s), Some(t)) => s@ == t@,
                (None, None) => true,
                _ => false,
            },
            (
                ControlRequest::RemoteRemove { name: n },
                ControlRequest::RemoteRemove { name },
            ) => n@ == name@,
            (ControlRequest::RemoteList, ControlRequest::RemoteList) => true,
            (
                ControlRequest::Connect { remote: r },
                ControlRequest::Connect { remote },
            ) => r@ == remote@,
            (
                ControlRequest::Disconnect { remote: r },
                ControlRequest::Disconnect { remote },
            ) => r@ == remote@,
            (
                ControlRequest::ShareAdd { name: n, path: p, remote: r },
                ControlRequest::ShareAdd { name, path, remote },
            ) => n@ == name@ && p@ == path@ && match (r, remote) {
                (Some(s), Some(t)) => s@ == t@,
                (None, None) => true,
                _ => false,
            },
            (
                ControlRequest::ShareRemove { name: n },
                ControlRequest::ShareRemove { name },
            ) => n@ == name@,
            (ControlRequest::ShareList, ControlRequest::ShareList) => true,
            (ControlRequest::MountList, ControlRequest::MountList) => true,
            (
                ControlRequest::MountStats { share_name: s },
                ControlRequest::MountStats { share_name },
            ) => s@ == share_name@,
            _ => false,
        },
{
}

/// The contents of a line of a list leave nothing out.
pub proof fn lines_are_viewed_whole(r: RemoteInfo, s: ShareInfo, m: MountInfo, i: int)
    requires
        0 <= i < s.remotes@.len(),
    ensures
        r@.name == r.name@,
        r@.host == r.host@,
        r@.port == r.port,
        r@.status == r.status@,
        s@.name == s.name@,
        s@.path == s.path@,
        s@.remotes.len() == s.remotes@.len(),
        s@.remotes[i] == s.remotes@[i]@,
        s@.status == s.status@,
        m@.client_name == m.client_name@,
        m@.share_name == m.share_name@,
        m@.mount_point == m.mount_point@,
        m@.cache_size == m.cache_size@,
        m@.status == m.status@,
{
}

/// The contents of an answer leave nothing out.
pub proof fn answers_are_viewed_whole(a: ControlResponse, i: int)
    ensures
        match a {
            ControlResponse::Done => a@ is Done,
            ControlResponse::Error { message } => a@ matches ResponseView::Error { message: m }
                && m == message@,
            ControlResponse::Status { role, running, details } => a@ matches ResponseView::Status {
                role: r,
                running: g,
                details: d,
            } && r == role@ && g == running && d == details@,
            ControlResponse::RemoteList { remotes } => a@ matches ResponseView::RemoteList {
                remotes: v,
            } && v.len() == remotes@.len() && (0 <= i < v.len() ==> v[i] == remotes@[i]@),
            ControlResponse::ShareList { shares } => a@ matches ResponseView::ShareList {
                shares: v,
            } && v.len() == shares@.len() && (0 <= i < v.len() ==> v[i] == shares@[i]@),
            ControlResponse::MountList { mounts } => a@ matches ResponseView::MountList {
                mounts: v,
            } && v.len() == mounts@.len() && (0 <= i < v.len() ==> v[i] == mounts@[i]@),
            ControlResponse::MountStats {
                share_name,
                cache_size_bytes,
                cached_files,
                bytes_transferred,
                transfer_speed_bits,
            } => a@ matches ResponseView::MountStats {
                share_name: s,
                cache_size_bytes: c,
                cached_files: f,
                bytes_transferred: b,
                transfer_speed_bits: t,
            } && s == share_name@ && c == cache_size_bytes && f == cached_files && b
                == bytes_transferred && t == transfer_speed_bits,
        },
{
}

} // verus!
