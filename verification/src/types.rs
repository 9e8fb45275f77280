//! The types that the client and the server share.

use crate::protocol::ShareManifestEntry;
use crate::text::{clone_opt, clone_texts, decimal, decimal_text, opt_text, texts};
use std::path::PathBuf;
use vstd::prelude::*;

verus! {

/// `std::time::Instant`: a moment that is kept and handed on, never read.
#[verifier::external_type_specification]
#[verifier::external_body]
pub struct ExInstant(std::time::Instant);

// ---------------------------------------------------------------------------
// Errors
// ---------------------------------------------------------------------------

/// What can go wrong. An error of the operating system is held as its text.
#[derive(Debug, PartialEq)]
pub enum LazyMountError {
    Config(String),
    Io(String),
    Process(String),
    Tunnel(String),
    Mount(String),
    RcloneRc(String),
    Control(String),
    DependencyMissing { binary: String, install_hint: String },
    PortConflict { port: u16 },
    Other(String),
}

/// The contents of a [`LazyMountError`].
pub enum ErrorView {
    Config(Seq<char>),
    Io(Seq<char>),
    Process(Seq<char>),
    Tunnel(Seq<char>),
    Mount(Seq<char>),
    RcloneRc(Seq<char>),
    Control(Seq<char>),
    DependencyMissing { binary: Seq<char>, install_hint: Seq<char> },
    PortConflict { port: u16 },
    Other(Seq<char>),
}

impl View for LazyMountError {
    type V = ErrorView;

    open spec fn view(&self) -> ErrorView {
        match self {
            LazyMountError::Config(t) => ErrorView::Config(t@),
            LazyMountError::Io(t) => ErrorView::Io(t@),
            LazyMountError::Process(t) => ErrorView::Process(t@),
            LazyMountError::Tunnel(t) => ErrorView::Tunnel(t@),
            LazyMountError::Mount(t) => ErrorView::Mount(t@),
            LazyMountError::RcloneRc(t) => ErrorView::RcloneRc(t@),
            LazyMountError::Control(t) => ErrorView::Control(t@),
            LazyMountError::DependencyMissing { binary, install_hint } => {
                ErrorView::DependencyMissing { binary: binary@, install_hint: install_hint@ }
            },
            LazyMountError::PortConflict { port } => ErrorView::PortConflict { port: *port },
            LazyMountError::Other(t) => ErrorView::Other(t@),
        }
    }
}

impl ErrorView {
    /// The error as the user reads it.
    pub open spec fn message(self) -> Seq<char> {
        match self {
            ErrorView::Config(t) => "configuration error: "@ + t,
            ErrorView::Io(t) => "io error: "@ + t,
            ErrorView::Process(t) => "process error: "@ + t,
            ErrorView::Tunnel(t) => "tunnel error: "@ + t,
            ErrorView::Mount(t) => "mount error: "@ + t,
            ErrorView::RcloneRc(t) => "rclone RC error: "@ + t,
            ErrorView::Control(t) => "control socket error: "@ + t,
            ErrorView::DependencyMissing { binary, install_hint } => {
                "dependency missing: "@ + binary + " — "@ + install_hint
            },
            ErrorView::PortConflict { port } => {
                "port conflict: port "@ + decimal(port as nat) + " is already in use"@
            },
            ErrorView::Other(t) => t,
        }
    }
}

fn labelled(label: &str, detail: &String) -> (t: String)
    ensures
        t@ == label@ + detail@,
{
    let mut t = label.to_string();
    t.append(detail.as_str());
    t
}

impl LazyMountError {
    /// The error as the user reads it.
    pub fn message(&self) -> (t: String)
        ensures
            t@ == self@.message(),
    {
        match self {
            LazyMountError::Config(d) => labelled("configuration error: ", d),
            LazyMountError::Io(d) => labelled("io error: ", d),
            LazyMountError::Process(d) => labelled("process error: ", d),
            LazyMountError::Tunnel(d) => labelled("tunnel error: ", d),
            LazyMountError::Mount(d) => labelled("mount error: ", d),
            LazyMountError::RcloneRc(d) => labelled("rclone RC error: ", d),
            LazyMountError::Control(d) => labelled("control socket error: ", d),
            LazyMountError::DependencyMissing { binary, install_hint } => {
                let mut t = labelled("dependency missing: ", binary);
                t.append(" — ");
                t.append(install_hint.as_str());
                t
            },
            LazyMountError::PortConflict { port } => {
                let mut t = "port conflict: port ".to_string();
                t.append(decimal_text(*port as u64).as_str());
                t.append(" is already in use");
                t
            },
            LazyMountError::Other(d) => d.clone(),
        }
    }
}

/// The outcome of an operation that gives nothing back, by its contents.
pub open spec fn outcome(r: Result<(), LazyMountError>) -> Result<(), ErrorView> {
    match r {
        Ok(()) => Ok(()),
        Err(e) => Err(e@),
    }
}

// ---------------------------------------------------------------------------
// Client side
// ---------------------------------------------------------------------------

/// How a remote is reached at the moment.
#[derive(Debug)]
pub enum ConnectionStatus {
    Disconnected,
    Connecting,
    Connected,
    Reconnecting { since: std::time::Instant, attempts: u32 },
    Error(String),
}

/// The contents of a [`ConnectionStatus`].
pub enum ConnectionStatusView {
    Disconnected,
    Connecting,
    Connected,
    Reconnecting { since: std::time::Instant, attempts: u32 },
    Error(Seq<char>),
}

impl View for ConnectionStatus {
    type V = ConnectionStatusView;

    open spec fn view(&self) -> ConnectionStatusView {
        match self {
            ConnectionStatus::Disconnected => ConnectionStatusView::Disconnected,
            ConnectionStatus::Connecting => ConnectionStatusView::Connecting,
            ConnectionStatus::Connected => ConnectionStatusView::Connected,
            ConnectionStatus::Reconnecting { since, attempts } => {
                ConnectionStatusView::Reconnecting { since: *since, attempts: *attempts }
            },
            ConnectionStatus::Error(e) => ConnectionStatusView::Error(e@),
        }
    }
}

impl ConnectionStatusView {
    /// The status as the user reads it.
    pub open spec fn label(self) -> Seq<char> {
        match self {
            ConnectionStatusView::Disconnected => "disconnected"@,
            ConnectionStatusView::Connecting => "connecting"@,
            ConnectionStatusView::Connected => "connected"@,
            ConnectionStatusView::Reconnecting { since, attempts } => {
                "reconnecting (attempt "@ + decimal(attempts as nat) + ")"@
            },
            ConnectionStatusView::Error(e) => "error: "@ + e,
        }
    }
}

impl ConnectionStatus {
    /// The status as the user reads it.
    pub fn label(&self) -> (t: String)
        ensures
            t@ == self@.label(),
    {
        match self {
            ConnectionStatus::Disconnected => "disconnected".to_string(),
            ConnectionStatus::Connecting => "connecting".to_string(),
            ConnectionStatus::Connected => "connected".to_string(),
            ConnectionStatus::Reconnecting { since: _, attempts } => {
                let mut t = "reconnecting (attempt ".to_string();
                t.append(decimal_text(*attempts as u64).as_str());
                t.append(")");
                t
            },
            ConnectionStatus::Error(e) => labelled("error: ", e),
        }
    }
}

impl Default for ConnectionStatus {
    fn default() -> (s: Self)
        ensures
            s@ == ConnectionStatusView::Disconnected,
    {
        ConnectionStatus::Disconnected
    }
}

impl Clone for ConnectionStatus {
    fn clone(&self) -> (copy: Self)
        ensures
            copy@ == self@,
    {
        match self {
            ConnectionStatus::Disconnected => ConnectionStatus::Disconnected,
            ConnectionStatus::Connecting => ConnectionStatus::Connecting,
            ConnectionStatus::Connected => ConnectionStatus::Connected,
            ConnectionStatus::Reconnecting { since, attempts } => ConnectionStatus::Reconnecting {
                since: *since,
                attempts: *attempts,
            },
            ConnectionStatus::Error(e) => ConnectionStatus::Error(e.clone()),
        }
    }
}

/// A configured remote server.
#[derive(Debug)]
pub struct Remote {
    pub name: String,
    pub host: String,
    pub port: u16,
    pub auth: Option<String>,
    pub auto_connect: bool,
    pub status: ConnectionStatus,
}

/// The contents of a [`Remote`].
pub struct RemoteView {
    pub name: Seq<char>,
    pub host: Seq<char>,
    pub port: u16,
    pub auth: Option<Seq<char>>,
    pub auto_connect: bool,
    pub status: ConnectionStatusView,
}

impl View for Remote {
    type V = RemoteView;

    open spec fn view(&self) -> RemoteView {
        RemoteView {
            name: self.name@,
            host: self.host@,
            port: self.port,
            auth: opt_text(self.auth),
            auto_connect: self.auto_connect,
            status: self.status@,
        }
    }
}

impl Clone for Remote {
    fn clone(&self) -> (copy: Self)
        ensures
            copy@ == self@,
    {
        Remote {
            name: self.name.clone(),
            host: self.host.clone(),
            port: self.port,
            auth: clone_opt(&self.auth),
            auto_connect: self.auto_connect,
            status: self.status.clone(),
        }
    }
}

/// Whether a share is being served.
#[derive(Debug, PartialEq)]
pub enum ShareStatus {
    Stopped,
    Starting,
    Serving,
    Error(String),
}

/// The contents of a [`ShareStatus`].
pub enum ShareStatusView {
    Stopped,
    Starting,
    Serving,
    Error(Seq<char>),
}

impl View for ShareStatus {
    type V = ShareStatusView;

    open spec fn view(&self) -> ShareStatusView {
        match self {
            ShareStatus::Stopped => ShareStatusView::Stopped,
            ShareStatus::Starting => ShareStatusView::Starting,
            ShareStatus::Serving => ShareStatusView::Serving,
            ShareStatus::Error(e) => ShareStatusView::Error(e@),
        }
    }
}

impl ShareStatusView {
    /// The status as the user reads it.
    pub open spec fn label(self) -> Seq<char> {
        match self {
            ShareStatusView::Stopped => "stopped"@,
            ShareStatusView::Starting => "starting"@,
            ShareStatusView::Serving => "serving"@,
            ShareStatusView::Error(e) => "error: "@ + e,
        }
    }
}

impl ShareStatus {
    /// The status as the user reads it.
    pub fn label(&self) -> (t: String)
        ensures
            t@ == self@.label(),
    {
        match self {
            ShareStatus::Stopped => "stopped".to_string(),
            ShareStatus::Starting => "starting".to_string(),
            ShareStatus::Serving => "serving".to_string(),
            ShareStatus::Error(e) => labelled("error: ", e),
        }
    }
}

impl Default for ShareStatus {
    fn default() -> (s: Self)
        ensures
            s@ == ShareStatusView::Stopped,
    {
        ShareStatus::Stopped
    }
}

impl Clone for ShareStatus {
    fn clone(&self) -> (copy: Self)
        ensures
            copy@ == self@,
    {
        match self {
            ShareStatus::Stopped => ShareStatus::Stopped,
            ShareStatus::Starting => ShareStatus::Starting,
            ShareStatus::Serving => ShareStatus::Serving,
            ShareStatus::Error(e) => ShareStatus::Error(e.clone()),
        }
    }
}

/// A folder being shared from the local machine. A share without remotes is
/// open to every remote.
#[derive(Debug, PartialEq)]
pub struct Share {
    pub name: String,
    pub path: PathBuf,
    pub sftp_port: u16,
    pub remotes: Vec<String>,
    pub status: ShareStatus,
}

/// The contents of a [`Share`].
pub struct ShareView {
    pub name: Seq<char>,
    pub path: PathBuf,
    pub sftp_port: u16,
    pub remotes: Seq<Seq<char>>,
    pub status: ShareStatusView,
}

impl View for Share {
    type V = ShareView;

    open spec fn view(&self) -> ShareView {
        ShareView {
            name: self.name@,
            path: self.path,
            sftp_port: self.sftp_port,
            remotes: texts(self.remotes@),
            status: self.status@,
        }
    }
}

impl Clone for Share {
    fn clone(&self) -> (copy: Self)
        ensures
            copy@ == self@,
    {
        Share {
            name: self.name.clone(),
            path: self.path.clone(),
            sftp_port: self.sftp_port,
            remotes: clone_texts(&self.remotes),
            status: self.status.clone(),
        }
    }
}

// ---------------------------------------------------------------------------
// Server side
// ---------------------------------------------------------------------------

/// A connected client and its shares.
#[derive(Debug)]
pub struct ConnectedClient {
    pub name: String,
    pub connected_since: std::time::Instant,
    pub shares: Vec<MountedShare>,
}

/// How far the mount of a share has come.
#[derive(Debug, PartialEq)]
pub enum MountStatus {
    Discovered,
    Mounting,
    Mounted,
    Unmounting,
    Stale { since: std::time::Instant },
    Error(String),
}

/// The contents of a [`MountStatus`].
pub enum MountStatusView {
    Discovered,
    Mounting,
    Mounted,
    Unmounting,
    Stale { since: std::time::Instant },
    Error(Seq<char>),
}

impl View for MountStatus {
    type V = MountStatusView;

    open spec fn view(&self) -> MountStatusView {
        match self {
            MountStatus::Discovered => MountStatusView::Discovered,
            MountStatus::Mounting => MountStatusView::Mounting,
            MountStatus::Mounted => MountStatusView::Mounted,
            MountStatus::Unmounting => MountStatusView::Unmounting,
            MountStatus::Stale { since } => MountStatusView::Stale { since: *since },
            MountStatus::Error(e) => MountStatusView::Error(e@),
        }
    }
}

impl MountStatusView {
    /// The status as the user reads it.
    pub open spec fn label(self) -> Seq<char> {
        match self {
            MountStatusView::Discovered => "discovered"@,
            MountStatusView::Mounting => "mounting"@,
            MountStatusView::Mounted => "mounted"@,
            MountStatusView::Unmounting => "unmounting"@,
            MountStatusView::Stale { since } => "stale"@,
            MountStatusView::Error(e) => "error: "@ + e,
        }
    }
}

impl MountStatus {
    /// The status as the user reads it.
    pub fn label(&self) -> (t: String)
        ensures
            t@ == self@.label(),
    {
        match self {
            MountStatus::Discovered => "discovered".to_string(),
            MountStatus::Mounting => "mounting".to_string(),
            MountStatus::Mounted => "mounted".to_string(),
            MountStatus::Unmounting => "unmounting".to_string(),
            MountStatus::Stale { since: _ } => "stale".to_string(),
            MountStatus::Error(e) => labelled("error: ", e),
        }
    }
}

impl Default for MountStatus {
    fn default() -> (s: Self)
        ensures
            s@ == MountStatusView::Discovered,
    {
        MountStatus::Discovered
    }
}

impl Clone for MountStatus {
    fn clone(&self) -> (copy: Self)
        ensures
            copy@ == self@,
    {
        match self {
            MountStatus::Discovered => MountStatus::Discovered,
            MountStatus::Mounting => MountStatus::Mounting,
            MountStatus::Mounted => MountStatus::Mounted,
            MountStatus::Unmounting => MountStatus::Unmounting,
            MountStatus::Stale { since } => MountStatus::Stale { since: *since },
            MountStatus::Error(e) => MountStatus::Error(e.clone()),
        }
    }
}

/// Cache and transfer figures of a mount. The transfer speed, in bytes per
/// second, is held as the bit pattern of a double.
#[derive(Debug, Clone, Copy, PartialEq, Eq, Structural)]
pub struct MountStats {
    pub cache_size_bytes: u64,
    pub cached_files: u64,
    pub bytes_transferred: u64,
    pub transfer_speed_bits: u64,
}

impl Default for MountStats {
    fn default() -> (s: Self)
        ensures
            s == (MountStats {
                cache_size_bytes: 0,
                cached_files: 0,
                bytes_transferred: 0,
                transfer_speed_bits: 0,
            }),
    {
        MountStats {
            cache_size_bytes: 0,
            cached_files: 0,
            bytes_transferred: 0,
            transfer_speed_bits: 0,
        }
    }
}

/// A share from a connected client, mounted locally.
#[derive(Debug, PartialEq)]
pub struct MountedShare {
    pub share_name: String,
    pub client_name: String,
    pub tunneled_port: u16,
    pub mount_point: PathBuf,
    pub rc_port: u16,
    pub status: MountStatus,
    pub stats: Option<MountStats>,
}

/// The contents of a [`MountedShare`].
pub struct MountedShareView {
    pub share_name: Seq<char>,
    pub client_name: Seq<char>,
    pub tunneled_port: u16,
    pub mount_point: PathBuf,
    pub rc_port: u16,
    pub status: MountStatusView,
    pub stats: Option<MountStats>,
}

impl View for MountedShare {
    type V = MountedShareView;

    open spec fn view(&self) -> MountedShareView {
        MountedShareView {
            share_name: self.share_name@,
            client_name: self.client_name@,
            tunneled_port: self.tunneled_port,
            mount_point: self.mount_point,
            rc_port: self.rc_port,
            status: self.status@,
            stats: self.stats,
        }
    }
}

impl Clone for MountedShare {
    fn clone(&self) -> (copy: Self)
        ensures
            copy@ == self@,
    {
        MountedShare {
            share_name: self.share_name.clone(),
            client_name: self.client_name.clone(),
            tunneled_port: self.tunneled_port,
            mount_point: self.mount_point.clone(),
            rc_port: self.rc_port,
            status: self.status.clone(),
            stats: self.stats,
        }
    }
}

// ---------------------------------------------------------------------------
// Events
// ---------------------------------------------------------------------------

/// What can happen to the server.
#[derive(Debug)]
pub enum ServerEvent {
    ClientConnected(String),
    ClientDisconnected(String),
    SharesUpdated { client_name: String, shares: Vec<ShareManifestEntry> },
    MountHealthCheck { share_name: String, healthy: bool },
    Shutdown,
}

/// What can happen to the client.
#[derive(Debug)]
pub enum ClientEvent {
    TunnelEstablished(String),
    TunnelLost(String),
    ShareAdded(String),
    ShareRemoved(String),
    ProcessExited { kind: ProcessKind, name: String, exit_code: Option<i32> },
    Shutdown,
}

/// The part that a subprocess plays.
#[derive(Debug, Clone, Copy, PartialEq, Eq, Structural)]
pub enum ProcessKind {
    RcloneServe,
    RcloneMount,
    ChiselServer,
    ChiselClient,
}

// ---------------------------------------------------------------------------
// Tunnels
// ---------------------------------------------------------------------------

/// A local port and the remote port that leads to it through the tunnel.
#[derive(Debug, Clone, Copy, PartialEq, Eq, Structural)]
pub struct TunnelMapping {
    pub local_port: u16,
    pub remote_port: u16,
}

// ---------------------------------------------------------------------------
// Laws
// ---------------------------------------------------------------------------

/// An error is shown with its kind, and with all that it holds.
pub proof fn errors_are_shown_with_their_kind(t: Seq<char>, hint: Seq<char>, port: u16)
    ensures
        ErrorView::Config(t).message() == "configuration error: "@ + t,
        ErrorView::Io(t).message() == "io error: "@ + t,
        ErrorView::Process(t).message() == "process error: "@ + t,
        ErrorView::Tunnel(t).message() == "tunnel error: "@ + t,
        ErrorView::Mount(t).message() == "mount error: "@ + t,
        ErrorView::RcloneRc(t).message() == "rclone RC error: "@ + t,
        ErrorView::Control(t).message() == "control socket error: "@ + t,
        (ErrorView::DependencyMissing { binary: t, install_hint: hint }).message()
            == "dependency missing: "@ + t + " — "@ + hint,
        (ErrorView::PortConflict { port }).message() == "port conflict: port "@ + decimal(
            port as nat,
        ) + " is already in use"@,
        ErrorView::Other(t).message() == t,
{
}

/// The state of a remote, of a share or of a mount is shown by a word of its own, and
/// with what went wrong or how often a connection was tried.
pub proof fn states_are_shown_apart(e: Seq<char>, attempts: u32, since: std::time::Instant)
    ensures
        ConnectionStatusView::Disconnected.label() == "disconnected"@,
        ConnectionStatusView::Connecting.label() == "connecting"@,
        ConnectionStatusView::Connected.label() == "connected"@,
        (ConnectionStatusView::Reconnecting { since, attempts }).label()
            == "reconnecting (attempt "@ + decimal(attempts as nat) + ")"@,
        ConnectionStatusView::Error(e).label() == "error: "@ + e,
        ShareStatusView::Stopped.label() == "stopped"@,
        ShareStatusView::Starting.label() == "starting"@,
        ShareStatusView::Serving.label() == "serving"@,
        ShareStatusView::Error(e).label() == "error: "@ + e,
        MountStatusView::Discovered.label() == "discovered"@,
        MountStatusView::Mounting.label() == "mounting"@,
        MountStatusView::Mounted.label() == "mounted"@,
        MountStatusView::Unmounting.label() == "unmounting"@,
        (MountStatusView::Stale { since }).label() == "stale"@,
        MountStatusView::Error(e).label() == "error: "@ + e,
{
}

/// The contents of a remote, of a share and of a mount leave nothing out.
pub proof fn things_are_viewed_whole(r: Remote, s: Share, m: MountedShare, i: int)
    ensures
        r@.name == r.name@,
        r@.host == r.host@,
        r@.port == r.port,
        match (r@.auth, r.auth) {
            (Some(a), Some(b)) => a == b@,
            (None, None) => true,
            _ => false,
        },
        r@.auto_connect == r.auto_connect,
        r@.status == r.status@,
        s@.name == s.name@,
        s@.path == s.path,
        s@.sftp_port == s.sftp_port,
        s@.remotes.len() == s.remotes@.len(),
        0 <= i < s.remotes@.len() ==> s@.remotes[i] == s.remotes@[i]@,
        s@.status == s.status@,
        m@.share_name == m.share_name@,
        m@.client_name == m.client_name@,
        m@.tunneled_port == m.tunneled_port,
        m@.mount_point == m.mount_point,
        m@.rc_port == m.rc_port,
        m@.status == m.status@,
        m@.stats == m.stats,
{
}

/// The contents of states and errors tell them apart.
pub proof fn states_are_viewed_whole(
    c: ConnectionStatus,
    s: ShareStatus,
    m: MountStatus,
    e: LazyMountError,
)
    ensures
        match c {
            ConnectionStatus::Disconnected => c@ is Disconnected,
            ConnectionStatus::Connecting => c@ is Connecting,
            ConnectionStatus::Connected => c@ is Connected,
            ConnectionStatus::Reconnecting { since, attempts } => c@
                matches ConnectionStatusView::Reconnecting { since: a, attempts: b } && a == since
                && b == attempts,
            ConnectionStatus::Error(t) => c@ matches ConnectionStatusView::Error(u) && u == t@,
        },
        match s {
            ShareStatus::Stopped => s@ is Stopped,
            ShareStatus::Starting => s@ is Starting,
            ShareStatus::Serving => s@ is Serving,
            ShareStatus::Error(t) => s@ matches ShareStatusView::Error(u) && u == t@,
        },
        match m {
            MountStatus::Discovered => m@ is Discovered,
            MountStatus::Mounting => m@ is Mounting,
            MountStatus::Mounted => m@ is Mounted,
            MountStatus::Unmounting => m@ is Unmounting,
            MountStatus::Stale { since } => m@ matches MountStatusView::Stale { since: a } && a
                == since,
            MountStatus::Error(t) => m@ matches MountStatusView::Error(u) && u == t@,
        },
        match e {
            LazyMountError::Config(t) => e@ matches ErrorView::Config(u) && u == t@,
            LazyMountError::Io(t) => e@ matches ErrorView::Io(u) && u == t@,
            LazyMountError::Process(t) => e@ matches ErrorView::Process(u) && u == t@,
            LazyMountError::Tunnel(t) => e@ matches ErrorView::Tunnel(u) && u == t@,
            LazyMountError::Mount(t) => e@ matches ErrorView::Mount(u) && u == t@,
            LazyMountError::RcloneRc(t) => e@ matches ErrorView::RcloneRc(u) && u == t@,
            LazyMountError::Control(t) => e@ matches ErrorView::Control(u) && u == t@,
            LazyMountError::DependencyMissing { binary, install_hint } => e@
                matches ErrorView::DependencyMissing { binary: b, install_hint: h } && b == binary@
                && h == install_hint@,
            LazyMountError::PortConflict { port } => e@ matches ErrorView::PortConflict { port: p }
                && p == port,
            LazyMountError::Other(t) => e@ matches ErrorView::Other(u) && u == t@,
        },
{
}

} // verus!
