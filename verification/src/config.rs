//! Configuration files, their defaults, and where things are on disk.

use crate::names::NameMap;
use crate::paths::{
    is_verbatim, is_within, join_path, joined, path_from, path_text, slash_join, text_of,
    within_stays_below,
};
use crate::text::{clone_opt, clone_texts, opt_text, same_text, texts};
use crate::types::{outcome, ErrorView, LazyMountError};
use std::path::PathBuf;
use vstd::prelude::*;

verus! {

// ---------------------------------------------------------------------------
// Client configuration
// ---------------------------------------------------------------------------

/// The configuration of the client daemon.
#[derive(Debug)]
pub struct ClientConfig {
    pub daemon: DaemonConfig,
    pub cache: CacheConfig,
    pub remotes: NameMap<RemoteConfig>,
    pub shares: NameMap<ShareConfig>,
}

/// The contents of a [`ClientConfig`].
pub struct ClientConfigView {
    pub daemon: DaemonConfig,
    pub cache: CacheConfigView,
    pub remotes: Seq<(Seq<char>, RemoteConfigView)>,
    pub shares: Seq<(Seq<char>, ShareConfigView)>,
}

impl View for ClientConfig {
    type V = ClientConfigView;

    open spec fn view(&self) -> ClientConfigView {
        ClientConfigView {
            daemon: self.daemon,
            cache: self.cache@,
            remotes: self.remotes@,
            shares: self.shares@,
        }
    }
}

fn copy_remote(remote: &RemoteConfig) -> (copy: RemoteConfig)
    ensures
        copy@ == remote@,
{
    remote.clone()
}

fn copy_share(share: &ShareConfig) -> (copy: ShareConfig)
    ensures
        copy@ == share@,
{
    share.clone()
}

impl Clone for ClientConfig {
    fn clone(&self) -> (copy: Self)
        ensures
            copy@ == self@,
    {
        ClientConfig {
            daemon: self.daemon,
            cache: self.cache.clone(),
            remotes: self.remotes.copy_by(copy_remote),
            shares: self.shares.copy_by(copy_share),
        }
    }
}

/// The ports of the client daemon.
#[derive(Debug, Clone, Copy, PartialEq, Eq, Structural)]
pub struct DaemonConfig {
    pub sftp_port_range_start: u16,
    pub tunnel_port_range_start: u16,
    pub control_port: u16,
}

/// The cache settings of rclone's virtual file system.
#[derive(Debug, PartialEq)]
pub struct CacheConfig {
    pub vfs_cache_mode: String,
    pub vfs_cache_max_age: String,
    pub vfs_cache_max_size: String,
    pub vfs_read_ahead: String,
}

/// The contents of a [`CacheConfig`].
pub struct CacheConfigView {
    pub vfs_cache_mode: Seq<char>,
    pub vfs_cache_max_age: Seq<char>,
    pub vfs_cache_max_size: Seq<char>,
    pub vfs_read_ahead: Seq<char>,
}

impl View for CacheConfig {
    type V = CacheConfigView;

    open spec fn view(&self) -> CacheConfigView {
        CacheConfigView {
            vfs_cache_mode: self.vfs_cache_mode@,
            vfs_cache_max_age: self.vfs_cache_max_age@,
            vfs_cache_max_size: self.vfs_cache_max_size@,
            vfs_read_ahead: self.vfs_read_ahead@,
        }
    }
}

impl Clone for CacheConfig {
    fn clone(&self) -> (copy: Self)
        ensures
            copy@ == self@,
    {
        CacheConfig {
            vfs_cache_mode: self.vfs_cache_mode.clone(),
            vfs_cache_max_age: self.vfs_cache_max_age.clone(),
            vfs_cache_max_size: self.vfs_cache_max_size.clone(),
            vfs_read_ahead: self.vfs_read_ahead.clone(),
        }
    }
}

/// A remote server as the configuration file has it.
#[derive(Debug, PartialEq)]
pub struct RemoteConfig {
    pub host: String,
    pub port: u16,
    pub auth: Option<String>,
    pub auto_connect: bool,
}

/// The contents of a [`RemoteConfig`].
pub struct RemoteConfigView {
    pub host: Seq<char>,
    pub port: u16,
    pub auth: Option<Seq<char>>,
    pub auto_connect: bool,
}

impl View for RemoteConfig {
    type V = RemoteConfigView;

    open spec fn view(&self) -> RemoteConfigView {
        RemoteConfigView {
            host: self.host@,
            port: self.port,
            auth: opt_text(self.auth),
            auto_connect: self.auto_connect,
        }
    }
}

impl Clone for RemoteConfig {
    fn clone(&self) -> (copy: Self)
        ensures
            copy@ == self@,
    {
        RemoteConfig {
            host: self.host.clone(),
            port: self.port,
            auth: clone_opt(&self.auth),
            auto_connect: self.auto_connect,
        }
    }
}

/// A share as the configuration file has it.
#[derive(Debug, PartialEq)]
pub struct ShareConfig {
    pub path: String,
    pub remotes: Vec<String>,
}

/// The contents of a [`ShareConfig`].
pub struct ShareConfigView {
    pub path: Seq<char>,
    pub remotes: Seq<Seq<char>>,
}

impl View for ShareConfig {
    type V = ShareConfigView;

    open spec fn view(&self) -> ShareConfigView {
        ShareConfigView { path: self.path@, remotes: texts(self.remotes@) }
    }
}

impl Clone for ShareConfig {
    fn clone(&self) -> (copy: Self)
        ensures
            copy@ == self@,
    {
        ShareConfig { path: self.path.clone(), remotes: clone_texts(&self.remotes) }
    }
}

// ---------------------------------------------------------------------------
// Server configuration
// ---------------------------------------------------------------------------

/// The configuration of the server daemon.
#[derive(Debug, PartialEq)]
pub struct ServerConfig {
    pub server: ServerDaemonConfig,
    pub cache: CacheConfig,
}

/// The contents of a [`ServerConfig`].
pub struct ServerConfigView {
    pub server: ServerDaemonConfigView,
    pub cache: CacheConfigView,
}

impl View for ServerConfig {
    type V = ServerConfigView;

    open spec fn view(&self) -> ServerConfigView {
        ServerConfigView { server: self.server@, cache: self.cache@ }
    }
}

/// The ports, credentials and directories of the server daemon.
#[derive(Debug, PartialEq)]
pub struct ServerDaemonConfig {
    pub chisel_port: u16,
    pub auth: Option<String>,
    pub mount_base_dir: String,
    pub rc_port_range_start: u16,
    pub offline_grace_period: u64,
}

/// The contents of a [`ServerDaemonConfig`].
pub struct ServerDaemonConfigView {
    pub chisel_port: u16,
    pub auth: Option<Seq<char>>,
    pub mount_base_dir: Seq<char>,
    pub rc_port_range_start: u16,
    pub offline_grace_period: u64,
}

impl View for ServerDaemonConfig {
    type V = ServerDaemonConfigView;

    open spec fn view(&self) -> ServerDaemonConfigView {
        ServerDaemonConfigView {
            chisel_port: self.chisel_port,
            auth: opt_text(self.auth),
            mount_base_dir: self.mount_base_dir@,
            rc_port_range_start: self.rc_port_range_start,
            offline_grace_period: self.offline_grace_period,
        }
    }
}

impl Clone for ServerDaemonConfig {
    fn clone(&self) -> (copy: Self)
        ensures
            copy@ == self@,
    {
        ServerDaemonConfig {
            chisel_port: self.chisel_port,
            auth: clone_opt(&self.auth),
            mount_base_dir: self.mount_base_dir.clone(),
            rc_port_range_start: self.rc_port_range_start,
            offline_grace_period: self.offline_grace_period,
        }
    }
}

impl Clone for ServerConfig {
    fn clone(&self) -> (copy: Self)
        ensures
            copy@ == self@,
    {
        ServerConfig { server: self.server.clone(), cache: self.cache.clone() }
    }
}

impl ServerConfigView {
    /// The configuration with the options of the command that starts the
    /// server: its port, and its credentials where it has some.
    pub open spec fn with_options(self, port: u16, auth: Option<Seq<char>>) -> ServerConfigView {
        ServerConfigView {
            server: ServerDaemonConfigView {
                chisel_port: port,
                auth: if auth is Some {
                    auth
                } else {
                    self.server.auth
                },
                ..self.server
            },
            cache: self.cache,
        }
    }
}

impl ServerConfig {
    /// Applies the options of the command that starts the server.
    pub fn apply_options(&mut self, port: u16, auth: Option<String>)
        ensures
            final(self)@ == old(self)@.with_options(port, opt_text(auth)),
    {
        self.server.chisel_port = port;
        if auth.is_some() {
            self.server.auth = auth;
        }
    }
}

// ---------------------------------------------------------------------------
// Defaults
// ---------------------------------------------------------------------------

pub fn default_sftp_port_start() -> (port: u16)
    ensures
        port == 2222,
{
    2222
}

pub fn default_tunnel_port_start() -> (port: u16)
    ensures
        port == 3222,
{
    3222
}

pub fn default_control_port() -> (port: u16)
    ensures
        port == 3200,
{
    3200
}

pub fn default_chisel_port() -> (port: u16)
    ensures
        port == 8090,
{
    8090
}

pub fn default_rc_port_start() -> (port: u16)
    ensures
        port == 5572,
{
    5572
}

pub fn default_grace_period() -> (secs: u64)
    ensures
        secs == 30,
{
    30
}

pub fn default_mount_base_dir() -> (t: String)
    ensures
        t@ == "~/LazyMount"@,
{
    "~/LazyMount".to_string()
}

pub fn default_vfs_cache_mode() -> (t: String)
    ensures
        t@ == "full"@,
{
    "full".to_string()
}

pub fn default_vfs_cache_max_age() -> (t: String)
    ensures
        t@ == "1h"@,
{
    "1h".to_string()
}

pub fn default_vfs_cache_max_size() -> (t: String)
    ensures
        t@ == "10G"@,
{
    "10G".to_string()
}

pub fn default_vfs_read_ahead() -> (t: String)
    ensures
        t@ == "128M"@,
{
    "128M".to_string()
}

impl Default for DaemonConfig {
    fn default() -> (c: Self)
        ensures
            c == (DaemonConfig {
                sftp_port_range_start: 2222,
                tunnel_port_range_start: 3222,
                control_port: 3200,
            }),
    {
        DaemonConfig {
            sftp_port_range_start: default_sftp_port_start(),
            tunnel_port_range_start: default_tunnel_port_start(),
            control_port: default_control_port(),
        }
    }
}

/// The default cache settings.
pub open spec fn default_cache() -> CacheConfigView {
    CacheConfigView {
        vfs_cache_mode: "full"@,
        vfs_cache_max_age: "1h"@,
        vfs_cache_max_size: "10G"@,
        vfs_read_ahead: "128M"@,
    }
}

impl Default for CacheConfig {
    fn default() -> (c: Self)
        ensures
            c@ == default_cache(),
    {
        CacheConfig {
            vfs_cache_mode: default_vfs_cache_mode(),
            vfs_cache_max_age: default_vfs_cache_max_age(),
            vfs_cache_max_size: default_vfs_cache_max_size(),
            vfs_read_ahead: default_vfs_read_ahead(),
        }
    }
}

/// The default settings of the server daemon.
pub open spec fn default_server() -> ServerDaemonConfigView {
    ServerDaemonConfigView {
        chisel_port: 8090,
        auth: None,
        mount_base_dir: "~/LazyMount"@,
        rc_port_range_start: 5572,
        offline_grace_period: 30,
    }
}

impl Default for ServerDaemonConfig {
    fn default() -> (c: Self)
        ensures
            c@ == default_server(),
    {
        ServerDaemonConfig {
            chisel_port: default_chisel_port(),
            auth: None,
            mount_base_dir: default_mount_base_dir(),
            rc_port_range_start: default_rc_port_start(),
            offline_grace_period: default_grace_period(),
        }
    }
}

/// The default configuration of the server.
pub open spec fn default_server_config() -> ServerConfigView {
    ServerConfigView { server: default_server(), cache: default_cache() }
}

impl Default for ServerConfig {
    fn default() -> (c: Self)
        ensures
            c@ == default_server_config(),
    {
        ServerConfig { server: ServerDaemonConfig::default(), cache: CacheConfig::default() }
    }
}

/// The default configuration of the client: no remotes and no shares.
pub open spec fn default_client_config() -> ClientConfigView {
    ClientConfigView {
        daemon: DaemonConfig {
            sftp_port_range_start: 2222,
            tunnel_port_range_start: 3222,
            control_port: 3200,
        },
        cache: default_cache(),
        remotes: Seq::empty(),
        shares: Seq::empty(),
    }
}

impl Default for ClientConfig {
    fn default() -> (c: Self)
        ensures
            c@ == default_client_config(),
    {
        ClientConfig {
            daemon: DaemonConfig::default(),
            cache: CacheConfig::default(),
            remotes: NameMap::new(),
            shares: NameMap::new(),
        }
    }
}

// ---------------------------------------------------------------------------
// Paths
// ---------------------------------------------------------------------------

/// `s` without the slashes at its start.
pub open spec fn past_slashes(s: Seq<char>) -> Seq<char>
    decreases s.len(),
{
    if s.len() > 0 && s[0] == '/' {
        past_slashes(s.skip(1))
    } else {
        s
    }
}

/// Whether `expanded` is a path with a leading `~` component replaced by the home
/// directory, where that is known. What follows the component is below that
/// directory, however many slashes stand between them.
pub open spec fn expands(path: Seq<char>, home: Option<PathBuf>, expanded: PathBuf) -> bool {
    match home {
        Some(h) => if path.len() >= 2 && path[0] == '~' && path[1] == '/' {
            joined(path_text(h), past_slashes(path.skip(2)), path_text(expanded))
        } else if path =~= seq!['~'] {
            expanded == h
        } else {
            path_text(expanded) == path
        },
        None => path_text(expanded) == path,
    }
}

/// Expands `~` to the given home directory.
pub fn expand_tilde_in(path: &str, home: Option<PathBuf>) -> (t: PathBuf)
    ensures
        expands(path@, home, t),
{
    let n = path.unicode_len();
    if n > 0 && path.get_char(0) == '~' {
        if let Some(h) = home {
            if n == 1 {
                return h;
            }
            if path.get_char(1) == '/' {
                let mut from: usize = 2;
                while from < n && path.get_char(from) == '/'
                    invariant
                        2 <= from <= n,
                        n == path@.len(),
                        past_slashes(path@.skip(2)) == past_slashes(path@.skip(from as int)),
                    decreases n - from,
                {
                    assert(path@.skip(from as int).skip(1) =~= path@.skip(from + 1));
                    from += 1;
                }
                assert(path@.subrange(from as int, n as int) =~= path@.skip(from as int));
                return join_path(&h, path.substring_char(from, n));
            }
        }
    }
    path_from(path)
}

/// The user's home directory. Calls `directories::BaseDirs::new`, which goes by
/// the environment and the user database: nothing is claimed of what it finds.
#[verifier::external_body]
pub(crate) fn home_dir() -> (dir: Option<PathBuf>) {
    directories::BaseDirs::new().map(|d| d.home_dir().to_path_buf())
}

/// Expands `~` to the user's home directory.
pub fn expand_tilde(path: &str) -> (t: PathBuf)
    ensures
        exists|home: Option<PathBuf>| expands(path@, home, t),
{
    let home = home_dir();
    expand_tilde_in(path, home)
}

proof fn lemma_past_slashes(s: Seq<char>)
    ensures
        past_slashes(s).len() > 0 ==> past_slashes(s)[0] != '/',
    decreases s.len(),
{
    if s.len() > 0 && s[0] == '/' {
        lemma_past_slashes(s.skip(1));
    }
}

/// `~/rest` becomes a path that starts with the home directory and ends in `rest`,
/// but for slashes at the start of `rest`, where what is left of `rest` is within
/// any directory.
pub proof fn tilde_leads_home(rest: Seq<char>, home: PathBuf, expanded: PathBuf)
    requires
        is_within(past_slashes(rest)),
        !is_verbatim(path_text(home)),
        expands("~/"@ + rest, Some(home), expanded),
    ensures
        path_text(home).is_prefix_of(path_text(expanded)),
        past_slashes(rest).is_suffix_of(path_text(expanded)),
{
    reveal_strlit("~/");
    let path = "~/"@ + rest;
    assert(path.skip(2) =~= rest);
    within_stays_below(path_text(home), past_slashes(rest), path_text(expanded));
}

/// Where the home directory does not itself start with `~`, to expand an expanded
/// path changes nothing.
pub proof fn expanding_twice(
    path: Seq<char>,
    home: Option<PathBuf>,
    once: PathBuf,
    twice: PathBuf,
)
    requires
        home matches Some(h) ==> {
            &&& path_text(h).len() > 0
            &&& path_text(h)[0] != '~'
            &&& !is_verbatim(path_text(h))
        },
        expands(path, home, once),
        expands(path_text(once), home, twice),
    ensures
        path_text(twice) == path_text(once),
{
    if let Some(h) = home {
        if path.len() >= 2 && path[0] == '~' && path[1] == '/' {
            let base = path_text(h);
            let rest = past_slashes(path.skip(2));
            let t = path_text(once);
            lemma_past_slashes(path.skip(2));
            if t != slash_join(base, rest) && t != base + rest && t != base + "\\"@ + rest {
                let n = choose|n: int| 0 <= n <= base.len() && t == #[trigger] base.take(n) + rest;
                if n > 0 {
                    assert(t[0] == base[0]);
                } else {
                    assert(t =~= rest);
                }
            } else {
                assert(t[0] == base[0]);
            }
        }
    }
}

/// The application that directories are looked up for.
pub const APPLICATION: &'static str = "lazymount";

/// Whether a name is made of small ASCII letters. Such a name is a component of a
/// path as it stands on every system.
pub open spec fn plain_name(name: Seq<char>) -> bool {
    &&& name.len() > 0
    &&& forall|i: int| 0 <= i < name.len() ==> 'a' <= #[trigger] name[i] <= 'z'
}

/// Whether `dir` is a directory of an application: the one of its name below some
/// base directory, or on Windows one of the name `kind` in that.
pub open spec fn application_dir(
    dir: Seq<char>,
    application: Seq<char>,
    kind: Seq<char>,
) -> bool {
    exists|base: Seq<char>|
        {
            ||| base.len() > 0 && dir == #[trigger] slash_join(base, application)
            ||| dir == base + application + "\\"@ + kind
        }
}

/// The directory for an application's configuration. Calls
/// `directories::ProjectDirs::from` and then `config_dir`, which put the application's
/// name below a directory that they have from the environment, and on Windows
/// `config` below that. Nothing is claimed of the directory from the environment, nor
/// of when there is none.
#[verifier::external_body]
fn project_config_dir(application: &str) -> (dir: Option<PathBuf>)
    ensures
        plain_name(application@) ==> match dir {
            Some(d) => application_dir(path_text(d), application@, "config"@),
            None => true,
        },
{
    directories::ProjectDirs::from("", "", application).map(
        |d| d.config_dir().to_path_buf(),
    )
}

/// The directory for an application's data. Calls
/// `directories::ProjectDirs::from` and then `data_dir`, which put the application's
/// name below a directory that they have from the environment, and on Windows
/// `data` below that. Nothing is claimed of the directory from the environment, nor
/// of when there is none.
#[verifier::external_body]
fn project_data_dir(application: &str) -> (dir: Option<PathBuf>)
    ensures
        plain_name(application@) ==> match dir {
            Some(d) => application_dir(path_text(d), application@, "data"@),
            None => true,
        },
{
    directories::ProjectDirs::from("", "", application).map(
        |d| d.data_dir().to_path_buf(),
    )
}

/// The directory for an application's cache. Calls
/// `directories::ProjectDirs::from` and then `cache_dir`, which put the application's
/// name below a directory that they have from the environment, and on Windows
/// `cache` below that. Nothing is claimed of the directory from the environment, nor
/// of when there is none.
#[verifier::external_body]
fn project_cache_dir(application: &str) -> (dir: Option<PathBuf>)
    ensures
        plain_name(application@) ==> match dir {
            Some(d) => application_dir(path_text(d), application@, "cache"@),
            None => true,
        },
{
    directories::ProjectDirs::from("", "", application).map(
        |d| d.cache_dir().to_path_buf(),
    )
}

/// The error for a directory that cannot be determined.
pub open spec fn no_directory(kind: Seq<char>) -> ErrorView {
    ErrorView::Config("cannot determine "@ + kind + " directory"@)
}

/// The directory that was found, or the error that it cannot be determined.
pub fn found_dir(kind: &str, dir: Option<PathBuf>) -> (r: Result<PathBuf, LazyMountError>)
    ensures
        match dir {
            Some(d) => r matches Ok(t) && t == d,
            None => r matches Err(e) && e@ == no_directory(kind@),
        },
{
    match dir {
        Some(d) => Ok(d),
        None => {
            let mut t = "cannot determine ".to_string();
            t.append(kind);
            t.append(" directory");
            Err(LazyMountError::Config(t))
        },
    }
}

/// The lazymount configuration directory.
pub fn config_dir() -> (r: Result<PathBuf, LazyMountError>)
    ensures
        match r {
            Ok(t) => application_dir(path_text(t), APPLICATION@, "config"@),
            Err(e) => e@ == no_directory("config"@),
        },
{
    proof {
        reveal_strlit("lazymount");
    }
    found_dir("config", project_config_dir(APPLICATION))
}

/// The lazymount data directory.
pub fn data_dir() -> (r: Result<PathBuf, LazyMountError>)
    ensures
        match r {
            Ok(t) => application_dir(path_text(t), APPLICATION@, "data"@),
            Err(e) => e@ == no_directory("data"@),
        },
{
    proof {
        reveal_strlit("lazymount");
    }
    found_dir("data", project_data_dir(APPLICATION))
}

/// The lazymount cache directory.
pub fn cache_dir() -> (r: Result<PathBuf, LazyMountError>)
    ensures
        match r {
            Ok(t) => application_dir(path_text(t), APPLICATION@, "cache"@),
            Err(e) => e@ == no_directory("cache"@),
        },
{
    proof {
        reveal_strlit("lazymount");
    }
    found_dir("cache", project_cache_dir(APPLICATION))
}

/// A file below a directory that was looked up, or the error of the lookup.
pub fn file_in(dir: Result<PathBuf, LazyMountError>, file: &str) -> (r: Result<
    PathBuf,
    LazyMountError,
>)
    ensures
        match dir {
            Ok(d) => r matches Ok(t) && joined(path_text(d), file@, path_text(t)),
            Err(e) => r matches Err(f) && f@ == e@,
        },
{
    match dir {
        Ok(d) => Ok(join_path(&d, file)),
        Err(e) => Err(e),
    }
}

/// The path of the client's configuration file.
pub fn client_config_path() -> (r: Result<PathBuf, LazyMountError>)
    ensures
        match r {
            Ok(t) => exists|d: Seq<char>|
                application_dir(d, APPLICATION@, "config"@) && #[trigger] joined(
                    d,
                    "config.toml"@,
                    path_text(t),
                ),
            Err(e) => e@ == no_directory("config"@),
        },
{
    file_in(config_dir(), "config.toml")
}

/// The path of the server's configuration file.
pub fn server_config_path() -> (r: Result<PathBuf, LazyMountError>)
    ensures
        match r {
            Ok(t) => exists|d: Seq<char>|
                application_dir(d, APPLICATION@, "config"@) && #[trigger] joined(
                    d,
                    "server.toml"@,
                    path_text(t),
                ),
            Err(e) => e@ == no_directory("config"@),
        },
{
    file_in(config_dir(), "server.toml")
}

// ---------------------------------------------------------------------------
// Loading and saving
// ---------------------------------------------------------------------------

/// What came of reading a configuration file.
#[derive(Debug)]
pub enum Reading<C> {
    /// There is no such file.
    Absent,
    /// It could not be read.
    Unreadable { reason: String },
    /// It is no configuration.
    Unparsable { reason: String },
    /// It holds this.
    Parsed(C),
}

/// What came of writing a configuration file.
#[derive(Debug, PartialEq)]
pub enum Writing {
    /// Its directory could not be made.
    NoDirectory { reason: String },
    /// The configuration could not be put into text.
    Unserializable { reason: String },
    /// It could not be written.
    Unwritable { reason: String },
    /// It is written.
    Written,
}

/// The error of a configuration file that could not be read, parsed or written.
pub open spec fn file_error(action: Seq<char>, path: Seq<char>, reason: Seq<char>) -> ErrorView {
    ErrorView::Config("failed to "@ + action + " "@ + path + ": "@ + reason)
}

fn file_failure(action: &str, path: &PathBuf, reason: &String) -> (e: LazyMountError)
    ensures
        e@ == file_error(action@, path_text(*path), reason@),
{
    let mut t = "failed to ".to_string();
    t.append(action);
    t.append(" ");
    t.append(text_of(path).as_str());
    t.append(": ");
    t.append(reason.as_str());
    LazyMountError::Config(t)
}

/// The client's configuration from the file at `path`: what the file holds, or
/// the default where there is none.
pub fn load_client_config(path: &PathBuf, reading: Reading<ClientConfig>) -> (r: Result<
    ClientConfig,
    LazyMountError,
>)
    ensures
        match reading {
            Reading::Absent => r matches Ok(c) && c@ == default_client_config(),
            Reading::Unreadable { reason } => r matches Err(e) && e@ == file_error(
                "read"@,
                path_text(*path),
                reason@,
            ),
            Reading::Unparsable { reason } => r matches Err(e) && e@ == file_error(
                "parse"@,
                path_text(*path),
                reason@,
            ),
            Reading::Parsed(c) => r matches Ok(d) && d@ == c@,
        },
{
    match reading {
        Reading::Absent => Ok(ClientConfig::default()),
        Reading::Unreadable { reason } => Err(file_failure("read", path, &reason)),
        Reading::Unparsable { reason } => Err(file_failure("parse", path, &reason)),
        Reading::Parsed(c) => Ok(c),
    }
}

/// The server's configuration from the file at `path`: what the file holds, or
/// the default where there is none.
pub fn load_server_config(path: &PathBuf, reading: Reading<ServerConfig>) -> (r: Result<
    ServerConfig,
    LazyMountError,
>)
    ensures
        match reading {
            Reading::Absent => r matches Ok(c) && c@ == default_server_config(),
            Reading::Unreadable { reason } => r matches Err(e) && e@ == file_error(
                "read"@,
                path_text(*path),
                reason@,
            ),
            Reading::Unparsable { reason } => r matches Err(e) && e@ == file_error(
                "parse"@,
                path_text(*path),
                reason@,
            ),
            Reading::Parsed(c) => r matches Ok(d) && d@ == c@,
        },
{
    match reading {
        Reading::Absent => Ok(ServerConfig::default()),
        Reading::Unreadable { reason } => Err(file_failure("read", path, &reason)),
        Reading::Unparsable { reason } => Err(file_failure("parse", path, &reason)),
        Reading::Parsed(c) => Ok(c),
    }
}

/// Whether a configuration was saved in the file at `path`, or what went wrong.
pub fn save_config(path: &PathBuf, writing: Writing) -> (r: Result<(), LazyMountError>)
    ensures
        outcome(r) == match writing {
            Writing::NoDirectory { reason } => Err(ErrorView::Io(reason@)),
            Writing::Unserializable { reason } => Err(
                ErrorView::Config("failed to serialize config: "@ + reason@),
            ),
            Writing::Unwritable { reason } => Err(
                file_error("write"@, path_text(*path), reason@),
            ),
            Writing::Written => Ok(()),
        },
{
    match writing {
        Writing::NoDirectory { reason } => Err(LazyMountError::Io(reason)),
        Writing::Unserializable { reason } => {
            let mut t = "failed to serialize config: ".to_string();
            t.append(reason.as_str());
            Err(LazyMountError::Config(t))
        },
        Writing::Unwritable { reason } => Err(file_failure("write", path, &reason)),
        Writing::Written => Ok(()),
    }
}

// ---------------------------------------------------------------------------
// Dependency checks
// ---------------------------------------------------------------------------

/// How to come by a program that is missing.
pub open spec fn install_hint(name: Seq<char>) -> Seq<char> {
    if name == "chisel"@ {
        "Install from https://github.com/jpillora/chisel/releases"@
    } else if name == "rclone"@ {
        "Install from https://rclone.org/install/"@
    } else {
        "Install "@ + name + " and ensure it is on your PATH"@
    }
}

/// The error for a program that is missing.
pub open spec fn missing(name: Seq<char>) -> ErrorView {
    ErrorView::DependencyMissing { binary: name, install_hint: install_hint(name) }
}

/// Whether the test `is_file` has said `answer` of the path `path`.
pub open spec fn said<F: Fn(&PathBuf) -> bool>(is_file: F, path: PathBuf, answer: bool) -> bool {
    call_ensures(is_file, (&path,), answer)
}

/// Whether the test has said that a program is not in a directory.
pub open spec fn is_absent<F: Fn(&PathBuf) -> bool>(
    is_file: F,
    name: Seq<char>,
    dir: PathBuf,
) -> bool {
    exists|p: PathBuf|
        joined(path_text(dir), name, path_text(p)) && #[trigger] said(is_file, p, false)
}

/// Whether a program was found at `path`: below the first of the directories
/// of which the test said that the program is there.
pub open spec fn found_at<F: Fn(&PathBuf) -> bool>(
    is_file: F,
    name: Seq<char>,
    dirs: Seq<PathBuf>,
    path: PathBuf,
) -> bool {
    exists|i: int|
        {
            &&& 0 <= i < dirs.len()
            &&& joined(path_text(#[trigger] dirs[i]), name, path_text(path))
            &&& said(is_file, path, true)
            &&& forall|j: int| 0 <= j < i ==> is_absent(is_file, name, #[trigger] dirs[j])
        }
}

/// Whether a program was found below none of the directories.
pub open spec fn found_nowhere<F: Fn(&PathBuf) -> bool>(
    is_file: F,
    name: Seq<char>,
    dirs: Seq<PathBuf>,
) -> bool {
    forall|j: int| 0 <= j < dirs.len() ==> is_absent(is_file, name, #[trigger] dirs[j])
}

/// Finds a program in the first directory that has it.
pub fn which<F: Fn(&PathBuf) -> bool>(
    name: &str,
    dirs: &Vec<PathBuf>,
    is_file: F,
) -> (found: Option<PathBuf>)
    requires
        forall|p: PathBuf| call_requires(is_file, (&p,)),
    ensures
        match found {
            Some(t) => found_at(is_file, name@, dirs@, t),
            None => found_nowhere(is_file, name@, dirs@),
        },
{
    let mut i: usize = 0;
    while i < dirs.len()
        invariant
            i <= dirs@.len(),
            forall|p: PathBuf| call_requires(is_file, (&p,)),
            forall|j: int| 0 <= j < i ==> is_absent(is_file, name@, #[trigger] dirs@[j]),
        decreases dirs@.len() - i,
    {
        let full = join_path(&dirs[i], name);
        assert(joined(path_text(dirs@[i as int]), name@, path_text(full)));
        if is_file(&full) {
            assert(said(is_file, full, true));
            return Some(full);
        }
        assert(said(is_file, full, false));
        i += 1;
    }
    None
}

/// The place where a program was found, or the error that it is missing.
pub fn found_binary(name: &str, found: Option<PathBuf>) -> (r: Result<PathBuf, LazyMountError>)
    ensures
        match found {
            Some(p) => r matches Ok(t) && t == p,
            None => r matches Err(e) && e@ == missing(name@),
        },
{
    match found {
        Some(p) => Ok(p),
        None => {
            let hint = if same_text(name, "chisel") {
                "Install from https://github.com/jpillora/chisel/releases".to_string()
            } else if same_text(name, "rclone") {
                "Install from https://rclone.org/install/".to_string()
            } else {
                let mut t = "Install ".to_string();
                t.append(name);
                t.append(" and ensure it is on your PATH");
                t
            };
            Err(LazyMountError::DependencyMissing { binary: name.to_string(), install_hint: hint })
        },
    }
}

/// Checks that a program exists in one of the directories. Returns its full
/// path if it does.
pub fn check_binary<F: Fn(&PathBuf) -> bool>(name: &str, dirs: &Vec<PathBuf>, is_file: F) -> (r:
    Result<PathBuf, LazyMountError>)
    requires
        forall|p: PathBuf| call_requires(is_file, (&p,)),
    ensures
        match r {
            Ok(t) => found_at(is_file, name@, dirs@, t),
            Err(e) => e@ == missing(name@) && found_nowhere(is_file, name@, dirs@),
        },
{
    found_binary(name, which(name, dirs, is_file))
}

/// Checks that the programs that a daemon runs are there: chisel, then rclone.
pub fn check_dependencies<F: Fn(&PathBuf) -> bool + Copy>(
    dirs: &Vec<PathBuf>,
    is_file: F,
) -> (r: Result<(), LazyMountError>)
    requires
        forall|p: PathBuf| call_requires(is_file, (&p,)),
    ensures
        match r {
            Ok(()) => {
                &&& exists|t: PathBuf| found_at(is_file, "chisel"@, dirs@, t)
                &&& exists|t: PathBuf| found_at(is_file, "rclone"@, dirs@, t)
            },
            Err(e) => {
                ||| found_nowhere(is_file, "chisel"@, dirs@) && e@ == missing("chisel"@)
                ||| (exists|t: PathBuf| found_at(is_file, "chisel"@, dirs@, t))
                    && found_nowhere(is_file, "rclone"@, dirs@) && e@ == missing("rclone"@)
            },
        },
{
    match check_binary("chisel", dirs, is_file) {
        Ok(_) => {},
        Err(e) => {
            return Err(e);
        },
    }
    match check_binary("rclone", dirs, is_file) {
        Ok(_) => Ok(()),
        Err(e) => Err(e),
    }
}

// ---------------------------------------------------------------------------
// Laws
// ---------------------------------------------------------------------------

/// The options of the command that starts the server replace its port, and its
/// credentials where some are given. Everything else stays.
pub proof fn options_replace_port_and_credentials(
    config: ServerConfigView,
    port: u16,
    auth: Seq<char>,
)
    ensures
        config.with_options(port, Some(auth)).server.chisel_port == port,
        config.with_options(port, Some(auth)).server.auth == Some(auth),
        config.with_options(port, None).server.chisel_port == port,
        config.with_options(port, None).server.auth == config.server.auth,
        forall|a: Option<Seq<char>>|
            {
                let n = #[trigger] config.with_options(port, a);
                &&& n.server.mount_base_dir == config.server.mount_base_dir
                &&& n.server.rc_port_range_start == config.server.rc_port_range_start
                &&& n.server.offline_grace_period == config.server.offline_grace_period
                &&& n.cache == config.cache
            },
{
}

/// What is not configured has its documented value.
pub proof fn defaults_are_as_documented()
    ensures
        default_client_config().daemon.sftp_port_range_start == 2222,
        default_client_config().daemon.tunnel_port_range_start == 3222,
        default_client_config().daemon.control_port == 3200,
        default_client_config().remotes.len() == 0,
        default_client_config().shares.len() == 0,
        default_client_config().cache == default_cache(),
        default_server_config().server.chisel_port == 8090,
        default_server_config().server.auth is None,
        default_server_config().server.mount_base_dir == "~/LazyMount"@,
        default_server_config().server.rc_port_range_start == 5572,
        default_server_config().server.offline_grace_period == 30,
        default_server_config().cache == default_cache(),
        default_cache().vfs_cache_mode == "full"@,
        default_cache().vfs_cache_max_age == "1h"@,
        default_cache().vfs_cache_max_size == "10G"@,
        default_cache().vfs_read_ahead == "128M"@,
{
}

/// A path that does not start with a `~` component stands for itself, as does every
/// path where the home directory is not known. `~` alone is the home directory.
pub proof fn other_paths_stand_for_themselves(
    path: Seq<char>,
    home: PathBuf,
    expanded: PathBuf,
)
    ensures
        expands(path, None, expanded) ==> path_text(expanded) == path,
        expands(path, Some(home), expanded) && path.len() == 1 && path[0] == '~' ==> expanded
            == home,
        expands(path, Some(home), expanded) && (path.len() == 0 || path[0] != '~' || (path.len()
            > 1 && path[1] != '/')) ==> path_text(expanded) == path,
{
    if path.len() == 1 && path[0] == '~' {
        assert(path =~= seq!['~']);
    }
}

/// No more than the slashes at the start of a path are passed over.
pub proof fn only_slashes_are_passed_over(s: Seq<char>)
    ensures
        exists|n: int|
            {
                &&& 0 <= n <= s.len()
                &&& past_slashes(s) == #[trigger] s.skip(n)
                &&& forall|i: int| 0 <= i < n ==> #[trigger] s[i] == '/'
                &&& n < s.len() ==> s[n] != '/'
            },
    decreases s.len(),
{
    if s.len() > 0 && s[0] == '/' {
        let rest = s.skip(1);
        only_slashes_are_passed_over(rest);
        let n = choose|n: int|
            {
                &&& 0 <= n <= rest.len()
                &&& past_slashes(rest) == #[trigger] rest.skip(n)
                &&& forall|i: int| 0 <= i < n ==> #[trigger] rest[i] == '/'
                &&& n < rest.len() ==> rest[n] != '/'
            };
        assert(s.skip(n + 1) =~= rest.skip(n));
        assert forall|i: int| 0 <= i < n + 1 implies #[trigger] s[i] == '/' by {
            if i > 0 {
                assert(s[i] == rest[i - 1]);
            }
        }
    } else {
        assert(s.skip(0) =~= s);
    }
}

/// A program is found in a directory where the test said that it is there, and in
/// every directory before that the test said that it is not. It is found nowhere only
/// where the test said so of every directory.
pub proof fn programs_are_found_in_the_first_directory<F: Fn(&PathBuf) -> bool>(
    is_file: F,
    name: Seq<char>,
    dirs: Seq<PathBuf>,
    found: PathBuf,
)
    ensures
        found_at(is_file, name, dirs, found) ==> call_ensures(is_file, (&found,), true),
        found_at(is_file, name, dirs, found) ==> exists|i: int|
            {
                &&& 0 <= i < dirs.len()
                &&& joined(path_text(#[trigger] dirs[i]), name, path_text(found))
                &&& forall|j: int| 0 <= j < i ==> is_absent(is_file, name, #[trigger] dirs[j])
            },
        found_nowhere(is_file, name, dirs) ==> forall|j: int|
            0 <= j < dirs.len() ==> is_absent(is_file, name, #[trigger] dirs[j]),
{
}

/// A program is absent from a directory where the test said so of the program's path
/// in it.
pub proof fn absent_programs_were_looked_for<F: Fn(&PathBuf) -> bool>(
    is_file: F,
    name: Seq<char>,
    dir: PathBuf,
)
    ensures
        is_absent(is_file, name, dir) == exists|p: PathBuf|
            joined(path_text(dir), name, path_text(p)) && #[trigger] call_ensures(
                is_file,
                (&p,),
                false,
            ),
{
    if is_absent(is_file, name, dir) {
        let p = choose|p: PathBuf|
            joined(path_text(dir), name, path_text(p)) && #[trigger] said(is_file, p, false);
        assert(call_ensures(is_file, (&p,), false));
    }
    if exists|p: PathBuf|
        joined(path_text(dir), name, path_text(p)) && #[trigger] call_ensures(
            is_file,
            (&p,),
            false,
        ) {
        let p = choose|p: PathBuf|
            joined(path_text(dir), name, path_text(p)) && #[trigger] call_ensures(
                is_file,
                (&p,),
                false,
            );
        assert(said(is_file, p, false));
    }
}

/// A program that is missing is named, with how to come by it.
pub proof fn missing_programs_come_with_a_hint(name: Seq<char>)
    ensures
        missing(name) matches ErrorView::DependencyMissing { binary, install_hint } && binary
            == name && (name == "chisel"@ ==> install_hint
            == "Install from https://github.com/jpillora/chisel/releases"@) && (name == "rclone"@
            ==> install_hint == "Install from https://rclone.org/install/"@) && (name != "chisel"@
            && name != "rclone"@ ==> install_hint == "Install "@ + name
            + " and ensure it is on your PATH"@),
{
    reveal_strlit("chisel");
    reveal_strlit("rclone");
    assert("chisel"@[0] == 'c' && "rclone"@[0] == 'r');
}

/// The errors of files and directories say what failed, where, and why.
pub proof fn file_errors_say_where(action: Seq<char>, path: Seq<char>, reason: Seq<char>)
    ensures
        file_error(action, path, reason).message() == "configuration error: "@ + ("failed to "@
            + action + " "@ + path + ": "@ + reason),
        no_directory(action).message() == "configuration error: "@ + ("cannot determine "@ + action
            + " directory"@),
{
}

/// The contents of a configuration leave nothing out.
pub proof fn configurations_are_viewed_whole(
    c: ClientConfig,
    s: ServerConfig,
    r: RemoteConfig,
    f: ShareConfig,
    i: int,
)
    ensures
        c@.daemon == c.daemon,
        c@.cache == c.cache@,
        c@.remotes == c.remotes@,
        c@.shares == c.shares@,
        s@.cache.vfs_cache_mode == s.cache.vfs_cache_mode@,
        s@.cache.vfs_cache_max_age == s.cache.vfs_cache_max_age@,
        s@.cache.vfs_cache_max_size == s.cache.vfs_cache_max_size@,
        s@.cache.vfs_read_ahead == s.cache.vfs_read_ahead@,
        s@.server.chisel_port == s.server.chisel_port,
        match (s@.server.auth, s.server.auth) {
            (Some(a), Some(b)) => a == b@,
            (None, None) => true,
            _ => false,
        },
        s@.server.mount_base_dir == s.server.mount_base_dir@,
        s@.server.rc_port_range_start == s.server.rc_port_range_start,
        s@.server.offline_grace_period == s.server.offline_grace_period,
        r@.host == r.host@,
        r@.port == r.port,
        match (r@.auth, r.auth) {
            (Some(a), Some(b)) => a == b@,
            (None, None) => true,
            _ => false,
        },
        r@.auto_connect == r.auto_connect,
        f@.path == f.path@,
        f@.remotes.len() == f.remotes@.len(),
        0 <= i < f.remotes@.len() ==> f@.remotes[i] == f.remotes@[i]@,
{
}

} // verus!
