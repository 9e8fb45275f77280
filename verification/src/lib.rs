//! Lazy-loading remote file mounts through reverse tunnels: the decisions of
//! the client and server daemons and of the command line, verified with Verus.

pub mod cli;
pub mod client;
pub mod client_laws;
pub mod config;
pub mod control;
pub mod mounts;
pub mod names;
pub mod paths;
pub mod process;
pub mod protocol;
pub mod rclone_rc;
pub mod server;
pub mod shares;
pub mod text;
pub mod tunnel;
pub mod types;
