//! Reverse tunnels, by way of chisel.

use crate::config::{ServerConfig, ServerConfigView};
use crate::process::{keep_alive, kept_alive, ProcessConfig, ProcessView};
use crate::text::{decimal, decimal_text, texts};
use crate::types::{ProcessKind, Remote, RemoteView, TunnelMapping};
use vstd::prelude::*;

verus! {

/// An open connection to a tunnel server: whose it is, and the tunnels that it
/// was opened with.
#[derive(Debug, PartialEq)]
pub struct TunnelClientHandle {
    pub remote_name: String,
    pub tunnels: Vec<TunnelMapping>,
}

/// The contents of a [`TunnelClientHandle`].
pub struct HandleView {
    pub remote_name: Seq<char>,
    pub tunnels: Seq<TunnelMapping>,
}

impl View for TunnelClientHandle {
    type V = HandleView;

    open spec fn view(&self) -> HandleView {
        HandleView { remote_name: self.remote_name@, tunnels: self.tunnels@ }
    }
}

impl Clone for TunnelClientHandle {
    fn clone(&self) -> (copy: Self)
        ensures
            copy@ == self@,
    {
        TunnelClientHandle {
            remote_name: self.remote_name.clone(),
            tunnels: clone_tunnels(&self.tunnels),
        }
    }
}

/// Copies a list of tunnels.
pub fn clone_tunnels(tunnels: &Vec<TunnelMapping>) -> (copy: Vec<TunnelMapping>)
    ensures
        copy@ == tunnels@,
{
    let mut copy: Vec<TunnelMapping> = Vec::new();
    let mut i: usize = 0;
    while i < tunnels.len()
        invariant
            i <= tunnels@.len(),
            copy@ == tunnels@.take(i as int),
        decreases tunnels@.len() - i,
    {
        copy.push(tunnels[i]);
        assert(copy@ =~= tunnels@.take(i + 1));
        i += 1;
    }
    assert(tunnels@.take(i as int) =~= tunnels@);
    copy
}

/// The arguments of the chisel server.
pub open spec fn server_args(config: ServerConfigView) -> Seq<Seq<char>> {
    let base = seq![
        "server"@,
        "--port"@,
        decimal(config.server.chisel_port as nat),
        "--reverse"@,
    ];
    match config.server.auth {
        Some(auth) => base + seq!["--auth"@, auth],
        None => base,
    }
}

/// The chisel server as a process.
pub open spec fn server_process(config: ServerConfigView) -> ProcessView {
    kept_alive(
        "chisel-server"@,
        ProcessKind::ChiselServer,
        "chisel"@,
        server_args(config),
    )
}

/// The address of a remote, with its credentials where it has some.
pub open spec fn remote_url(remote: RemoteView) -> Seq<char> {
    match remote.auth {
        Some(auth) => "http://"@ + auth + "@"@ + remote.host + ":"@ + decimal(remote.port as nat),
        None => "http://"@ + remote.host + ":"@ + decimal(remote.port as nat),
    }
}

/// A reverse tunnel in chisel's notation: the remote port, and the local port
/// that it leads to.
pub open spec fn reverse_spec(t: TunnelMapping) -> Seq<char> {
    "R:"@ + decimal(t.remote_port as nat) + ":localhost:"@ + decimal(t.local_port as nat)
}

/// The arguments of a chisel client: the remote, and every tunnel in order.
pub open spec fn client_args(remote: RemoteView, tunnels: Seq<TunnelMapping>) -> Seq<Seq<char>> {
    seq!["client"@, remote_url(remote)] + tunnels.map_values(|t: TunnelMapping| reverse_spec(t))
}

/// A chisel client as a process.
pub open spec fn client_process(remote: RemoteView, tunnels: Seq<TunnelMapping>) -> ProcessView {
    kept_alive(
        "chisel-client-"@ + remote.name,
        ProcessKind::ChiselClient,
        "chisel"@,
        client_args(remote, tunnels),
    )
}

/// A server with credentials is run with them.
pub proof fn credentials_are_asked_for(config: ServerConfigView)
    ensures
        config.server.auth matches Some(auth) ==> exists|i: int|
            {
                &&& 0 <= i < server_process(config).args.len() - 1
                &&& #[trigger] server_process(config).args[i] == "--auth"@
                &&& server_process(config).args[i + 1] == auth
            },
{
    if config.server.auth is Some {
        assert(server_process(config).args[4] == "--auth"@);
    }
}

/// Every tunnel is passed to chisel, and leads to a port of this machine.
pub proof fn tunnels_lead_to_this_machine(
    remote: RemoteView,
    tunnels: Seq<TunnelMapping>,
    t: TunnelMapping,
)
    requires
        tunnels.contains(t),
    ensures
        client_process(remote, tunnels).args.contains(
            "R:"@ + decimal(t.remote_port as nat) + ":localhost:"@ + decimal(t.local_port as nat),
        ),
{
    let i = choose|i: int| 0 <= i < tunnels.len() && tunnels[i] == t;
    assert(client_process(remote, tunnels).args[i + 2] == reverse_spec(t));
}

fn url_of(remote: &Remote) -> (t: String)
    ensures
        t@ == remote_url(remote@),
{
    let mut t = "http://".to_string();
    if let Some(auth) = &remote.auth {
        t.append(auth.as_str());
        t.append("@");
    }
    t.append(remote.host.as_str());
    t.append(":");
    t.append(decimal_text(remote.port as u64).as_str());
    t
}

fn spec_of(t: TunnelMapping) -> (r: String)
    ensures
        r@ == reverse_spec(t),
{
    let mut r = "R:".to_string();
    r.append(decimal_text(t.remote_port as u64).as_str());
    r.append(":localhost:");
    r.append(decimal_text(t.local_port as u64).as_str());
    r
}

/// Tunnels by way of chisel.
#[derive(Debug, Clone, Copy)]
pub struct ChiselTunnelProvider;

impl ChiselTunnelProvider {
    /// The tunnel server (remote side) as a process.
    pub fn server_process(&self, config: &ServerConfig) -> (p: ProcessConfig)
        ensures
            p@ == server_process(config@),
    {
        let mut args: Vec<String> = Vec::new();
        args.push("server".to_string());
        args.push("--port".to_string());
        args.push(decimal_text(config.server.chisel_port as u64));
        args.push("--reverse".to_string());
        if let Some(auth) = &config.server.auth {
            args.push("--auth".to_string());
            args.push(auth.clone());
        }
        assert(texts(args@) =~= server_args(config@));
        keep_alive("chisel-server".to_string(), ProcessKind::ChiselServer, "chisel", args)
    }

    /// The connection to a tunnel server (local side) as a process.
    pub fn client_process(&self, remote: &Remote, tunnels: &Vec<TunnelMapping>) -> (p:
        ProcessConfig)
        ensures
            p@ == client_process(remote@, tunnels@),
    {
        let mut args: Vec<String> = Vec::new();
        args.push("client".to_string());
        args.push(url_of(remote));
        let mut i: usize = 0;
        while i < tunnels.len()
            invariant
                i <= tunnels@.len(),
                args@.len() == i + 2,
                args@[0]@ == "client"@,
                args@[1]@ == remote_url(remote@),
                forall|j: int| 0 <= j < i ==> args@[j + 2]@ == reverse_spec(#[trigger] tunnels@[j]),
            decreases tunnels@.len() - i,
        {
            args.push(spec_of(tunnels[i]));
            i += 1;
        }
        assert(texts(args@) =~= client_args(remote@, tunnels@)) by {
            assert forall|k: int| 0 <= k < args@.len() implies texts(args@)[k] == client_args(
                remote@,
                tunnels@,
            )[k] by {
                if k >= 2 {
                    assert(args@[(k - 2) + 2]@ == reverse_spec(tunnels@[k - 2]));
                }
            }
        }
        let mut name = "chisel-client-".to_string();
        name.append(remote.name.as_str());
        keep_alive(name, ProcessKind::ChiselClient, "chisel", args)
    }

    /// The handle of a connection that has been opened.
    pub fn connect(&self, remote: &Remote, tunnels: &Vec<TunnelMapping>) -> (h: TunnelClientHandle)
        ensures
            h@ == (HandleView { remote_name: remote.name@, tunnels: tunnels@ }),
    {
        TunnelClientHandle { remote_name: remote.name.clone(), tunnels: clone_tunnels(tunnels) }
    }

    /// Notes the tunnels of a connection that has been opened anew: chisel
    /// cannot add tunnels to one that runs.
    pub fn update_tunnels(&self, handle: &mut TunnelClientHandle, tunnels: &Vec<TunnelMapping>)
        ensures
            final(handle)@ == (HandleView { tunnels: tunnels@, ..old(handle)@ }),
    {
        handle.tunnels = clone_tunnels(tunnels);
    }
}

/// chisel serves at the configured port, for reverse tunnels, and asks for the
/// credentials exactly where there are some.
pub proof fn the_server_is_run_as_configured(config: ServerConfigView)
    ensures
        ({
            let p = server_process(config);
            &&& p.name == "chisel-server"@
            &&& p.kind == ProcessKind::ChiselServer
            &&& p.program == "chisel"@
            &&& p.restart_on_crash
            &&& p.args[0] == "server"@
            &&& p.args[1] == "--port"@ && p.args[2] == decimal(config.server.chisel_port as nat)
            &&& p.args[3] == "--reverse"@
            &&& match config.server.auth {
                Some(auth) => p.args.len() == 6 && p.args[4] == "--auth"@ && p.args[5] == auth,
                None => p.args.len() == 4,
            }
        }),
{
}

/// chisel is sent to the remote's host and port with its credentials, where it has
/// some, and is handed every tunnel, in order.
pub proof fn a_client_is_run_for_its_remote(remote: RemoteView, tunnels: Seq<TunnelMapping>)
    ensures
        ({
            let p = client_process(remote, tunnels);
            &&& p.name == "chisel-client-"@ + remote.name
            &&& p.kind == ProcessKind::ChiselClient
            &&& p.program == "chisel"@
            &&& p.restart_on_crash
            &&& p.args.len() == 2 + tunnels.len()
            &&& p.args[0] == "client"@
            &&& match remote.auth {
                Some(auth) => p.args[1] == "http://"@ + auth + "@"@ + remote.host + ":"@ + decimal(
                    remote.port as nat,
                ),
                None => p.args[1] == "http://"@ + remote.host + ":"@ + decimal(remote.port as nat),
            }
            &&& forall|k: int|
                0 <= k < tunnels.len() ==> p.args[k + 2] == "R:"@ + decimal(
                    (#[trigger] tunnels[k]).remote_port as nat,
                ) + ":localhost:"@ + decimal(tunnels[k].local_port as nat)
        }),
{
}

/// The contents of a connection leave nothing out.
pub proof fn connections_are_viewed_whole(h: TunnelClientHandle)
    ensures
        h@.remote_name == h.remote_name@,
        h@.tunnels == h.tunnels@,
{
}

} // verus!
