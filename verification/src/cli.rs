//! The command line: what a command asks for, and how answers are shown.

use crate::client::{client_after, client_task, no_remote, ClientView, TaskView};
use crate::mounts::{no_mount, MountsView};
use crate::names::{keys, values};
use crate::protocol::{
    ControlRequest, ControlResponse, MountInfo, MountInfoView, RemoteInfo, RemoteInfoView,
    RequestView, ResponseView, ShareInfo, ShareInfoView,
};
use crate::server::{no_stats, server_after, server_task, ServerTaskView};
use crate::text::{
    decimal, decimal_text, join, joined, lemma_decimal_digits, opt_text, pad, padded, parse_port,
    port_of, port_of_decimal, quoted, texts,
};
use crate::types::{ErrorView, LazyMountError};
use vstd::prelude::*;

verus! {

// ---------------------------------------------------------------------------
// Addresses
// ---------------------------------------------------------------------------

/// The port of a remote that is given without one.
pub const DEFAULT_PORT: u16 = 8090;

/// The place of the last colon, or -1.
pub open spec fn last_colon(s: Seq<char>) -> int
    decreases s.len(),
{
    if s.len() == 0 {
        -1
    } else if s.last() == ':' {
        s.len() - 1
    } else {
        last_colon(s.drop_last())
    }
}

/// The host and the port that an address stands for. The port follows the last
/// colon.
pub open spec fn host_port(s: Seq<char>) -> Result<(Seq<char>, u16), ErrorView> {
    let colon = last_colon(s);
    if colon < 0 {
        Ok((s, DEFAULT_PORT))
    } else {
        match port_of(s.skip(colon + 1)) {
            Some(port) => Ok((s.take(colon), port)),
            None => Err(ErrorView::Config("invalid port in '"@ + s + "'"@)),
        }
    }
}

fn find_last_colon(s: &str) -> (place: Option<usize>)
    ensures
        match place {
            Some(i) => i == last_colon(s@) && i < s@.len(),
            None => last_colon(s@) == -1,
        },
{
    let mut i = s.unicode_len();
    assert(s@.take(i as int) =~= s@);
    while i > 0
        invariant
            i <= s@.len(),
            last_colon(s@) == last_colon(s@.take(i as int)),
        decreases i,
    {
        assert(s@.take(i as int).last() == s@[i - 1]);
        if s.get_char(i - 1) == ':' {
            return Some(i - 1);
        }
        assert(s@.take(i as int).drop_last() =~= s@.take(i - 1));
        i -= 1;
    }
    None
}

/// Takes an address apart into host and port.
pub fn parse_host_port(s: &str) -> (r: Result<(String, u16), LazyMountError>)
    ensures
        match (r, host_port(s@)) {
            (Ok((host, port)), Ok((h, p))) => host@ == h && port == p,
            (Err(e), Err(v)) => e@ == v,
            _ => false,
        },
{
    match find_last_colon(s) {
        Some(colon) => {
            let n = s.unicode_len();
            let host = s.substring_char(0, colon).to_string();
            assert(s@.subrange(0, colon as int) =~= s@.take(colon as int));
            assert(s@.subrange(colon + 1, n as int) =~= s@.skip(colon + 1));
            match parse_port(s.substring_char(colon + 1, n)) {
                Some(port) => Ok((host, port)),
                None => Err(LazyMountError::Config(quoted("invalid port in '", s, "'"))),
            }
        },
        None => Ok((s.to_string(), DEFAULT_PORT)),
    }
}

proof fn lemma_last_colon(s: Seq<char>, digits: Seq<char>)
    requires
        forall|i: int| 0 <= i < digits.len() ==> #[trigger] digits[i] != ':',
    ensures
        last_colon(s.push(':') + digits) == s.len(),
    decreases digits.len(),
{
    let t = s.push(':') + digits;
    if digits.len() == 0 {
        assert(t =~= s.push(':'));
    } else {
        assert(t.last() == digits.last());
        assert(t.drop_last() =~= s.push(':') + digits.drop_last());
        lemma_last_colon(s, digits.drop_last());
    }
}

/// An address that is written with its port is taken apart into what it was made
/// of.
pub proof fn address_reads_back(host: Seq<char>, port: u16)
    ensures
        host_port(host + ":"@ + decimal(port as nat)) == Ok::<(Seq<char>, u16), ErrorView>(
            (host, port),
        ),
{
    reveal_strlit(":");
    let digits = decimal(port as nat);
    let s = host + ":"@ + digits;
    lemma_decimal_digits(port as nat);
    assert forall|i: int| 0 <= i < digits.len() implies #[trigger] digits[i] != ':' by {
        assert('0' <= digits[i] <= '9');
    }
    assert(s =~= host.push(':') + digits);
    lemma_last_colon(host, digits);
    assert(s.skip(host.len() as int + 1) =~= digits);
    assert(s.take(host.len() as int) =~= host);
    port_of_decimal(port);
}

proof fn lemma_no_colon(s: Seq<char>)
    requires
        forall|i: int| 0 <= i < s.len() ==> #[trigger] s[i] != ':',
    ensures
        last_colon(s) == -1,
    decreases s.len(),
{
    if s.len() > 0 {
        lemma_no_colon(s.drop_last());
    }
}

/// An address without a colon stands for a host with the default port.
pub proof fn address_without_port(host: Seq<char>)
    requires
        forall|i: int| 0 <= i < host.len() ==> #[trigger] host[i] != ':',
    ensures
        host_port(host) == Ok::<(Seq<char>, u16), ErrorView>((host, DEFAULT_PORT)),
{
    lemma_no_colon(host);
}

// ---------------------------------------------------------------------------
// Commands
// ---------------------------------------------------------------------------

/// A command of the user.
#[derive(Debug, PartialEq)]
pub enum Command {
    ServerStart { port: u16, auth: Option<String> },
    ServerStop,
    ServerStatus,
    DaemonStart,
    DaemonStop,
    RemoteAdd { name: String, host_port: String, auth: Option<String> },
    RemoteRemove { name: String },
    RemoteList,
    Connect { remote: String },
    Disconnect { remote: String },
    ShareAdd { name: String, path: String, remote: Option<String> },
    ShareRemove { name: String },
    ShareList,
    Mounts,
    MountStats { share_name: String },
    Status,
}

/// One of the two daemons.
#[derive(Debug, Clone, Copy, PartialEq, Eq, Structural)]
pub enum Daemon {
    Client,
    Server,
}

/// What is done about a command.
#[derive(Debug, PartialEq)]
pub enum Plan {
    /// Run the server daemon with these options.
    StartServer { port: u16, auth: Option<String> },
    /// Run the client daemon.
    StartDaemon,
    /// Put a request to a daemon, and show the answer.
    Ask { daemon: Daemon, request: ControlRequest },
    /// Ask both daemons for their status, and show both answers.
    AskBoth,
}

/// The contents of a [`Plan`].
pub enum PlanView {
    StartServer { port: u16, auth: Option<Seq<char>> },
    StartDaemon,
    Ask { daemon: Daemon, request: RequestView },
    AskBoth,
}

impl View for Plan {
    type V = PlanView;

    open spec fn view(&self) -> PlanView {
        match self {
            Plan::StartServer { port, auth } => PlanView::StartServer {
                port: *port,
                auth: opt_text(*auth),
            },
            Plan::StartDaemon => PlanView::StartDaemon,
            Plan::Ask { daemon, request } => PlanView::Ask { daemon: *daemon, request: request@ },
            Plan::AskBoth => PlanView::AskBoth,
        }
    }
}

/// A request to the client.
pub open spec fn ask_client(request: RequestView) -> Result<PlanView, ErrorView> {
    Ok(PlanView::Ask { daemon: Daemon::Client, request })
}

/// A request to the server.
pub open spec fn ask_server(request: RequestView) -> Result<PlanView, ErrorView> {
    Ok(PlanView::Ask { daemon: Daemon::Server, request })
}

/// What is to be done about a command. Only an address can be wrong.
pub open spec fn plan_of(command: Command) -> Result<PlanView, ErrorView> {
    match command {
        Command::ServerStart { port, auth } => Ok(
            PlanView::StartServer { port, auth: opt_text(auth) },
        ),
        Command::ServerStop => ask_server(RequestView::Shutdown),
        Command::ServerStatus => ask_server(RequestView::Status),
        Command::DaemonStart => Ok(PlanView::StartDaemon),
        Command::DaemonStop => ask_client(RequestView::Shutdown),
        Command::RemoteAdd { name, host_port: address, auth } => match host_port(address@) {
            Ok((host, port)) => ask_client(
                RequestView::RemoteAdd { name: name@, host, port, auth: opt_text(auth) },
            ),
            Err(e) => Err(e),
        },
        Command::RemoteRemove { name } => ask_client(RequestView::RemoteRemove { name: name@ }),
        Command::RemoteList => ask_client(RequestView::RemoteList),
        Command::Connect { remote } => ask_client(RequestView::Connect { remote: remote@ }),
        Command::Disconnect { remote } => ask_client(RequestView::Disconnect { remote: remote@ }),
        Command::ShareAdd { name, path, remote } => ask_client(
            RequestView::ShareAdd { name: name@, path: path@, remote: opt_text(remote) },
        ),
        Command::ShareRemove { name } => ask_client(RequestView::ShareRemove { name: name@ }),
        Command::ShareList => ask_client(RequestView::ShareList),
        Command::Mounts => ask_server(RequestView::MountList),
        Command::MountStats { share_name } => ask_server(
            RequestView::MountStats { share_name: share_name@ },
        ),
        Command::Status => Ok(PlanView::AskBoth),
    }
}

fn to_client(request: ControlRequest) -> (r: Result<Plan, LazyMountError>)
    ensures
        r matches Ok(plan) && Ok::<PlanView, ErrorView>(plan@) == ask_client(request@),
{
    Ok(Plan::Ask { daemon: Daemon::Client, request })
}

fn to_server(request: ControlRequest) -> (r: Result<Plan, LazyMountError>)
    ensures
        r matches Ok(plan) && Ok::<PlanView, ErrorView>(plan@) == ask_server(request@),
{
    Ok(Plan::Ask { daemon: Daemon::Server, request })
}

/// Decides what to do about a command.
pub fn plan(command: Command) -> (r: Result<Plan, LazyMountError>)
    ensures
        match (r, plan_of(command)) {
            (Ok(plan), Ok(v)) => plan@ == v,
            (Err(e), Err(v)) => e@ == v,
            _ => false,
        },
{
    match command {
        Command::ServerStart { port, auth } => Ok(Plan::StartServer { port, auth }),
        Command::ServerStop => to_server(ControlRequest::Shutdown),
        Command::ServerStatus => to_server(ControlRequest::Status),
        Command::DaemonStart => Ok(Plan::StartDaemon),
        Command::DaemonStop => to_client(ControlRequest::Shutdown),
        Command::RemoteAdd { name, host_port, auth } => match parse_host_port(host_port.as_str()) {
            Ok((host, port)) => to_client(ControlRequest::RemoteAdd { name, host, port, auth }),
            Err(e) => Err(e),
        },
        Command::RemoteRemove { name } => to_client(ControlRequest::RemoteRemove { name }),
        Command::RemoteList => to_client(ControlRequest::RemoteList),
        Command::Connect { remote } => to_client(ControlRequest::Connect { remote }),
        Command::Disconnect { remote } => to_client(ControlRequest::Disconnect { remote }),
        Command::ShareAdd { name, path, remote } => to_client(
            ControlRequest::ShareAdd { name, path, remote },
        ),
        Command::ShareRemove { name } => to_client(ControlRequest::ShareRemove { name }),
        Command::ShareList => to_client(ControlRequest::ShareList),
        Command::Mounts => to_server(ControlRequest::MountList),
        Command::MountStats { share_name } => to_server(ControlRequest::MountStats { share_name }),
        Command::Status => Ok(Plan::AskBoth),
    }
}

proof fn lemma_first_letters_differ(a: Seq<char>, b: Seq<char>)
    requires
        a.len() > 0,
        b.len() > 0,
        a[0] != b[0],
    ensures
        a != b,
{
}

/// A command is put to a daemon that supports it.
pub proof fn commands_reach_their_daemon(command: Command, client: ClientView, server: MountsView)
    ensures
        match plan_of(command) {
            Ok(PlanView::Ask { daemon: Daemon::Client, request }) => client_task(client, request)
                != TaskView::Reply(
                ResponseView::Error { message: "command not supported on client"@ },
            ),
            Ok(PlanView::Ask { daemon: Daemon::Server, request }) => server_task(server, request)
                != ServerTaskView::Reply(
                ResponseView::Error { message: "command not supported on server"@ },
            ),
            _ => true,
        },
{
    reveal_strlit("command not supported on client");
    reveal_strlit("command not supported on server");
    reveal_strlit("remote '");
    reveal_strlit("mount '");
    reveal_strlit("failed to get stats: ");
    match command {
        Command::RemoteRemove { name } => {
            lemma_first_letters_differ(
                no_remote(name@).message(),
                "command not supported on client"@,
            );
        },
        Command::MountStats { share_name } => {
            lemma_first_letters_differ(
                "mount '"@ + share_name@ + "' not found"@,
                "command not supported on server"@,
            );
            assert forall|key: Seq<char>| no_stats(#[trigger] no_mount(key)) != (
            ResponseView::Error { message: "command not supported on server"@ }) by {
                lemma_first_letters_differ(
                    "failed to get stats: "@ + no_mount(key).message(),
                    "command not supported on server"@,
                );
            }
        },
        _ => {},
    }
}

/// The commands that stop a daemon have it end every share, connection and mount,
/// answer that it was done, and stop, with none of them left.
pub proof fn stop_commands_end_everything(
    command: Command,
    client: ClientView,
    server: MountsView,
)
    requires
        command is DaemonStop || command is ServerStop,
    ensures
        match plan_of(command) {
            Ok(PlanView::Ask { daemon: Daemon::Client, request }) => {
                &&& command is DaemonStop
                &&& client_task(client, request) == (TaskView::Stop {
                    response: ResponseView::Done,
                    shares: keys(client.share_manager.shares),
                    remotes: keys(client.tunnel_handles),
                })
                &&& client_after(client, request).share_manager.shares.len() == 0
                &&& client_after(client, request).tunnel_handles.len() == 0
            },
            Ok(PlanView::Ask { daemon: Daemon::Server, request }) => {
                &&& command is ServerStop
                &&& server_task(server, request) == (ServerTaskView::Stop {
                    response: ResponseView::Done,
                    mounts: values(server.mounts),
                })
                &&& server_after(server, request).mounts.len() == 0
            },
            _ => false,
        },
{
}

// ---------------------------------------------------------------------------
// Answers
// ---------------------------------------------------------------------------

/// A line that is shown: on standard output, or as an error.
#[derive(Debug, PartialEq)]
pub struct Line {
    pub text: String,
    pub error: bool,
}

/// The contents of a [`Line`].
pub struct LineView {
    pub text: Seq<char>,
    pub error: bool,
}

impl View for Line {
    type V = LineView;

    open spec fn view(&self) -> LineView {
        LineView { text: self.text@, error: self.error }
    }
}

/// The contents of some lines.
pub open spec fn line_views(lines: Seq<Line>) -> Seq<LineView> {
    lines.map_values(|l: Line| l@)
}

/// A line on standard output.
pub open spec fn plain(text: Seq<char>) -> LineView {
    LineView { text, error: false }
}

/// A table row of three columns.
pub open spec fn row3(a: Seq<char>, b: Seq<char>, c: Seq<char>) -> Seq<char> {
    padded(a, 15) + " "@ + padded(b, 30) + " "@ + c
}

/// A table row of four columns.
pub open spec fn row4(a: Seq<char>, b: Seq<char>, c: Seq<char>, d: Seq<char>) -> Seq<char> {
    padded(a, 15) + " "@ + padded(b, 30) + " "@ + padded(c, 15) + " "@ + d
}

/// A table row of five columns.
pub open spec fn row5(
    a: Seq<char>,
    b: Seq<char>,
    c: Seq<char>,
    d: Seq<char>,
    e: Seq<char>,
) -> Seq<char> {
    padded(a, 15) + " "@ + padded(b, 15) + " "@ + padded(c, 30) + " "@ + padded(d, 10) + " "@ + e
}

/// The row for a remote.
pub open spec fn remote_row(r: RemoteInfoView) -> Seq<char> {
    row3(r.name, r.host + ":"@ + decimal(r.port as nat), r.status)
}

/// The row for a share.
pub open spec fn share_row(s: ShareInfoView) -> Seq<char> {
    row4(
        s.name,
        s.path,
        if s.remotes.len() == 0 {
            "all"@
        } else {
            joined(s.remotes, ", "@)
        },
        s.status,
    )
}

/// The row for a mount.
pub open spec fn mount_row(m: MountInfoView) -> Seq<char> {
    row5(m.client_name, m.share_name, m.mount_point, m.cache_size, m.status)
}

/// A table: its head and its rows, or a line that says that it is empty.
pub open spec fn table(
    empty: Seq<char>,
    head: Seq<char>,
    rows: Seq<Seq<char>>,
) -> Seq<LineView> {
    if rows.len() == 0 {
        seq![plain(empty)]
    } else {
        seq![plain(head)] + rows.map_values(|t: Seq<char>| plain(t))
    }
}

/// The lines that show an answer. `speed` is a transfer speed, with one decimal.
pub open spec fn response_lines(response: ResponseView, speed: Seq<char>) -> Seq<LineView> {
    match response {
        ResponseView::Done => seq![plain("OK"@)],
        ResponseView::Error { message } => seq![
            LineView { text: "Error: "@ + message, error: true },
        ],
        ResponseView::Status { role, running, details } => seq![
            plain("  Role: "@ + role),
            plain(
                "  Status: "@ + if running {
                    "running"@
                } else {
                    "stopped"@
                },
            ),
            plain("  "@ + details),
        ],
        ResponseView::RemoteList { remotes } => table(
            "No remotes configured."@,
            row3("NAME"@, "HOST"@, "STATUS"@),
            remotes.map_values(|r: RemoteInfoView| remote_row(r)),
        ),
        ResponseView::ShareList { shares } => table(
            "No shares configured."@,
            row4("NAME"@, "PATH"@, "REMOTES"@, "STATUS"@),
            shares.map_values(|s: ShareInfoView| share_row(s)),
        ),
        ResponseView::MountList { mounts } => table(
            "No mounts active."@,
            row5("CLIENT"@, "SHARE"@, "LOCAL PATH"@, "CACHE"@, "STATUS"@),
            mounts.map_values(|m: MountInfoView| mount_row(m)),
        ),
        ResponseView::MountStats {
            share_name,
            cache_size_bytes,
            cached_files,
            bytes_transferred,
            transfer_speed_bits,
        } => seq![
            plain("Mount stats for '"@ + share_name + "':"@),
            plain("  Cache size: "@ + decimal(cache_size_bytes as nat) + " bytes"@),
            plain("  Cached files: "@ + decimal(cached_files as nat)),
            plain("  Bytes transferred: "@ + decimal(bytes_transferred as nat)),
            plain("  Transfer speed: "@ + speed + " B/s"@),
        ],
    }
}

fn columns3(a: &str, b: &str, c: &str) -> (t: String)
    ensures
        t@ == row3(a@, b@, c@),
{
    let mut t = pad(a, 15);
    t.append(" ");
    t.append(pad(b, 30).as_str());
    t.append(" ");
    t.append(c);
    t
}

fn columns4(a: &str, b: &str, c: &str, d: &str) -> (t: String)
    ensures
        t@ == row4(a@, b@, c@, d@),
{
    let mut t = columns3(a, b, pad(c, 15).as_str());
    t.append(" ");
    t.append(d);
    t
}

fn columns5(a: &str, b: &str, c: &str, d: &str, e: &str) -> (t: String)
    ensures
        t@ == row5(a@, b@, c@, d@, e@),
{
    let mut t = pad(a, 15);
    t.append(" ");
    t.append(pad(b, 15).as_str());
    t.append(" ");
    t.append(pad(c, 30).as_str());
    t.append(" ");
    t.append(pad(d, 10).as_str());
    t.append(" ");
    t.append(e);
    t
}

fn remote_rows(remotes: &Vec<RemoteInfo>) -> (rows: Vec<String>)
    ensures
        texts(rows@) == remotes@.map_values(|r: RemoteInfo| r@).map_values(
            |r: RemoteInfoView| remote_row(r),
        ),
{
    let mut rows: Vec<String> = Vec::new();
    let mut i: usize = 0;
    while i < remotes.len()
        invariant
            i <= remotes@.len(),
            rows@.len() == i,
            forall|j: int| 0 <= j < i ==> #[trigger] rows@[j]@ == remote_row(remotes@[j]@),
        decreases remotes@.len() - i,
    {
        let r = &remotes[i];
        let address = quoted(r.host.as_str(), ":", decimal_text(r.port as u64).as_str());
        rows.push(columns3(r.name.as_str(), address.as_str(), r.status.as_str()));
        i += 1;
    }
    assert(texts(rows@) =~= remotes@.map_values(|r: RemoteInfo| r@).map_values(
        |r: RemoteInfoView| remote_row(r),
    ));
    rows
}

fn share_rows(shares: &Vec<ShareInfo>) -> (rows: Vec<String>)
    ensures
        texts(rows@) == shares@.map_values(|s: ShareInfo| s@).map_values(
            |s: ShareInfoView| share_row(s),
        ),
{
    let mut rows: Vec<String> = Vec::new();
    let mut i: usize = 0;
    while i < shares.len()
        invariant
            i <= shares@.len(),
            rows@.len() == i,
            forall|j: int| 0 <= j < i ==> #[trigger] rows@[j]@ == share_row(shares@[j]@),
        decreases shares@.len() - i,
    {
        let s = &shares[i];
        let remotes = if s.remotes.len() == 0 {
            "all".to_string()
        } else {
            join(&s.remotes, ", ")
        };
        rows.push(
            columns4(s.name.as_str(), s.path.as_str(), remotes.as_str(), s.status.as_str()),
        );
        i += 1;
    }
    assert(texts(rows@) =~= shares@.map_values(|s: ShareInfo| s@).map_values(
        |s: ShareInfoView| share_row(s),
    ));
    rows
}

fn mount_rows(mounts: &Vec<MountInfo>) -> (rows: Vec<String>)
    ensures
        texts(rows@) == mounts@.map_values(|m: MountInfo| m@).map_values(
            |m: MountInfoView| mount_row(m),
        ),
{
    let mut rows: Vec<String> = Vec::new();
    let mut i: usize = 0;
    while i < mounts.len()
        invariant
            i <= mounts@.len(),
            rows@.len() == i,
            forall|j: int| 0 <= j < i ==> #[trigger] rows@[j]@ == mount_row(mounts@[j]@),
        decreases mounts@.len() - i,
    {
        let m = &mounts[i];
        rows.push(
            columns5(
                m.client_name.as_str(),
                m.share_name.as_str(),
                m.mount_point.as_str(),
                m.cache_size.as_str(),
                m.status.as_str(),
            ),
        );
        i += 1;
    }
    assert(texts(rows@) =~= mounts@.map_values(|m: MountInfo| m@).map_values(
        |m: MountInfoView| mount_row(m),
    ));
    rows
}

fn plain_line(text: String) -> (line: Line)
    ensures
        line@ == plain(text@),
{
    Line { text, error: false }
}

fn table_lines(empty: &str, head: String, rows: Vec<String>) -> (lines: Vec<Line>)
    ensures
        line_views(lines@) == table(empty@, head@, texts(rows@)),
{
    let mut lines: Vec<Line> = Vec::new();
    if rows.len() == 0 {
        lines.push(plain_line(empty.to_string()));
        assert(line_views(lines@) =~= seq![plain(empty@)]);
        return lines;
    }
    lines.push(plain_line(head));
    let mut i: usize = 0;
    while i < rows.len()
        invariant
            i <= rows@.len(),
            lines@.len() == i + 1,
            lines@[0]@ == plain(head@),
            forall|j: int| 0 <= j < i ==> lines@[j + 1]@ == plain((#[trigger] rows@[j])@),
        decreases rows@.len() - i,
    {
        lines.push(plain_line(rows[i].clone()));
        i += 1;
    }
    assert(line_views(lines@) =~= table(empty@, head@, texts(rows@))) by {
        assert forall|k: int| 0 <= k < lines@.len() implies line_views(lines@)[k] == table(
            empty@,
            head@,
            texts(rows@),
        )[k] by {
            if k > 0 {
                assert(lines@[(k - 1) + 1]@ == plain(rows@[k - 1]@));
            }
        }
    }
    lines
}

/// The lines that show an answer. `speed` is a transfer speed, with one decimal.
pub fn render(response: &ControlResponse, speed: &str) -> (lines: Vec<Line>)
    ensures
        line_views(lines@) == response_lines(response@, speed@),
{
    let mut lines: Vec<Line> = Vec::new();
    match response {
        ControlResponse::Done => {
            lines.push(plain_line("OK".to_string()));
        },
        ControlResponse::Error { message } => {
            let mut text = "Error: ".to_string();
            text.append(message.as_str());
            lines.push(Line { text, error: true });
        },
        ControlResponse::Status { role, running, details } => {
            let status = if *running {
                "running"
            } else {
                "stopped"
            };
            lines.push(plain_line(quoted("  Role: ", role.as_str(), "")));
            lines.push(plain_line(quoted("  Status: ", status, "")));
            lines.push(plain_line(quoted("  ", details.as_str(), "")));
            proof {
                reveal_strlit("");
                assert("  Role: "@ + role@ + ""@ =~= "  Role: "@ + role@);
                assert("  Status: "@ + status@ + ""@ =~= "  Status: "@ + status@);
                assert("  "@ + details@ + ""@ =~= "  "@ + details@);
            }
        },
        ControlResponse::RemoteList { remotes } => {
            return table_lines(
                "No remotes configured.",
                columns3("NAME", "HOST", "STATUS"),
                remote_rows(remotes),
            );
        },
        ControlResponse::ShareList { shares } => {
            return table_lines(
                "No shares configured.",
                columns4("NAME", "PATH", "REMOTES", "STATUS"),
                share_rows(shares),
            );
        },
        ControlResponse::MountList { mounts } => {
            return table_lines(
                "No mounts active.",
                columns5("CLIENT", "SHARE", "LOCAL PATH", "CACHE", "STATUS"),
                mount_rows(mounts),
            );
        },
        ControlResponse::MountStats {
            share_name,
            cache_size_bytes,
            cached_files,
            bytes_transferred,
            transfer_speed_bits: _,
        } => {
            lines.push(plain_line(quoted("Mount stats for '", share_name.as_str(), "':")));
            let size = decimal_text(*cache_size_bytes);
            lines.push(plain_line(quoted("  Cache size: ", size.as_str(), " bytes")));
            let mut files = "  Cached files: ".to_string();
            files.append(decimal_text(*cached_files).as_str());
            lines.push(plain_line(files));
            let mut bytes = "  Bytes transferred: ".to_string();
            bytes.append(decimal_text(*bytes_transferred).as_str());
            lines.push(plain_line(bytes));
            lines.push(plain_line(quoted("  Transfer speed: ", speed, " B/s")));
        },
    }
    assert(line_views(lines@) =~= response_lines(response@, speed@));
    lines
}

/// The lines that show whether a daemon is running: those of its answer below
/// its title, or one that says that it is not.
pub open spec fn daemon_lines(title: Seq<char>, answer: Option<Seq<LineView>>) -> Seq<LineView> {
    match answer {
        Some(lines) => seq![plain(title + ":"@)] + lines,
        None => seq![plain(title + ": not running"@)],
    }
}

/// The lines that show the overall status: the client, an empty line, the server.
pub open spec fn status_lines(
    client: Option<Seq<LineView>>,
    server: Option<Seq<LineView>>,
) -> Seq<LineView> {
    daemon_lines("Client daemon"@, client) + seq![plain(""@)] + daemon_lines(
        "Server daemon"@,
        server,
    )
}

/// The contents of lines that may be missing.
pub open spec fn opt_lines(lines: Option<Vec<Line>>) -> Option<Seq<LineView>> {
    match lines {
        Some(l) => Some(line_views(l@)),
        None => None,
    }
}

fn push_daemon(lines: &mut Vec<Line>, title: &str, answer: Option<Vec<Line>>)
    ensures
        line_views(final(lines)@) == line_views(old(lines)@) + daemon_lines(
            title@,
            opt_lines(answer),
        ),
{
    let ghost before = line_views(lines@);
    let mut head = title.to_string();
    match answer {
        Some(answer) => {
            let mut answer = answer;
            let ghost shown = line_views(answer@);
            head.append(":");
            lines.push(plain_line(head));
            lines.append(&mut answer);
            assert(line_views(lines@) =~= before + (seq![plain(title@ + ":"@)] + shown));
        },
        None => {
            head.append(": not running");
            lines.push(plain_line(head));
            assert(line_views(lines@) =~= before + seq![plain(title@ + ": not running"@)]);
        },
    }
}

/// The lines that show the overall status, from those of the two answers.
pub fn overall_status(client: Option<Vec<Line>>, server: Option<Vec<Line>>) -> (lines: Vec<Line>)
    ensures
        line_views(lines@) == status_lines(opt_lines(client), opt_lines(server)),
{
    let mut lines: Vec<Line> = Vec::new();
    let ghost first = daemon_lines("Client daemon"@, opt_lines(client));
    let ghost second = daemon_lines("Server daemon"@, opt_lines(server));
    push_daemon(&mut lines, "Client daemon", client);
    assert(line_views(lines@) =~= first);
    lines.push(plain_line("".to_string()));
    assert(line_views(lines@) =~= first + seq![plain(""@)]);
    push_daemon(&mut lines, "Server daemon", server);
    lines
}

// ---------------------------------------------------------------------------
// Laws
// ---------------------------------------------------------------------------

/// What follows the last colon of an address is its port, and what is before it the
/// host, colons and all. Where it is no port the error names the address.
pub proof fn the_port_follows_the_last_colon(host: Seq<char>, tail: Seq<char>)
    requires
        forall|i: int| 0 <= i < tail.len() ==> #[trigger] tail[i] != ':',
    ensures
        ({
            let s = host + ":"@ + tail;
            match port_of(tail) {
                Some(port) => host_port(s) == Ok::<(Seq<char>, u16), ErrorView>((host, port)),
                None => host_port(s) == Err::<(Seq<char>, u16), ErrorView>(
                    ErrorView::Config("invalid port in '"@ + s + "'"@),
                ),
            }
        }),
{
    reveal_strlit(":");
    let s = host + ":"@ + tail;
    assert(s =~= host.push(':') + tail);
    lemma_last_colon(host, tail);
    assert(s.skip(host.len() as int + 1) =~= tail);
    assert(s.take(host.len() as int) =~= host);
}

/// An address without a colon stands for its host, at port 8090.
pub proof fn the_default_port_is_8090(host: Seq<char>)
    requires
        forall|i: int| 0 <= i < host.len() ==> #[trigger] host[i] != ':',
    ensures
        host_port(host) == Ok::<(Seq<char>, u16), ErrorView>((host, 8090)),
{
    lemma_no_colon(host);
}

/// A remote is registered with the name and the credentials of the command, at the
/// host and the port of its address. Nobody is asked where the address is wrong.
pub proof fn remotes_are_registered_as_typed(
    name: String,
    address: String,
    auth: Option<String>,
)
    ensures
        match (plan_of(Command::RemoteAdd { name, host_port: address, auth }), host_port(address@)) {
            (Ok(plan), Ok((host, port))) => plan matches PlanView::Ask { daemon, request }
                && daemon == Daemon::Client && (request matches RequestView::RemoteAdd {
                name: n,
                host: h,
                port: p,
                auth: a,
            } && n == name@ && h == host && p == port && match auth {
                Some(t) => a == Some(t@),
                None => a is None,
            }),
            (Err(e), Err(f)) => e == f,
            _ => false,
        },
{
}

/// A folder is shared under the name and with the path of the command, with the remote
/// that it names or with all.
pub proof fn folders_are_shared_as_typed(name: String, path: String, remote: Option<String>)
    ensures
        plan_of(Command::ShareAdd { name, path, remote }) matches Ok(
            PlanView::Ask { daemon, request },
        ) && daemon == Daemon::Client && (request matches RequestView::ShareAdd {
            name: n,
            path: p,
            remote: r,
        } && n == name@ && p == path@ && match remote {
            Some(t) => r == Some(t@),
            None => r is None,
        }),
{
}

/// Every other command is put to its daemon as it was typed: those on remotes, shares
/// and connections to the client, those on mounts to the server. A server is started
/// with its options, and the overall status asks both.
pub proof fn commands_ask_what_they_say(t: String, port: u16, auth: Option<String>)
    ensures
        plan_of(Command::ServerStart { port, auth }) matches Ok(
            PlanView::StartServer { port: p, auth: a },
        ) && p == port && match auth {
            Some(s) => a == Some(s@),
            None => a is None,
        },
        plan_of(Command::DaemonStart) matches Ok(PlanView::StartDaemon),
        plan_of(Command::Status) matches Ok(PlanView::AskBoth),
        plan_of(Command::ServerStop) == Ok::<PlanView, ErrorView>(
            PlanView::Ask { daemon: Daemon::Server, request: RequestView::Shutdown },
        ),
        plan_of(Command::ServerStatus) == Ok::<PlanView, ErrorView>(
            PlanView::Ask { daemon: Daemon::Server, request: RequestView::Status },
        ),
        plan_of(Command::Mounts) == Ok::<PlanView, ErrorView>(
            PlanView::Ask { daemon: Daemon::Server, request: RequestView::MountList },
        ),
        plan_of(Command::MountStats { share_name: t }) == Ok::<PlanView, ErrorView>(
            PlanView::Ask {
                daemon: Daemon::Server,
                request: RequestView::MountStats { share_name: t@ },
            },
        ),
        plan_of(Command::DaemonStop) == Ok::<PlanView, ErrorView>(
            PlanView::Ask { daemon: Daemon::Client, request: RequestView::Shutdown },
        ),
        plan_of(Command::RemoteRemove { name: t }) == Ok::<PlanView, ErrorView>(
            PlanView::Ask {
                daemon: Daemon::Client,
                request: RequestView::RemoteRemove { name: t@ },
            },
        ),
        plan_of(Command::RemoteList) == Ok::<PlanView, ErrorView>(
            PlanView::Ask { daemon: Daemon::Client, request: RequestView::RemoteList },
        ),
        plan_of(Command::Connect { remote: t }) == Ok::<PlanView, ErrorView>(
            PlanView::Ask { daemon: Daemon::Client, request: RequestView::Connect { remote: t@ } },
        ),
        plan_of(Command::Disconnect { remote: t }) == Ok::<PlanView, ErrorView>(
            PlanView::Ask {
                daemon: Daemon::Client,
                request: RequestView::Disconnect { remote: t@ },
            },
        ),
        plan_of(Command::ShareRemove { name: t }) == Ok::<PlanView, ErrorView>(
            PlanView::Ask {
                daemon: Daemon::Client,
                request: RequestView::ShareRemove { name: t@ },
            },
        ),
        plan_of(Command::ShareList) == Ok::<PlanView, ErrorView>(
            PlanView::Ask { daemon: Daemon::Client, request: RequestView::ShareList },
        ),
{
}

/// Every remote has a row of its own, in order, below the head: its name, its host and
/// port, and its status.
pub proof fn each_remote_has_its_row(remotes: Seq<RemoteInfoView>, speed: Seq<char>, i: int)
    requires
        0 <= i < remotes.len(),
    ensures
        ({
            let lines = response_lines(ResponseView::RemoteList { remotes }, speed);
            let r = remotes[i];
            &&& lines.len() == remotes.len() + 1
            &&& !lines[0].error && !lines[i + 1].error
            &&& lines[0].text == padded("NAME"@, 15) + " "@ + padded("HOST"@, 30) + " "@
                + "STATUS"@
            &&& lines[i + 1].text == padded(r.name, 15) + " "@ + padded(
                r.host + ":"@ + decimal(r.port as nat),
                30,
            ) + " "@ + r.status
        }),
{
}

/// Every share has a row of its own, in order, below the head: its name, its path, the
/// remotes that it is for, with commas between them or "all" where there are none,
/// and its status.
pub proof fn each_share_has_its_row(shares: Seq<ShareInfoView>, speed: Seq<char>, i: int)
    requires
        0 <= i < shares.len(),
    ensures
        ({
            let lines = response_lines(ResponseView::ShareList { shares }, speed);
            let s = shares[i];
            &&& lines.len() == shares.len() + 1
            &&& !lines[0].error && !lines[i + 1].error
            &&& lines[0].text == padded("NAME"@, 15) + " "@ + padded("PATH"@, 30) + " "@ + padded(
                "REMOTES"@,
                15,
            ) + " "@ + "STATUS"@
            &&& s.remotes.len() == 0 ==> lines[i + 1].text == padded(s.name, 15) + " "@ + padded(
                s.path,
                30,
            ) + " "@ + padded("all"@, 15) + " "@ + s.status
            &&& s.remotes.len() > 0 ==> lines[i + 1].text == padded(s.name, 15) + " "@ + padded(
                s.path,
                30,
            ) + " "@ + padded(joined(s.remotes, ", "@), 15) + " "@ + s.status
        }),
{
}

/// Every mount has a row of its own, in order, below the head: its client, its share,
/// where it is, the size of its cache, and its status.
pub proof fn each_mount_has_its_row(mounts: Seq<MountInfoView>, speed: Seq<char>, i: int)
    requires
        0 <= i < mounts.len(),
    ensures
        ({
            let lines = response_lines(ResponseView::MountList { mounts }, speed);
            let m = mounts[i];
            &&& lines.len() == mounts.len() + 1
            &&& !lines[0].error && !lines[i + 1].error
            &&& lines[0].text == padded("CLIENT"@, 15) + " "@ + padded("SHARE"@, 15) + " "@
                + padded("LOCAL PATH"@, 30) + " "@ + padded("CACHE"@, 10) + " "@ + "STATUS"@
            &&& lines[i + 1].text == padded(m.client_name, 15) + " "@ + padded(m.share_name, 15)
                + " "@ + padded(m.mount_point, 30) + " "@ + padded(m.cache_size, 10) + " "@
                + m.status
        }),
{
}

/// Of an empty list one line says so.
pub proof fn empty_lists_are_told(speed: Seq<char>)
    ensures
        ({
            let remotes = response_lines(
                ResponseView::RemoteList { remotes: Seq::empty() },
                speed,
            );
            let shares = response_lines(ResponseView::ShareList { shares: Seq::empty() }, speed);
            let mounts = response_lines(ResponseView::MountList { mounts: Seq::empty() }, speed);
            &&& remotes.len() == 1 && remotes[0].text == "No remotes configured."@
            &&& shares.len() == 1 && shares[0].text == "No shares configured."@
            &&& mounts.len() == 1 && mounts[0].text == "No mounts active."@
            &&& !remotes[0].error && !shares[0].error && !mounts[0].error
        }),
{
}

/// An error is shown as an error, with its message. Everything else is not: that a
/// request is done, the status of a daemon, and the figures of a mount, each with its
/// name and in its own line.
pub proof fn answers_are_shown(
    message: Seq<char>,
    role: Seq<char>,
    running: bool,
    details: Seq<char>,
    speed: Seq<char>,
)
    ensures
        ({
            let done = response_lines(ResponseView::Done, speed);
            let error = response_lines(ResponseView::Error { message }, speed);
            let status = response_lines(ResponseView::Status { role, running, details }, speed);
            &&& done.len() == 1 && done[0].text == "OK"@ && !done[0].error
            &&& error.len() == 1 && error[0].text == "Error: "@ + message && error[0].error
            &&& status.len() == 3
            &&& status[0].text == "  Role: "@ + role && !status[0].error
            &&& running ==> status[1].text == "  Status: "@ + "running"@
            &&& !running ==> status[1].text == "  Status: "@ + "stopped"@
            &&& !status[1].error
            &&& status[2].text == "  "@ + details && !status[2].error
        }),
{
}

/// Each figure of a mount is shown in a line of its own.
pub proof fn figures_are_shown(
    share_name: Seq<char>,
    cache_size_bytes: u64,
    cached_files: u64,
    bytes_transferred: u64,
    transfer_speed_bits: u64,
    speed: Seq<char>,
)
    ensures
        ({
            let lines = response_lines(
                ResponseView::MountStats {
                    share_name,
                    cache_size_bytes,
                    cached_files,
                    bytes_transferred,
                    transfer_speed_bits,
                },
                speed,
            );
            &&& lines.len() == 5
            &&& lines[0].text == "Mount stats for '"@ + share_name + "':"@
            &&& lines[1].text == "  Cache size: "@ + decimal(cache_size_bytes as nat) + " bytes"@
            &&& lines[2].text == "  Cached files: "@ + decimal(cached_files as nat)
            &&& lines[3].text == "  Bytes transferred: "@ + decimal(bytes_transferred as nat)
            &&& lines[4].text == "  Transfer speed: "@ + speed + " B/s"@
            &&& forall|i: int| 0 <= i < 5 ==> !(#[trigger] lines[i]).error
        }),
{
}

/// The overall status has the client's answer and then the server's, each below its
/// title, with an empty line between them. Of a daemon that does not answer it says
/// that it is not running.
pub proof fn the_overall_status_has_both(client: Seq<LineView>, server: Seq<LineView>)
    ensures
        ({
            let both = status_lines(Some(client), Some(server));
            let n = client.len() as int;
            &&& both.len() == client.len() + server.len() + 3
            &&& both[0].text == "Client daemon"@ + ":"@ && !both[0].error
            &&& both.subrange(1, n + 1) == client
            &&& both[n + 1].text == ""@ && !both[n + 1].error
            &&& both[n + 2].text == "Server daemon"@ + ":"@ && !both[n + 2].error
            &&& both.skip(n + 3) == server
        }),
        ({
            let none = status_lines(None, None);
            &&& none.len() == 3
            &&& none[0].text == "Client daemon"@ + ": not running"@ && !none[0].error
            &&& none[1].text == ""@ && !none[1].error
            &&& none[2].text == "Server daemon"@ + ": not running"@ && !none[2].error
        }),
        status_lines(Some(client), None) == status_lines(Some(client), Some(server)).take(
            client.len() as int + 2,
        ) + status_lines(None, None).skip(2),
        status_lines(None, Some(server)) == status_lines(None, None).take(2) + status_lines(
            Some(client),
            Some(server),
        ).skip(client.len() as int + 2),
{
    let both = status_lines(Some(client), Some(server));
    let n = client.len() as int;
    assert(both.subrange(1, n + 1) =~= client);
    assert(both.skip(n + 3) =~= server);
    assert(status_lines(Some(client), None) =~= both.take(n + 2) + status_lines(None, None).skip(
        2,
    ));
    assert(status_lines(None, Some(server)) =~= status_lines(None, None).take(2) + both.skip(
        n + 2,
    ));
}

/// The contents of a plan and of lines leave nothing out.
pub proof fn plans_are_viewed_whole(p: Plan, lines: Seq<Line>, i: int)
    ensures
        match p {
            Plan::StartServer { port, auth } => p@ matches PlanView::StartServer {
                port: q,
                auth: a,
            } && q == port && match (a, auth) {
                (Some(s), Some(t)) => s == t@,
                (None, None) => true,
                _ => false,
            },
            Plan::StartDaemon => p@ is StartDaemon,
            Plan::Ask { daemon, request } => p@ == (PlanView::Ask { daemon, request: request@ }),
            Plan::AskBoth => p@ is AskBoth,
        },
        line_views(lines).len() == lines.len(),
        0 <= i < lines.len() ==> line_views(lines)[i].text == lines[i].text@
            && line_views(lines)[i].error == lines[i].error,
{
}

/// Lines that may be missing are there or not.
pub proof fn missing_lines_are_missing(lines: Vec<Line>)
    ensures
        opt_lines(Some(lines)) == Some(line_views(lines@)),
        opt_lines(None) is None,
{
}

} // verus!
