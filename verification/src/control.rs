//! The control socket: where it is, and how messages are framed on it.

use crate::config::{application_dir, data_dir, file_in, no_directory, APPLICATION};
use crate::paths::{is_verbatim, is_within, joined, path_text};
use crate::text::{
    decimal, lemma_decimal_digits, parse_port, port_of, port_of_decimal, quoted, trim,
    trim_end, trim_start, trimmed, trimming_takes_all_white_space_at_the_ends, white_space,
};
use crate::types::{ErrorView, LazyMountError};
use std::path::PathBuf;
use vstd::prelude::*;

verus! {

/// The file by which a client is reached: a socket on Unix, and elsewhere a file
/// that holds a port.
pub open spec fn client_socket_file(unix: bool) -> Seq<char> {
    if unix {
        "lazymount.sock"@
    } else {
        "lazymount.port"@
    }
}

/// The file by which a server is reached.
pub open spec fn server_socket_file(unix: bool) -> Seq<char> {
    if unix {
        "lazymount-server.sock"@
    } else {
        "lazymount-server.port"@
    }
}

/// The path of the client's control socket (Unix) or port file.
pub fn client_socket_path(unix: bool) -> (r: Result<PathBuf, LazyMountError>)
    ensures
        match r {
            Ok(t) => exists|d: Seq<char>|
                application_dir(d, APPLICATION@, "data"@) && #[trigger] joined(
                    d,
                    client_socket_file(unix),
                    path_text(t),
                ),
            Err(e) => e@ == no_directory("data"@),
        },
{
    let file = if unix {
        "lazymount.sock"
    } else {
        "lazymount.port"
    };
    assert(file@ == client_socket_file(unix));
    file_in(data_dir(), file)
}

/// The path of the server's control socket (Unix) or port file.
pub fn server_socket_path(unix: bool) -> (r: Result<PathBuf, LazyMountError>)
    ensures
        match r {
            Ok(t) => exists|d: Seq<char>|
                application_dir(d, APPLICATION@, "data"@) && #[trigger] joined(
                    d,
                    server_socket_file(unix),
                    path_text(t),
                ),
            Err(e) => e@ == no_directory("data"@),
        },
{
    let file = if unix {
        "lazymount-server.sock"
    } else {
        "lazymount-server.port"
    };
    assert(file@ == server_socket_file(unix));
    file_in(data_dir(), file)
}

// ---------------------------------------------------------------------------
// Messages
// ---------------------------------------------------------------------------

/// A message on the socket: a line of its own.
pub open spec fn line_of(message: Seq<char>) -> Seq<char> {
    message + "\n"@
}

/// Frames a message.
pub fn frame(message: &str) -> (line: String)
    ensures
        line@ == line_of(message@),
{
    let mut line = message.to_string();
    line.append("\n");
    line
}

/// The message that a line holds, unless it is blank.
pub open spec fn message_in(line: Seq<char>) -> Option<Seq<char>> {
    if trimmed(line).len() == 0 {
        None
    } else {
        Some(trimmed(line))
    }
}

/// Takes the message out of a line. A blank line holds none.
pub fn unframe(line: &str) -> (message: Option<String>)
    ensures
        match (message, message_in(line@)) {
            (Some(m), Some(v)) => m@ == v,
            (None, None) => true,
            _ => false,
        },
{
    let message = trim(line);
    if message.as_str().unicode_len() == 0 {
        None
    } else {
        Some(message)
    }
}

/// The error of something that went wrong on the socket.
pub fn control_error(what: &str, reason: &str) -> (e: LazyMountError)
    ensures
        e@ == ErrorView::Control(what@ + ": "@ + reason@),
{
    LazyMountError::Control(quoted(what, ": ", reason))
}

/// The error of a daemon that cannot be reached.
pub fn connect_error(place: &str, reason: &str) -> (e: LazyMountError)
    ensures
        e@ == ErrorView::Control(
            "failed to connect to daemon "@ + place@ + ": "@ + reason@ + ". Is the daemon running?"@,
        ),
{
    let mut t = quoted("failed to connect to daemon ", place, ": ");
    t.append(reason);
    t.append(". Is the daemon running?");
    LazyMountError::Control(t)
}

/// The port that a port file holds, if it holds one.
pub fn port_in_file(text: &str) -> (port: Option<u16>)
    ensures
        port == port_of(trimmed(text@)),
{
    parse_port(trim(text).as_str())
}

// ---------------------------------------------------------------------------
// Laws
// ---------------------------------------------------------------------------

/// In one directory, the two daemons are reached by different files.
pub proof fn sockets_differ(dir: Seq<char>, unix: bool, client: Seq<char>, server: Seq<char>)
    requires
        !is_verbatim(dir),
        joined(dir, client_socket_file(unix), client),
        joined(dir, server_socket_file(unix), server),
    ensures
        client != server,
{
    reveal_strlit("lazymount.sock");
    reveal_strlit("lazymount.port");
    reveal_strlit("lazymount-server.sock");
    reveal_strlit("lazymount-server.port");
    reveal_strlit("/");
    reveal_strlit("\\");
    assert(is_within(client_socket_file(unix)));
    assert(is_within(server_socket_file(unix)));
    assert(client.len() <= dir.len() + 15);
    assert(server.len() >= dir.len() + 21);
}

proof fn lemma_trim_line(message: Seq<char>)
    ensures
        trimmed(line_of(message)) == trimmed(message),
    decreases message.len(),
{
    reveal_strlit("\n");
    let line = line_of(message);
    assert(white_space('\n'));
    if message.len() == 0 {
        assert(line =~= seq!['\n']);
        assert(line.skip(1) =~= Seq::<char>::empty());
        assert(message =~= Seq::<char>::empty());
        assert(trim_start(line) == trim_start(line.skip(1)));
    } else if white_space(message[0]) {
        lemma_trim_line(message.skip(1));
        assert(line.skip(1) =~= line_of(message.skip(1)));
    } else {
        assert(line.drop_last() =~= message);
        assert(trim_end(line) == trim_end(message));
    }
}

/// A message that neither starts nor ends with white space is read back from its
/// line as it was.
pub proof fn message_reads_back(message: Seq<char>)
    requires
        message.len() > 0,
        !white_space(message[0]),
        !white_space(message.last()),
    ensures
        message_in(line_of(message)) == Some(message),
{
    lemma_trim_line(message);
}

/// What a line holds does not depend on its end.
pub proof fn line_end_is_no_matter(message: Seq<char>)
    ensures
        message_in(line_of(message)) == message_in(message),
{
    lemma_trim_line(message);
}

/// A port is read back from a file that holds it in decimal.
pub proof fn port_file_reads_back(port: u16)
    ensures
        port_of(trimmed(decimal(port as nat))) == Some(port),
{
    let s = decimal(port as nat);
    lemma_decimal_digits(port as nat);
    assert('0' <= s[0] <= '9');
    assert('0' <= s[s.len() - 1] <= '9');
    assert(trimmed(s) == s);
    port_of_decimal(port);
}

/// A message is framed by an end of line and nothing else.
pub proof fn a_frame_adds_an_end_of_line(message: Seq<char>)
    ensures
        line_of(message).len() == message.len() + 1,
        line_of(message).last() == '\n',
        line_of(message).drop_last() == message,
{
    reveal_strlit("\n");
    assert(line_of(message).drop_last() =~= message);
}

/// A line holds what is left of it without white space at its ends, and no message
/// where nothing is left.
pub proof fn a_line_holds_what_is_not_white(line: Seq<char>)
    ensures
        match message_in(line) {
            Some(m) => m.len() > 0 && !white_space(m[0]) && !white_space(m.last()) && exists|
                a: int,
                b: int,
            |
                {
                    &&& 0 <= a <= b <= line.len()
                    &&& m == #[trigger] line.subrange(a, b)
                    &&& forall|i: int|
                        0 <= i < a || b <= i < line.len() ==> white_space(#[trigger] line[i])
                },
            None => forall|i: int| 0 <= i < line.len() ==> white_space(#[trigger] line[i]),
        },
{
    trimming_takes_all_white_space_at_the_ends(line);
    let (a, b) = choose|a: int, b: int|
        {
            &&& 0 <= a <= b <= line.len()
            &&& trimmed(line) == #[trigger] line.subrange(a, b)
            &&& forall|i: int| 0 <= i < a || b <= i < line.len() ==> white_space(#[trigger] line[i])
            &&& a < b ==> !white_space(line[a]) && !white_space(line[b - 1])
        };
    assert(trimmed(line) == line.subrange(a, b));
}

/// The daemons are reached by the files that they are documented to use.
pub proof fn sockets_are_named()
    ensures
        client_socket_file(true) == "lazymount.sock"@,
        client_socket_file(false) == "lazymount.port"@,
        server_socket_file(true) == "lazymount-server.sock"@,
        server_socket_file(false) == "lazymount-server.port"@,
{
}

} // verus!
