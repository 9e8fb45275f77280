//! rclone's remote control: where it is, and what its answers say.

use crate::text::{decimal, decimal_text};
use crate::types::{ErrorView, LazyMountError, MountStats};
use vstd::prelude::*;

verus! {

// ---------------------------------------------------------------------------
// Addresses
// ---------------------------------------------------------------------------

/// The remote control of one rclone process.
#[derive(Debug, PartialEq)]
pub struct RcloneRcClient {
    base_url: String,
}

impl View for RcloneRcClient {
    type V = Seq<char>;

    closed spec fn view(&self) -> Seq<char> {
        self.base_url@
    }
}

impl Clone for RcloneRcClient {
    fn clone(&self) -> (copy: Self)
        ensures
            copy@ == self@,
    {
        RcloneRcClient { base_url: self.base_url.clone() }
    }
}

/// The address of the remote control on a port of this machine.
pub open spec fn control_url(port: u16) -> Seq<char> {
    "http://127.0.0.1:"@ + decimal(port as nat)
}

impl RcloneRcClient {
    /// The remote control on a port of this machine.
    pub fn new(port: u16) -> (client: Self)
        ensures
            client@ == control_url(port),
    {
        let mut base_url = "http://127.0.0.1:".to_string();
        base_url.append(decimal_text(port as u64).as_str());
        RcloneRcClient { base_url }
    }

    fn url(&self, command: &str) -> (t: String)
        ensures
            t@ == self@ + command@,
    {
        let mut t = self.base_url.clone();
        t.append(command);
        t
    }

    /// The address of the command that does nothing but answer.
    pub fn health_check_url(&self) -> (t: String)
        ensures
            t@ == self@ + "/rc/noop"@,
    {
        self.url("/rc/noop")
    }

    /// The address of the command for figures of the cache.
    pub fn vfs_stats_url(&self) -> (t: String)
        ensures
            t@ == self@ + "/vfs/stats"@,
    {
        self.url("/vfs/stats")
    }

    /// The address of the command for figures of transfers.
    pub fn transfer_stats_url(&self) -> (t: String)
        ensures
            t@ == self@ + "/core/stats"@,
    {
        self.url("/core/stats")
    }

    /// The address of the command that evicts cached files.
    pub fn forget_cache_url(&self) -> (t: String)
        ensures
            t@ == self@ + "/vfs/forget"@,
    {
        self.url("/vfs/forget")
    }

    /// The address of the command that unmounts.
    pub fn unmount_url(&self) -> (t: String)
        ensures
            t@ == self@ + "/mount/unmount"@,
    {
        self.url("/mount/unmount")
    }
}

/// The error of a command that failed, with the reason.
pub open spec fn failed(what: Seq<char>, reason: Seq<char>) -> ErrorView {
    ErrorView::RcloneRc(what + " failed: "@ + reason)
}

/// The error of a command that failed, with the reason.
pub fn rc_error(what: &str, reason: &str) -> (e: LazyMountError)
    ensures
        e@ == failed(what@, reason@),
{
    let mut t = what.to_string();
    t.append(" failed: ");
    t.append(reason);
    LazyMountError::RcloneRc(t)
}

/// The reason for an answer that cannot be read.
pub const UNREADABLE: &'static str = "error decoding response body";

// ---------------------------------------------------------------------------
// Answers
// ---------------------------------------------------------------------------

/// Whether `serde_json::from_slice` reads these bytes as a value.
pub uninterp spec fn json_readable(body: Seq<u8>) -> bool;

/// The number that `serde_json` finds in these bytes under a key of an object
/// under a key of the whole.
pub uninterp spec fn json_inner_number(
    body: Seq<u8>,
    object: Seq<char>,
    key: Seq<char>,
) -> Option<u64>;

/// The number that `serde_json` finds in these bytes under a key of the whole.
pub uninterp spec fn json_number(body: Seq<u8>, key: Seq<char>) -> Option<u64>;

/// The bit pattern of the double that `serde_json` finds in these bytes under a
/// key of the whole.
pub uninterp spec fn json_double_bits(body: Seq<u8>, key: Seq<char>) -> Option<u64>;

/// Reads bytes as a JSON value with `serde_json::from_slice`, and says whether
/// that succeeded. The outcome depends on the bytes alone.
#[verifier::external_body]
fn is_json(body: &Vec<u8>) -> (readable: bool)
    ensures
        readable == json_readable(body@),
{
    serde_json::from_slice::<serde_json::Value>(body).is_ok()
}

/// Reads bytes as a JSON value with `serde_json::from_slice` and looks up a key
/// of an inner object, with `serde_json::Value`'s index, as an unsigned integer,
/// with its `as_u64`. Nothing is found in what cannot be read, is missing or is no such integer.
/// The outcome depends on the bytes and the keys alone.
#[verifier::external_body]
fn inner_number(body: &Vec<u8>, object: &str, key: &str) -> (n: Option<u64>)
    ensures
        n == json_inner_number(body@, object@, key@),
{
    serde_json::from_slice::<serde_json::Value>(body).ok().and_then(|v| v[object][key].as_u64())
}

/// Reads bytes as a JSON value with `serde_json::from_slice` and looks up a key
/// of it, with `serde_json::Value`'s index, as an unsigned integer, with its
/// `as_u64`. Nothing is found in what cannot be read, is missing or is no such
/// integer. The outcome depends on the bytes and the key alone.
#[verifier::external_body]
fn number(body: &Vec<u8>, key: &str) -> (n: Option<u64>)
    ensures
        n == json_number(body@, key@),
{
    serde_json::from_slice::<serde_json::Value>(body).ok().and_then(|v| v[key].as_u64())
}

/// Reads bytes as a JSON value with `serde_json::from_slice` and looks up a key
/// of it, with `serde_json::Value`'s index, as a double, with its `as_f64`. The
/// double is handed on as its bit pattern. Nothing is found in what cannot be
/// read, is missing or is no number. The outcome depends on the bytes and the key
/// alone.
#[verifier::external_body]
fn double_bits(body: &Vec<u8>, key: &str) -> (bits: Option<u64>)
    ensures
        bits == json_double_bits(body@, key@),
{
    serde_json::from_slice::<serde_json::Value>(body).ok().and_then(
        |v| v[key].as_f64().map(|x| x.to_bits()),
    )
}

/// A number that may be missing, which stands for none.
pub open spec fn or_zero(n: Option<u64>) -> u64 {
    match n {
        Some(n) => n,
        None => 0,
    }
}

fn zero_if_missing(n: Option<u64>) -> (m: u64)
    ensures
        m == or_zero(n),
{
    match n {
        Some(n) => n,
        None => 0,
    }
}

/// The figures of a cache: its size, and the files that are being uploaded or
/// wait for it.
pub open spec fn cache_stats(bytes_used: u64, uploading: u64, queued: u64) -> MountStats {
    MountStats {
        cache_size_bytes: bytes_used,
        cached_files: (uploading + queued) as u64,
        bytes_transferred: 0,
        transfer_speed_bits: 0,
    }
}

/// The figures of a cache from the numbers that an answer holds. The number of
/// files is a machine integer.
pub fn vfs_stats_of(bytes_used: Option<u64>, uploading: Option<u64>, queued: Option<u64>) -> (stats:
    MountStats)
    requires
        or_zero(uploading) + or_zero(queued) <= u64::MAX,
    ensures
        stats == cache_stats(or_zero(bytes_used), or_zero(uploading), or_zero(queued)),
{
    MountStats {
        cache_size_bytes: zero_if_missing(bytes_used),
        cached_files: zero_if_missing(uploading) + zero_if_missing(queued),
        bytes_transferred: 0,
        transfer_speed_bits: 0,
    }
}

/// The figures of a cache from the answer to `vfs/stats`. There are none where
/// the number of files is no machine integer.
pub fn vfs_stats(body: &Vec<u8>) -> (r: Option<Result<MountStats, LazyMountError>>)
    ensures
        ({
            let used = or_zero(json_inner_number(body@, "diskCache"@, "bytesUsed"@));
            let uploading = or_zero(
                json_inner_number(body@, "diskCache"@, "uploadsInProgress"@),
            );
            let queued = or_zero(json_inner_number(body@, "diskCache"@, "uploadsQueued"@));
            match r {
                Some(Ok(stats)) => {
                    &&& json_readable(body@)
                    &&& uploading + queued <= u64::MAX
                    &&& stats == cache_stats(used, uploading, queued)
                },
                Some(Err(e)) => {
                    &&& !json_readable(body@)
                    &&& e@ == failed("vfs/stats parse"@, UNREADABLE@)
                },
                None => json_readable(body@) && uploading + queued > u64::MAX,
            }
        }),
{
    if !is_json(body) {
        return Some(Err(rc_error("vfs/stats parse", UNREADABLE)));
    }
    let used = inner_number(body, "diskCache", "bytesUsed");
    let uploading = inner_number(body, "diskCache", "uploadsInProgress");
    let queued = inner_number(body, "diskCache", "uploadsQueued");
    if zero_if_missing(queued) > u64::MAX - zero_if_missing(uploading) {
        return None;
    }
    Some(Ok(vfs_stats_of(used, uploading, queued)))
}

/// The figures of transfers: the bytes, and the speed.
pub open spec fn transfer_figures(bytes: u64, speed_bits: u64) -> MountStats {
    MountStats {
        cache_size_bytes: 0,
        cached_files: 0,
        bytes_transferred: bytes,
        transfer_speed_bits: speed_bits,
    }
}

/// The figures of transfers from the numbers that an answer holds.
pub fn transfer_stats_of(bytes: Option<u64>, speed_bits: Option<u64>) -> (stats: MountStats)
    ensures
        stats == transfer_figures(or_zero(bytes), or_zero(speed_bits)),
{
    MountStats {
        cache_size_bytes: 0,
        cached_files: 0,
        bytes_transferred: zero_if_missing(bytes),
        transfer_speed_bits: zero_if_missing(speed_bits),
    }
}

/// The figures of transfers from the answer to `core/stats`.
pub fn transfer_stats(body: &Vec<u8>) -> (r: Result<MountStats, LazyMountError>)
    ensures
        match r {
            Ok(stats) => {
                &&& json_readable(body@)
                &&& stats == transfer_figures(
                    or_zero(json_number(body@, "bytes"@)),
                    or_zero(json_double_bits(body@, "speed"@)),
                )
            },
            Err(e) => {
                &&& !json_readable(body@)
                &&& e@ == failed("core/stats parse"@, UNREADABLE@)
            },
        },
{
    if !is_json(body) {
        return Err(rc_error("core/stats parse", UNREADABLE));
    }
    Ok(transfer_stats_of(number(body, "bytes"), double_bits(body, "speed")))
}

/// The figures of a mount: those of its cache, and those of its transfers.
pub fn mount_stats(vfs: MountStats, transfer: MountStats) -> (s: MountStats)
    ensures
        s.cache_size_bytes == vfs.cache_size_bytes,
        s.cached_files == vfs.cached_files,
        s.bytes_transferred == transfer.bytes_transferred,
        s.transfer_speed_bits == transfer.transfer_speed_bits,
{
    MountStats {
        cache_size_bytes: vfs.cache_size_bytes,
        cached_files: vfs.cached_files,
        bytes_transferred: transfer.bytes_transferred,
        transfer_speed_bits: transfer.transfer_speed_bits,
    }
}

// ---------------------------------------------------------------------------
// Laws
// ---------------------------------------------------------------------------

/// The remote control is asked on this machine, at its port.
pub proof fn control_is_on_this_machine(port: u16)
    ensures
        control_url(port) == "http://127.0.0.1:"@ + decimal(port as nat),
{
}

/// A figure that an answer has is taken as it is, and one that it has not counts as
/// none: the size of the cache, the files that are uploaded or wait for it together,
/// the bytes that were transferred, and the speed.
pub proof fn figures_are_taken_as_they_are(
    used: Option<u64>,
    uploading: Option<u64>,
    queued: Option<u64>,
    n: u64,
)
    requires
        or_zero(uploading) + or_zero(queued) <= u64::MAX,
    ensures
        or_zero(Some(n)) == n,
        or_zero(None) == 0,
        ({
            let cache = cache_stats(or_zero(used), or_zero(uploading), or_zero(queued));
            &&& used matches Some(u) ==> cache.cache_size_bytes == u
            &&& used is None ==> cache.cache_size_bytes == 0
            &&& (uploading, queued) matches (Some(a), Some(b)) ==> cache.cached_files == a + b
            &&& (uploading, queued) matches (Some(a), None) ==> cache.cached_files == a
            &&& (uploading, queued) matches (None, Some(b)) ==> cache.cached_files == b
            &&& uploading is None && queued is None ==> cache.cached_files == 0
            &&& cache.bytes_transferred == 0
            &&& cache.transfer_speed_bits == 0
        }),
        transfer_figures(or_zero(used), n).bytes_transferred == or_zero(used),
        transfer_figures(or_zero(used), n).transfer_speed_bits == n,
        transfer_figures(or_zero(used), n).cache_size_bytes == 0,
        transfer_figures(or_zero(used), n).cached_files == 0,
{
}

/// The error of a command says which one failed, and why.
pub proof fn failures_say_why(what: Seq<char>, reason: Seq<char>)
    ensures
        failed(what, reason).message() == "rclone RC error: "@ + (what + " failed: "@ + reason),
{
}

/// An answer that cannot be read is told as such.
pub proof fn unreadable_answers_are_told()
    ensures
        UNREADABLE@ == "error decoding response body"@,
{
}

} // verus!
