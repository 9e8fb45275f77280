//! Paths as the operating system has them.

use std::path::PathBuf;
use vstd::prelude::*;

verus! {

/// `std::path::PathBuf`: a path of this machine, which need not be Unicode text.
#[verifier::external_type_specification]
#[verifier::external_body]
pub struct ExPathBuf(std::path::PathBuf);

/// The text of a path, as `std::path::Path::to_string_lossy` gives it: what is no
/// Unicode text in the path is replaced by U+FFFD. Paths that differ may have the
/// same text, but only where something was replaced.
pub uninterp spec fn path_text(path: PathBuf) -> Seq<char>;

/// `std::path::PathBuf`'s `clone`: the same path.
pub assume_specification[ <PathBuf as Clone>::clone ](path: &PathBuf) -> (copy: PathBuf)
    ensures
        copy == *path,
;

/// Whether a directory is a verbatim one of Windows, which starts with `\\?\`.
pub open spec fn is_verbatim(base: Seq<char>) -> bool {
    "\\\\?\\"@.is_prefix_of(base)
}

/// Whether `rest` is within whatever directory it is joined to, on every system: it
/// starts with no separator and with no drive.
pub open spec fn is_within(rest: Seq<char>) -> bool {
    &&& rest.len() > 0 ==> rest[0] != '/' && rest[0] != '\\'
    &&& rest.len() > 1 ==> rest[1] != ':'
}

/// `rest` below the directory `base`, where `/` alone separates and is the root; an
/// absolute `rest` stands for itself.
pub open spec fn slash_join(base: Seq<char>, rest: Seq<char>) -> Seq<char> {
    if rest.len() > 0 && rest[0] == '/' {
        rest
    } else if base.len() == 0 || base.last() == '/' {
        base + rest
    } else {
        base + "/"@ + rest
    }
}

/// Whether `path` may be `rest` below the directory `base` on Windows: a backslash
/// is between them, unless `base` is empty or ends with a separator or a colon.
/// What has a root or a drive replaces all or the end of `base`. Nothing is said of
/// a verbatim `base`, which is normalized.
pub open spec fn windows_join(base: Seq<char>, rest: Seq<char>, path: Seq<char>) -> bool {
    ||| is_verbatim(base)
    ||| path == base + rest && (base.len() == 0 || base.last() == '/' || base.last() == '\\'
        || base.last() == ':')
    ||| path == base + "\\"@ + rest
    ||| !is_within(rest) && exists|n: int|
        0 <= n <= base.len() && path == #[trigger] base.take(n) + rest
}

/// Whether `path` is the text of `rest` below the directory `base`.
pub open spec fn joined(base: Seq<char>, rest: Seq<char>, path: Seq<char>) -> bool {
    path == slash_join(base, rest) || windows_join(base, rest, path)
}

/// What is within any directory is below the one that it is joined to: the path
/// starts with that directory and ends in what was joined to it.
pub proof fn within_stays_below(base: Seq<char>, rest: Seq<char>, path: Seq<char>)
    requires
        is_within(rest),
        !is_verbatim(base),
        joined(base, rest, path),
    ensures
        base.is_prefix_of(path),
        rest.is_suffix_of(path),
{
    assert(base =~= path.subrange(0, base.len() as int));
    assert(rest =~= path.subrange(path.len() - rest.len(), path.len() as int));
}

/// A path from its text. Calls `std::path::PathBuf::from`, which keeps the text.
#[verifier::external_body]
pub(crate) fn path_from(text: &str) -> (path: PathBuf)
    ensures
        path_text(path) == text@,
{
    PathBuf::from(text)
}

/// `rest` below the directory `base`. Calls `std::path::Path::join`, which goes by the
/// rules of the system and keeps what is no Unicode text. Claimed is what the text
/// of the path is by the rules of Unix or by those of Windows. Which of them hold
/// rests on the machine, and so does which root or drive `rest` may have.
#[verifier::external_body]
pub(crate) fn join_path(base: &PathBuf, rest: &str) -> (path: PathBuf)
    ensures
        joined(path_text(*base), rest@, path_text(path)),
{
    base.join(rest)
}

/// The text of a path. Calls `std::path::Path::to_string_lossy`. The outcome depends
/// on the path alone.
#[verifier::external_body]
pub(crate) fn text_of(path: &PathBuf) -> (text: String)
    ensures
        text@ == path_text(*path),
{
    path.to_string_lossy().into_owned()
}

} // verus!
