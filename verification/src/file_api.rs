//! What the file endpoint decides before it hands a stored artifact out.

use crate::result::{CqResult, Nothing};
use crate::text::{blank, chars_of, is_blank, joined, matches_at, occurs_at};
use vstd::prelude::*;

verus! {

/// What the file system said of the path that was asked for.
pub struct Resolved {
    /// The canonical path, or nothing where the file system has none.
    pub path: Option<String>,
    /// Whether the canonical path is a regular file.
    pub is_file: bool,
}

/// `path` is `root`, or continues `root` after a separator. Both are taken
/// as canonical paths and compared as texts, with `/` between their parts.
/// Below the empty root lies nothing but itself.
pub open spec fn below_root(path: Seq<char>, root: Seq<char>) -> bool {
    ||| path == root
    ||| {
        &&& 0 < root.len() < path.len()
        &&& occurs_at(path, root, 0)
        &&& (path[root.len() as int] == '/' || root.last() == '/')
    }
}

/// The result of checking a path: the canonical path, or what is wrong with
/// it. A path that cannot be resolved and a path that leaves the root
/// directory get the same answer, which says nothing of what is there. A path
/// below the root that is no file is told apart.
pub open spec fn validated(resolved: Resolved, root: Seq<char>) -> Result<Seq<char>, Seq<char>> {
    match resolved.path {
        Some(path) => if !below_root(path@, root) {
            Err("Path exceeds allowed directories"@)
        } else if !resolved.is_file {
            Err("Path is not a file"@)
        } else {
            Ok(path@)
        },
        None => Err("Path exceeds allowed directories"@),
    }
}

/// The texts of a result.
pub open spec fn outcome_texts(outcome: Result<String, String>) -> Result<Seq<char>, Seq<char>> {
    match outcome {
        Ok(path) => Ok(path@),
        Err(message) => Err(message@),
    }
}

/// Whether the canonical path `path` is the root directory `root` or lies
/// below it.
pub fn is_below_root(path: &str, root: &str) -> (within: bool)
    ensures
        within == below_root(path@, root@),
{
    let path_chars: Vec<char> = chars_of(path);
    let root_chars: Vec<char> = chars_of(root);
    if !matches_at(&path_chars, &root_chars, 0) {
        assert(path@ != root@) by {
            if path@ == root@ {
                assert(path@.subrange(0, root@.len() as int) =~= root@);
            }
        }
        return false;
    }
    let n: usize = root_chars.len();
    if path_chars.len() == n {
        assert(path@.subrange(0, n as int) =~= path@);
        return true;
    }
    n > 0 && (path_chars[n] == '/' || root_chars[n - 1] == '/')
}

/// Checks that the path asked for may be handed out from below the root
/// directory `root_dir`.
pub fn validate_path(resolved: Resolved, root_dir: &str) -> (outcome: Result<String, String>)
    ensures
        outcome_texts(outcome) == validated(resolved, root_dir@),
{
    match resolved.path {
        None => Err("Path exceeds allowed directories".to_owned()),
        Some(path) => {
            if !is_below_root(path.as_str(), root_dir) {
                Err("Path exceeds allowed directories".to_owned())
            } else if !resolved.is_file {
                Err("Path is not a file".to_owned())
            } else {
                Ok(path)
            }
        },
    }
}

/// A request that leaves the root directory is answered alike, whatever the
/// file system holds outside the root: whether the path asked for resolves
/// to something outside or to nothing at all, and whatever is found there.
pub proof fn lemma_outside_root_is_answered_alike(
    resolved: Resolved,
    other: Resolved,
    root: Seq<char>,
)
    requires
        resolved.path matches Some(path) ==> !below_root(path@, root),
        other.path matches Some(path) ==> !below_root(path@, root),
    ensures
        validated(resolved, root) == validated(other, root),
        validated(resolved, root) == Err::<Seq<char>, Seq<char>>(
            "Path exceeds allowed directories"@,
        ),
{
}

/// Why a stored file was not handed out.
#[derive(Debug, PartialEq, Eq)]
pub enum FileFailure {
    /// The request names no file.
    EmptyName,
    /// The root directory cannot be resolved; the text says why.
    InvalidRoot(String),
    /// The path was refused; the text says why.
    Refused(String),
    /// The file cannot be described; the text says why.
    NoMetadata(String),
    /// The file cannot be opened; the text says why.
    NotOpened(String),
}

/// The HTTP status under which a failure is reported: 500 for a root
/// directory that cannot be resolved, 404 for a file that cannot be described
/// or opened, and 400 for a request that is refused.
pub open spec fn failure_status(failure: FileFailure) -> u16 {
    match failure {
        FileFailure::EmptyName => 400,
        FileFailure::InvalidRoot(_) => 500,
        FileFailure::Refused(_) => 400,
        FileFailure::NoMetadata(_) => 404,
        FileFailure::NotOpened(_) => 404,
    }
}

/// What a failure is reported as.
pub open spec fn failure_message(failure: FileFailure) -> Seq<char> {
    match failure {
        FileFailure::EmptyName => "file_name is empty"@,
        FileFailure::InvalidRoot(reason) => "Invalid FILE_ROOT: "@ + reason@,
        FileFailure::Refused(reason) => reason@,
        FileFailure::NoMetadata(reason) => "Failed to read metadata: "@ + reason@,
        FileFailure::NotOpened(reason) => "Failed to open file: "@ + reason@,
    }
}

/// Refuses a request that names no file: the failure for a blank name, and
/// nothing for any other.
pub fn refuse_blank_name(file_name: &str) -> (refusal: Option<FileFailure>)
    ensures
        match refusal {
            Some(failure) => blank(file_name@) && failure == FileFailure::EmptyName,
            None => !blank(file_name@),
        },
{
    if is_blank(file_name) {
        Some(FileFailure::EmptyName)
    } else {
        None
    }
}

/// The HTTP status and the reply for a file that is not handed out. The
/// reply has code 500 and no data.
pub fn failure_reply(failure: &FileFailure) -> (reply: (u16, CqResult<Nothing>))
    ensures
        reply.0 == failure_status(*failure),
        reply.1.code == 500,
        reply.1.message@ == failure_message(*failure),
        reply.1.data is None,
{
    match failure {
        FileFailure::EmptyName => (400, CqResult::error(500, "file_name is empty")),
        FileFailure::InvalidRoot(reason) => {
            let message: String = joined("Invalid FILE_ROOT: ", reason.as_str());
            (500, CqResult::error(500, message.as_str()))
        },
        FileFailure::Refused(reason) => (400, CqResult::error(500, reason.as_str())),
        FileFailure::NoMetadata(reason) => {
            let message: String = joined("Failed to read metadata: ", reason.as_str());
            (404, CqResult::error(500, message.as_str()))
        },
        FileFailure::NotOpened(reason) => {
            let message: String = joined("Failed to open file: ", reason.as_str());
            (404, CqResult::error(500, message.as_str()))
        },
    }
}

} // verus!
