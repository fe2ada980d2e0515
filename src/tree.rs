//! The directory tree as the scan sees it: each entry of a listing, as far
//! as it could be read, and the rules that apply to single entries.

use vstd::prelude::*;
use vstd::string::StringExecFns;

verus! {

/// Deepest level, counted from the scan root at 0, at which a directory
/// that is not a project root is still descended into to look for projects.
pub const MAX_DEPTH: u32 = 4;

/// The most projects that a scan reports.
pub const MAX_PROJECTS: usize = 20;

/// A modification time relative to the Unix epoch.
#[derive(Clone, Copy, Debug, PartialEq, Eq, Structural)]
pub enum FileTime {
    /// The time lies before the epoch and has no seconds count.
    BeforeEpoch,
    /// Whole seconds since the epoch.
    SinceEpoch(u64),
}

/// One entry of a directory listing.
pub enum Node {
    /// The listing failed to yield this entry.
    Broken,
    /// The entry's metadata could not be read.
    Unknown { name: String },
    /// Anything that is not a directory; `modified` is `None` where its
    /// modification time could not be read.
    File { name: String, modified: Option<FileTime> },
    /// A directory. `path` is `None` where the path is not valid UTF-8 (such
    /// a directory is passed over); `children` is `None` where it could not
    /// be listed.
    Dir { name: String, path: Option<String>, children: Option<Vec<Node>> },
}

/// The error of a scan: some directory, entry or metadata could not be read.
#[derive(Clone, Copy, Debug, PartialEq, Eq, Structural)]
pub enum ScanError {
    Unreadable,
}

/// The directory names whose contents never count towards freshness.
pub open spec fn excluded(name: Seq<char>) -> bool {
    name == "node_modules"@ || name == "target"@
}

/// The seconds count of a modification time; times before the epoch count
/// as 0.
pub open spec fn stamp(t: FileTime) -> u64 {
    match t {
        FileTime::BeforeEpoch => 0,
        FileTime::SinceEpoch(s) => s,
    }
}

/// The name of an entry, where the listing yielded one.
pub open spec fn name_of(n: Node) -> Option<Seq<char>> {
    match n {
        Node::Broken => None,
        Node::Unknown { name } => Some(name@),
        Node::File { name, .. } => Some(name@),
        Node::Dir { name, .. } => Some(name@),
    }
}

/// The name that marks a directory as a project root.
pub open spec fn git_name() -> Seq<char> {
    ".git"@
}

/// Whether a listing marks its directory as a project root: `None` where
/// reading it fails before a child named `.git` is met.
pub open spec fn git_marked(s: Seq<Node>) -> Option<bool>
    decreases s.len(),
{
    if s.len() == 0 {
        Some(false)
    } else {
        match name_of(s[0]) {
            None => None,
            Some(name) => if name == git_name() {
                Some(true)
            } else {
                git_marked(s.subrange(1, s.len() as int))
            },
        }
    }
}

/// Converts a modification time to seconds since the epoch, with 0 for a
/// time before the epoch.
pub fn to_timestamp(modified: FileTime) -> (r: u64)
    ensures
        r == stamp(modified),
{
    match modified {
        FileTime::BeforeEpoch => 0,
        FileTime::SinceEpoch(s) => s,
    }
}

/// Whether a directory of this name is left out of freshness: an exact,
/// case-sensitive match against the excluded names.
pub fn should_exclude(name: &str) -> (r: bool)
    ensures
        r == excluded(name@),
{
    let n = String::from_str(name);
    n == String::from_str("node_modules") || n == String::from_str("target")
}

} // verus!
