//! Directory listing through the `walkdir` crate. What a walk returns
//! depends on the state of the disk, so the wrappers promise nothing about
//! the entries; every function that consumes them is verified for every
//! possible listing.

use vstd::prelude::*;

use crate::text::is_prefix_of;

verus! {

/// Every file entry of the walk lies under `root`: its path starts with
/// `root` followed by a separator.
pub open spec fn files_have_prefix(entries: Seq<WalkedEntry>, root: Seq<char>) -> bool {
    forall|i: int|
        0 <= i < entries.len() ==> ((#[trigger] entries[i]).is_file ==> is_prefix_of(
            root + seq!['/'],
            entries[i].path@,
        ))
}

/// One entry of a directory walk: its full path and whether it is a regular
/// file.
pub struct WalkedEntry {
    /// The entry's path, as handed back by the walker.
    pub path: String,
    /// Whether the entry is a regular file (directories are not
    /// materialized themselves; only their files are).
    pub is_file: bool,
}

/// Relies on `walkdir::WalkDir::new(root)`: every entry under `root`,
/// recursively, in depth-first order. An unreadable entry or a non-UTF-8
/// path becomes an error.
#[verifier::external_body]
pub(crate) fn walk_all(root: &str) -> Result<Vec<WalkedEntry>, String> {
    let mut v = Vec::new();
    for entry in walkdir::WalkDir::new(root) {
        match entry {
            Ok(e) => match e.path().to_str() {
                Some(p) => v.push(WalkedEntry { path: p.to_string(), is_file: e.file_type().is_file() }),
                None => return Err("path is not valid UTF-8".to_string()),
            },
            Err(err) => return Err(err.to_string()),
        }
    }
    Ok(v)
}

/// Relies on `walkdir::WalkDir` with `min_depth(1)` and `max_depth(1)`:
/// only the immediate children of `root`, as the root workspace's shallow
/// traversal wants them. An unreadable entry or a non-UTF-8 path becomes an
/// error.
#[verifier::external_body]
pub(crate) fn walk_children(root: &str) -> Result<Vec<WalkedEntry>, String> {
    let mut v = Vec::new();
    for entry in walkdir::WalkDir::new(root).min_depth(1).max_depth(1) {
        match entry {
            Ok(e) => match e.path().to_str() {
                Some(p) => v.push(WalkedEntry { path: p.to_string(), is_file: e.file_type().is_file() }),
                None => return Err("path is not valid UTF-8".to_string()),
            },
            Err(err) => return Err(err.to_string()),
        }
    }
    Ok(v)
}

} // verus!
