//! What the background tasks compute: each task sizes or deletes one
//! matched subtree and reports a single outcome event for its entry.
//!
//! The tasks themselves run off the controller's path; here stands what each
//! one computes and which event it hands back.

use vstd::prelude::*;

use crate::fs_tree::FsNode;
use crate::fs_tree::clamped_size;
use crate::fs_tree::get_size;
use crate::io_event::IoEventType;

verus! {

/// Aggregates the size of the matched subtree held for entry `index` and
/// reports it as that entry's `Loaded` outcome.
pub fn cal_size(index: usize, node: &FsNode) -> (r: IoEventType)
    ensures
        r == IoEventType::Loaded(index, clamped_size(*node) as u128),
{
    let size = get_size(node);
    IoEventType::Loaded(index, size as u128)
}

/// Relies on remove_dir_all::remove_dir_all: removes the directory at
/// `path` and everything beneath it, reporting only whether it succeeded.
/// Nothing is stated of the outcome: it depends on the filesystem.
#[verifier::external_body]
fn remove_tree(path: &str) -> bool {
    remove_dir_all::remove_dir_all(path).is_ok()
}

/// The event a removal outcome becomes: `Deleted` for a successful removal,
/// the terminal `DeleteError` for a failed one — one terminal failure, no
/// partial rollback, no retry.
pub fn deletion_event(index: usize, removed: bool) -> (r: IoEventType)
    ensures
        r == (if removed {
            IoEventType::Deleted(index)
        } else {
            IoEventType::DeleteError(index)
        }),
{
    if removed {
        IoEventType::Deleted(index)
    } else {
        IoEventType::DeleteError(index)
    }
}

/// Removes the whole subtree at `path` and reports the outcome for entry
/// `index`: whatever the filesystem did, the result is exactly one of the
/// two deletion outcomes for that entry.
pub fn delete_file(index: usize, path: &str) -> (r: IoEventType)
    ensures
        r == IoEventType::Deleted(index) || r == IoEventType::DeleteError(index),
{
    let removed = remove_tree(path);
    deletion_event(index, removed)
}

} // verus!
