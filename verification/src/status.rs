//! The lifecycle of one matched directory.
//!
//! A matched entry starts `Loading` while its size is being aggregated,
//! becomes `Ready` once the size is known, moves to `Deleting` when the user
//! asks for its removal, and ends in one of the two terminal states:
//! `Deleted` on success or `Error` on a failed removal.  Transitions only
//! ever move forward along this chain.

use vstd::prelude::*;

verus! {

/// The state of one matched directory.
#[derive(Clone, Copy, Debug, PartialEq, Eq, Structural)]
pub enum DirStatus {
    /// The entry's size is still being aggregated.
    Loading,
    /// The size is known; the entry can be deleted.
    Ready,
    /// A removal of the entry is under way.
    Deleting,
    /// The entry was removed; terminal.
    Deleted,
    /// Removing the entry failed; terminal, left for manual investigation.
    Error,
}

impl DirStatus {
    /// Position of a status along the forward chain
    /// `Loading -> Ready -> Deleting -> {Deleted | Error}`; both terminal
    /// states share the last position.
    pub open spec fn rank(self) -> int {
        match self {
            DirStatus::Loading => 0,
            DirStatus::Ready => 1,
            DirStatus::Deleting => 2,
            DirStatus::Deleted => 3,
            DirStatus::Error => 3,
        }
    }

    /// A terminal status never changes again.
    pub open spec fn is_terminal(self) -> bool {
        self is Deleted || self is Error
    }

    /// The text shown for each status.
    pub open spec fn spec_label(self) -> Seq<char> {
        match self {
            DirStatus::Loading => "LOADING"@,
            DirStatus::Ready => "READY"@,
            DirStatus::Deleting => "DELETING"@,
            DirStatus::Deleted => "DELETED"@,
            DirStatus::Error => "ERROR"@,
        }
    }

    /// Returns the text shown for this status.
    pub fn label(&self) -> (r: String)
        ensures
            r@ == self.spec_label(),
    {
        match self {
            DirStatus::Loading => "LOADING".to_owned(),
            DirStatus::Ready => "READY".to_owned(),
            DirStatus::Deleting => "DELETING".to_owned(),
            DirStatus::Deleted => "DELETED".to_owned(),
            DirStatus::Error => "ERROR".to_owned(),
        }
    }
}

} // verus!
