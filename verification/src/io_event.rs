//! Outcome events: what background work reports back to the controller.
//!
//! Every event except `Initialize` carries the stable index of the entry it
//! concerns; indices are assigned once, at population time, and never
//! reused.

use vstd::prelude::*;

verus! {

/// One outcome carried from a background task to the controller.
#[derive(Clone, Copy, Debug, PartialEq, Eq, Structural)]
pub enum IoEventType {
    /// Start-up: run the search and populate the entries.
    Initialize,
    /// The entry at this index was removed.
    Deleted(usize),
    /// Removing the entry at this index failed.
    DeleteError(usize),
    /// The size of the entry at this index was aggregated.
    Loaded(usize, u128),
}

} // verus!
