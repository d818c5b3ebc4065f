//! One matched directory as the controller tracks it: its path, its size
//! once aggregated, and where it stands in its lifecycle.

use vstd::prelude::*;

use crate::file_size::formatted_size;
use crate::file_size::size;
use crate::status::DirStatus;

verus! {

/// A matched directory tracked by the controller.  Created once, at
/// population time; mutated only by the controller in response to events;
/// never removed from the collection (a deleted entry stays visible).
pub struct DirData {
    /// The full path of the matched directory.
    pub path: String,
    /// Its aggregated size in bytes, once reported.
    pub size: Option<u128>,
    /// Where the entry stands in its lifecycle.
    pub status: DirStatus,
}

impl DirData {
    /// A fresh entry for a just-matched path: no size yet, still loading.
    pub fn new(path: String) -> (r: DirData)
        ensures
            r.path == path,
            r.size is None,
            r.status == DirStatus::Loading,
    {
        DirData { path, size: None, status: DirStatus::Loading }
    }

    /// Records the aggregated size and marks the entry ready.
    pub fn update_size(&mut self, size: u128)
        ensures
            final(self).path == old(self).path,
            final(self).size == Some(size),
            final(self).status == DirStatus::Ready,
    {
        self.size = Some(size);
        self.status = DirStatus::Ready;
    }

    /// Marks the entry as being deleted.
    pub fn deleting(&mut self)
        ensures
            final(self).path == old(self).path,
            final(self).size == old(self).size,
            final(self).status == DirStatus::Deleting,
    {
        self.status = DirStatus::Deleting;
    }

    /// Marks the entry as removed.
    pub fn deleted(&mut self)
        ensures
            final(self).path == old(self).path,
            final(self).size == old(self).size,
            final(self).status == DirStatus::Deleted,
    {
        self.status = DirStatus::Deleted;
    }

    /// Marks the entry's removal as failed.
    pub fn error(&mut self)
        ensures
            final(self).path == old(self).path,
            final(self).size == old(self).size,
            final(self).status == DirStatus::Error,
    {
        self.status = DirStatus::Error;
    }

    /// Returns the size text shown for the entry: a placeholder while the
    /// size is unknown, the formatted byte count once it is reported.
    pub fn size_label(&self) -> (r: String)
        ensures
            match self.size {
                None => r@ == ".."@,
                Some(b) => r@ == formatted_size(b),
            },
    {
        match self.size {
            None => "..".to_owned(),
            Some(b) => size(b),
        }
    }
}

} // verus!
