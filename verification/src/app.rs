//! The controller's state: the single mutable projection of all matched
//! directories, owned exclusively by the controller and mutated one event at
//! a time.
//!
//! Entries are populated once, at start-up, and keep their index for the
//! whole run; a deleted entry stays visible.  Every mutation is the
//! application of one outcome event or one input action.  Events that name
//! an out-of-range index, or an entry already in a terminal state, are
//! discarded.  Status only ever moves forward along
//! `Loading -> Ready -> Deleting -> {Deleted | Error}`.

use vstd::prelude::*;

use crate::dir_data::DirData;
use crate::io_event::IoEventType;
use crate::status::DirStatus;

verus! {

/// The size an entry has reported, or zero while none is known.
pub open spec fn size_or_zero(d: DirData) -> int {
    match d.size {
        Some(b) => b as int,
        None => 0,
    }
}

/// What an entry contributes to the reclaimed space: its size once it is
/// deleted, nothing in any other state.
pub open spec fn deleted_size(d: DirData) -> int {
    if d.status is Deleted {
        size_or_zero(d)
    } else {
        0
    }
}

/// The sum of all reported sizes.
pub open spec fn sum_reported(s: Seq<DirData>) -> int
    decreases s.len(),
{
    if s.len() == 0 {
        0
    } else {
        size_or_zero(s[0]) + sum_reported(s.subrange(1, s.len() as int))
    }
}

/// The sum of the sizes of the deleted entries.
pub open spec fn sum_deleted(s: Seq<DirData>) -> int
    decreases s.len(),
{
    if s.len() == 0 {
        0
    } else {
        deleted_size(s[0]) + sum_deleted(s.subrange(1, s.len() as int))
    }
}

/// Replacing one entry changes the sum of reported sizes by exactly the
/// difference the replacement makes.
pub proof fn lemma_sum_reported_update(s: Seq<DirData>, k: int, e: DirData)
    requires
        0 <= k < s.len(),
    ensures
        sum_reported(s.update(k, e)) == sum_reported(s) - size_or_zero(s[k]) + size_or_zero(e),
    decreases s.len(),
{
    let t = s.update(k, e);
    if k == 0 {
        assert(t.subrange(1, t.len() as int) =~= s.subrange(1, s.len() as int));
    } else {
        lemma_sum_reported_update(s.subrange(1, s.len() as int), k - 1, e);
        assert(t.subrange(1, t.len() as int) =~= s.subrange(1, s.len() as int).update(k - 1, e));
        assert(t[0] == s[0]);
    }
}

/// Replacing one entry changes the sum of deleted sizes by exactly the
/// difference the replacement makes.
pub proof fn lemma_sum_deleted_update(s: Seq<DirData>, k: int, e: DirData)
    requires
        0 <= k < s.len(),
    ensures
        sum_deleted(s.update(k, e)) == sum_deleted(s) - deleted_size(s[k]) + deleted_size(e),
    decreases s.len(),
{
    let t = s.update(k, e);
    if k == 0 {
        assert(t.subrange(1, t.len() as int) =~= s.subrange(1, s.len() as int));
    } else {
        lemma_sum_deleted_update(s.subrange(1, s.len() as int), k - 1, e);
        assert(t.subrange(1, t.len() as int) =~= s.subrange(1, s.len() as int).update(k - 1, e));
        assert(t[0] == s[0]);
    }
}

/// While no entry has reported a size, the reported sum is zero.
pub proof fn lemma_sum_reported_zero(s: Seq<DirData>)
    requires
        forall|k: int| 0 <= k < s.len() ==> s[k].size is None,
    ensures
        sum_reported(s) == 0,
    decreases s.len(),
{
    if s.len() > 0 {
        let t = s.subrange(1, s.len() as int);
        assert(forall|k: int| 0 <= k < t.len() ==> t[k] == s[k + 1]);
        lemma_sum_reported_zero(t);
    }
}

/// While no entry is deleted, the reclaimed sum is zero.
pub proof fn lemma_sum_deleted_zero(s: Seq<DirData>)
    requires
        forall|k: int| 0 <= k < s.len() ==> !(s[k].status is Deleted),
    ensures
        sum_deleted(s) == 0,
    decreases s.len(),
{
    if s.len() > 0 {
        let t = s.subrange(1, s.len() as int);
        assert(forall|k: int| 0 <= k < t.len() ==> t[k] == s[k + 1]);
        lemma_sum_deleted_zero(t);
    }
}

/// The controller's state.
pub struct App {
    /// The matched directories, in discovery order, once populated.
    pub data: Option<Vec<DirData>>,
    /// The cursor: the index of the highlighted entry, if any.
    pub selected: Option<usize>,
    /// The sum of all reported sizes, once any entry has reported one.
    pub total_size: Option<u128>,
    /// How long after start-up the last entry became ready, in milliseconds;
    /// set exactly once.
    pub time_init: Option<u64>,
    /// The sum of the sizes of the deleted entries.
    pub free_space: u128,
}

impl App {
    /// The populated entries.
    pub open spec fn entries(self) -> Seq<DirData>
        recommends
            self.data is Some,
    {
        self.data->0@
    }

    /// Everything the controller keeps consistent while applying events one
    /// at a time: the cursor stays in range, `total_size` is the sum of the
    /// reported sizes, `free_space` the sum of the deleted entries' sizes,
    /// the ready time is only set once every entry has reported, and an
    /// entry still loading has no size yet.
    pub open spec fn wf(self) -> bool {
        match self.data {
            Some(entries) => {
                &&& (match self.selected {
                    Some(i) => (i as int) < entries@.len(),
                    None => true,
                })
                &&& (match self.total_size {
                    Some(t) => t as int == sum_reported(entries@),
                    None => forall|k: int| 0 <= k < entries@.len() ==> entries@[k].size is None,
                })
                &&& (self.time_init is Some ==> forall|k: int|
                    0 <= k < entries@.len() ==> entries@[k].size is Some)
                &&& self.free_space as int == sum_deleted(entries@)
                &&& (forall|k: int|
                    0 <= k < entries@.len() ==> (entries@[k].status is Loading
                        ==> entries@[k].size is None))
            },
            None => {
                &&& self.selected is None
                &&& self.total_size is None
                &&& self.time_init is None
                &&& self.free_space == 0
            },
        }
    }

    /// The state before anything was discovered: nothing populated, nothing
    /// selected, nothing summed.
    pub fn new() -> (r: App)
        ensures
            r.wf(),
            r.data is None,
            r.selected is None,
            r.total_size is None,
            r.time_init is None,
            r.free_space == 0,
    {
        App { data: None, selected: None, total_size: None, time_init: None, free_space: 0 }
    }

    /// Populates the entries from the matched paths, each starting its
    /// lifecycle as `Loading` with no size.  Population happens once: a
    /// second call leaves the state untouched.
    pub fn update_data(&mut self, paths: Vec<String>)
        requires
            old(self).wf(),
        ensures
            final(self).wf(),
            old(self).data is Some ==> *final(self) == *old(self),
            old(self).data is None ==> {
                &&& final(self).data is Some
                &&& final(self).entries().len() == paths@.len()
                &&& (forall|k: int|
                    0 <= k < paths@.len() ==> final(self).entries()[k] == (DirData {
                        path: paths@[k],
                        size: None,
                        status: DirStatus::Loading,
                    }))
                &&& final(self).selected is None
                &&& final(self).total_size is None
                &&& final(self).time_init is None
                &&& final(self).free_space == 0
            },
    {
        if self.data.is_none() {
            let n = paths.len();
            let mut entries: Vec<DirData> = Vec::new();
            let mut i: usize = 0;
            while i < n
                invariant
                    n == paths@.len(),
                    0 <= i <= n,
                    entries@.len() == i,
                    forall|k: int|
                        0 <= k < i ==> entries@[k] == (DirData {
                            path: paths@[k],
                            size: None,
                            status: DirStatus::Loading,
                        }),
                decreases n - i,
            {
                entries.push(DirData::new(paths[i].clone()));
                i += 1;
            }
            proof {
                lemma_sum_reported_zero(entries@);
                lemma_sum_deleted_zero(entries@);
            }
            self.data = Some(entries);
        }
    }

    /// A `Loaded` event applies only to an in-range entry that is still
    /// loading; anything else is stale or out of range and is discarded.
    pub open spec fn loaded_applies(self, index: usize) -> bool {
        &&& self.data is Some
        &&& (index as int) < self.entries().len()
        &&& self.entries()[index as int].status is Loading
    }

    /// What applying a `Loaded(index, size)` event does to the state: the
    /// entry becomes ready with that size, the size joins the running total,
    /// the cursor and the reclaimed space stay put, and if this made the
    /// last loading entry ready, the time to readiness is recorded.
    pub open spec fn loaded_step(pre: App, post: App, index: usize, size: u128, elapsed_ms: u64) -> bool {
        &&& post.data is Some
        &&& post.entries() == pre.entries().update(index as int, (DirData {
            path: pre.entries()[index as int].path,
            size: Some(size),
            status: DirStatus::Ready,
        }))
        &&& post.selected == pre.selected
        &&& post.free_space == pre.free_space
        &&& post.total_size == Some((sum_reported(pre.entries()) + size) as u128)
        &&& post.time_init == (if forall|k: int|
            0 <= k < post.entries().len() ==> post.entries()[k].size is Some {
            Some(elapsed_ms)
        } else {
            pre.time_init
        })
    }

    /// Applies a `Loaded(index, size)` outcome: the entry becomes ready with
    /// that size, the size joins the running total, and if this was the last
    /// entry still loading, the time to readiness is recorded.  A stale or
    /// out-of-range event is discarded without any change.
    pub fn update_size(&mut self, index: usize, size: u128, elapsed_ms: u64)
        requires
            old(self).wf(),
            old(self).loaded_applies(index) ==> sum_reported(old(self).entries()) + size
                <= u128::MAX,
        ensures
            final(self).wf(),
            !old(self).loaded_applies(index) ==> *final(self) == *old(self),
            old(self).loaded_applies(index) ==> App::loaded_step(
                *old(self),
                *final(self),
                index,
                size,
                elapsed_ms,
            ),
    {
        let applies: bool = match &self.data {
            None => false,
            Some(entries) => index < entries.len() && entries[index].status == DirStatus::Loading,
        };
        if !applies {
            return ;
        }
        proof {
            lemma_sum_reported_update(
                self.entries(),
                index as int,
                DirData {
                    path: self.entries()[index as int].path,
                    size: Some(size),
                    status: DirStatus::Ready,
                },
            );
            lemma_sum_deleted_update(
                self.entries(),
                index as int,
                DirData {
                    path: self.entries()[index as int].path,
                    size: Some(size),
                    status: DirStatus::Ready,
                },
            );
            if self.total_size is None {
                lemma_sum_reported_zero(self.entries());
            }
        }
        match &mut self.data {
            Some(entries) => {
                entries[index].update_size(size);
            },
            None => {},
        }
        let added_size: u128 = match self.total_size {
            Some(current) => current + size,
            None => size,
        };
        self.total_size = Some(added_size);
        let mut all_loaded = true;
        match &self.data {
            Some(entries) => {
                let n = entries.len();
                let mut k: usize = 0;
                while k < n
                    invariant
                        n == entries@.len(),
                        0 <= k <= n,
                        all_loaded == (forall|j: int| 0 <= j < k ==> entries@[j].size is Some),
                    decreases n - k,
                {
                    if entries[k].size.is_none() {
                        all_loaded = false;
                    }
                    k += 1;
                }
            },
            None => {},
        }
        if all_loaded {
            self.time_init = Some(elapsed_ms);
        }
    }

    /// A deletion outcome (`Deleted` or `DeleteError`) applies only to an
    /// in-range entry that is not already in a terminal state; anything else
    /// is stale or out of range and is discarded.
    pub open spec fn finish_applies(self, index: usize) -> bool {
        &&& self.data is Some
        &&& (index as int) < self.entries().len()
        &&& !self.entries()[index as int].status.is_terminal()
    }

    /// What applying a `Deleted(index)` event does to the state: the entry
    /// ends in the terminal `Deleted` state and its size, if it ever
    /// reported one, is added to the reclaimed space exactly once.
    pub open spec fn deleted_step(pre: App, post: App, index: usize) -> bool {
        &&& post.data is Some
        &&& post.entries() == pre.entries().update(index as int, (DirData {
            path: pre.entries()[index as int].path,
            size: pre.entries()[index as int].size,
            status: DirStatus::Deleted,
        }))
        &&& post.selected == pre.selected
        &&& post.total_size == pre.total_size
        &&& post.time_init == pre.time_init
        &&& post.free_space as int == pre.free_space + size_or_zero(pre.entries()[index as int])
    }

    /// Applies a `Deleted(index)` outcome: the entry ends `Deleted` and its
    /// reported size joins the reclaimed space.  A stale or out-of-range
    /// event is discarded without any change.
    pub fn deleted_file(&mut self, index: usize)
        requires
            old(self).wf(),
            old(self).finish_applies(index) ==> old(self).free_space + size_or_zero(
                old(self).entries()[index as int],
            ) <= u128::MAX,
        ensures
            final(self).wf(),
            !old(self).finish_applies(index) ==> *final(self) == *old(self),
            old(self).finish_applies(index) ==> App::deleted_step(*old(self), *final(self), index),
    {
        let applies: bool = match &self.data {
            None => false,
            Some(entries) => index < entries.len() && !(entries[index].status == DirStatus::Deleted
                || entries[index].status == DirStatus::Error),
        };
        if !applies {
            return ;
        }
        match &mut self.data {
            Some(entries) => {
                proof {
                    let e = entries@[index as int];
                    lemma_sum_reported_update(
                        entries@,
                        index as int,
                        DirData { path: e.path, size: e.size, status: DirStatus::Deleted },
                    );
                    lemma_sum_deleted_update(
                        entries@,
                        index as int,
                        DirData { path: e.path, size: e.size, status: DirStatus::Deleted },
                    );
                }
                entries[index].deleted();
                let entry_size: u128 = match entries[index].size {
                    Some(size) => size,
                    None => 0,
                };
                self.free_space = self.free_space + entry_size;
            },
            None => {},
        }
    }

    /// What applying a `DeleteError(index)` event does to the state: the
    /// entry ends in the terminal `Error` state, left visible for manual
    /// investigation; no aggregate changes.
    pub open spec fn error_step(pre: App, post: App, index: usize) -> bool {
        &&& post.data is Some
        &&& post.entries() == pre.entries().update(index as int, (DirData {
            path: pre.entries()[index as int].path,
            size: pre.entries()[index as int].size,
            status: DirStatus::Error,
        }))
        &&& post.selected == pre.selected
        &&& post.total_size == pre.total_size
        &&& post.time_init == pre.time_init
        &&& post.free_space == pre.free_space
    }

    /// Applies a `DeleteError(index)` outcome: the entry ends `Error`.  A
    /// stale or out-of-range event is discarded without any change.
    pub fn deleted_error(&mut self, index: usize)
        requires
            old(self).wf(),
        ensures
            final(self).wf(),
            !old(self).finish_applies(index) ==> *final(self) == *old(self),
            old(self).finish_applies(index) ==> App::error_step(*old(self), *final(self), index),
    {
        let applies: bool = match &self.data {
            None => false,
            Some(entries) => index < entries.len() && !(entries[index].status == DirStatus::Deleted
                || entries[index].status == DirStatus::Error),
        };
        if !applies {
            return ;
        }
        match &mut self.data {
            Some(entries) => {
                proof {
                    let e = entries@[index as int];
                    lemma_sum_reported_update(
                        entries@,
                        index as int,
                        DirData { path: e.path, size: e.size, status: DirStatus::Error },
                    );
                    lemma_sum_deleted_update(
                        entries@,
                        index as int,
                        DirData { path: e.path, size: e.size, status: DirStatus::Error },
                    );
                }
                entries[index].error();
            },
            None => {},
        }
    }

    /// A user `Delete` action acts only when an entry is selected and that
    /// entry is `Ready`: deleting an entry that is still loading, already
    /// being deleted, or already finished is a no-op.
    pub open spec fn delete_applies(self) -> bool {
        &&& self.data is Some
        &&& self.selected is Some
        &&& self.entries()[self.selected->0 as int].status is Ready
    }

    /// Applies the user's `Delete` action to the selected entry.  When the
    /// entry is `Ready`, it moves to `Deleting` and the entry's index and
    /// path are returned for a deletion task to be run; in every other case
    /// nothing changes, nothing is to be deleted, and `None` comes back.
    pub fn delete_file(&mut self) -> (r: Option<(usize, String)>)
        requires
            old(self).wf(),
        ensures
            final(self).wf(),
            !old(self).delete_applies() ==> *final(self) == *old(self) && r is None,
            old(self).delete_applies() ==> {
                let i = old(self).selected->0;
                &&& r == Some((i, old(self).entries()[i as int].path))
                &&& final(self).data is Some
                &&& final(self).entries() == old(self).entries().update(i as int, (DirData {
                    path: old(self).entries()[i as int].path,
                    size: old(self).entries()[i as int].size,
                    status: DirStatus::Deleting,
                }))
                &&& final(self).selected == old(self).selected
                &&& final(self).total_size == old(self).total_size
                &&& final(self).time_init == old(self).time_init
                &&& final(self).free_space == old(self).free_space
            },
    {
        let index: usize = match self.selected {
            None => {
                return None;
            },
            Some(i) => i,
        };
        match &mut self.data {
            Some(entries) => {
                if entries[index].status != DirStatus::Ready {
                    return None;
                }
                proof {
                    let e = entries@[index as int];
                    lemma_sum_reported_update(
                        entries@,
                        index as int,
                        DirData { path: e.path, size: e.size, status: DirStatus::Deleting },
                    );
                    lemma_sum_deleted_update(
                        entries@,
                        index as int,
                        DirData { path: e.path, size: e.size, status: DirStatus::Deleting },
                    );
                }
                entries[index].deleting();
                let path = entries[index].path.clone();
                Some((index, path))
            },
            None => None,
        }
    }

    /// Moves the cursor one entry down, wrapping from the last entry to the
    /// first.  With nothing populated or nothing to select, the cursor does
    /// not move; with no cursor yet, it lands on the first entry.
    pub fn next(&mut self)
        requires
            old(self).wf(),
        ensures
            final(self).wf(),
            final(self).data == old(self).data,
            final(self).total_size == old(self).total_size,
            final(self).time_init == old(self).time_init,
            final(self).free_space == old(self).free_space,
            (old(self).data is None || old(self).entries().len() == 0) ==> final(self).selected
                == old(self).selected,
            (old(self).data is Some && old(self).entries().len() > 0) ==> final(self).selected
                == Some(
                match old(self).selected {
                    None => 0usize,
                    Some(i) => if i as int >= old(self).entries().len() - 1 {
                        0usize
                    } else {
                        (i + 1) as usize
                    },
                },
            ),
    {
        let len: usize = match &self.data {
            Some(entries) => entries.len(),
            None => {
                return ;
            },
        };
        if len == 0 {
            return ;
        }
        let i: usize = match self.selected {
            Some(i) => if i >= len - 1 {
                0
            } else {
                i + 1
            },
            None => 0,
        };
        self.selected = Some(i);
    }

    /// Moves the cursor one entry up, wrapping from the first entry to the
    /// last.  With nothing populated or nothing to select, the cursor does
    /// not move; with no cursor yet, it lands on the first entry.
    pub fn previous(&mut self)
        requires
            old(self).wf(),
        ensures
            final(self).wf(),
            final(self).data == old(self).data,
            final(self).total_size == old(self).total_size,
            final(self).time_init == old(self).time_init,
            final(self).free_space == old(self).free_space,
            (old(self).data is None || old(self).entries().len() == 0) ==> final(self).selected
                == old(self).selected,
            (old(self).data is Some && old(self).entries().len() > 0) ==> final(self).selected
                == Some(
                match old(self).selected {
                    None => 0usize,
                    Some(i) => if i == 0 {
                        (old(self).entries().len() - 1) as usize
                    } else {
                        (i - 1) as usize
                    },
                },
            ),
    {
        let len: usize = match &self.data {
            Some(entries) => entries.len(),
            None => {
                return ;
            },
        };
        if len == 0 {
            return ;
        }
        let i: usize = match self.selected {
            Some(i) => if i == 0 {
                len - 1
            } else {
                i - 1
            },
            None => 0,
        };
        self.selected = Some(i);
    }

    /// Applies one outcome event to the state, exactly as the controller
    /// drains them: one at a time, under exclusive ownership.  Status only
    /// ever moves forward along the lifecycle chain, and an event naming an
    /// out-of-range index or an already-terminal entry is discarded without
    /// any change.  `Initialize` is not applied here: it stands for running
    /// the search, whose results are handed to `update_data`.
    pub fn apply_io_event(&mut self, event: IoEventType, elapsed_ms: u64)
        requires
            old(self).wf(),
            (match event {
                IoEventType::Loaded(index, size) => old(self).loaded_applies(index)
                    ==> sum_reported(old(self).entries()) + size <= u128::MAX,
                IoEventType::Deleted(index) => old(self).finish_applies(index) ==> old(
                    self,
                ).free_space + size_or_zero(old(self).entries()[index as int]) <= u128::MAX,
                _ => true,
            }),
        ensures
            final(self).wf(),
            final(self).data is Some <==> old(self).data is Some,
            old(self).data is Some ==> final(self).entries().len() == old(self).entries().len(),
            old(self).data is Some ==> forall|k: int|
                0 <= k < old(self).entries().len() ==> final(self).entries()[k].path == old(
                    self,
                ).entries()[k].path,
            old(self).data is Some ==> forall|k: int|
                0 <= k < old(self).entries().len() ==> final(self).entries()[k].status.rank()
                    >= old(self).entries()[k].status.rank(),
            final(self).selected == old(self).selected,
            old(self).time_init is Some ==> final(self).time_init == old(self).time_init,
            (match event {
                IoEventType::Initialize => *final(self) == *old(self),
                IoEventType::Loaded(index, size) => if old(self).loaded_applies(index) {
                    App::loaded_step(*old(self), *final(self), index, size, elapsed_ms)
                } else {
                    *final(self) == *old(self)
                },
                IoEventType::Deleted(index) => if old(self).finish_applies(index) {
                    App::deleted_step(*old(self), *final(self), index)
                } else {
                    *final(self) == *old(self)
                },
                IoEventType::DeleteError(index) => if old(self).finish_applies(index) {
                    App::error_step(*old(self), *final(self), index)
                } else {
                    *final(self) == *old(self)
                },
            }),
    {
        match event {
            IoEventType::Initialize => {},
            IoEventType::Loaded(index, size) => {
                self.update_size(index, size, elapsed_ms);
            },
            IoEventType::Deleted(index) => {
                self.deleted_file(index);
            },
            IoEventType::DeleteError(index) => {
                self.deleted_error(index);
            },
        }
    }
}

/// Once every entry has reported its size, the running total exists and is
/// exactly the sum of the reported sizes.  (That the recorded time to
/// readiness never moves again is part of `apply_io_event`'s contract.)
pub proof fn lemma_total_size_after_all_loaded(a: App)
    requires
        a.wf(),
        a.data is Some,
        a.entries().len() > 0,
        forall|k: int| 0 <= k < a.entries().len() ==> a.entries()[k].size is Some,
    ensures
        a.total_size is Some,
        a.total_size->0 as int == sum_reported(a.entries()),
{
    if a.total_size is None {
        assert(a.entries()[0].size is None);
    }
}

} // verus!
