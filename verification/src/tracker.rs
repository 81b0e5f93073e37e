//! The non-blocking load state machine with its one-shot readiness event.
//!
//! A load request is tracked per handle as `Pending`, `Ready`, or
//! `Failed(reason)`. Resolution happens off the calling path: the host
//! performing the actual load reports the outcome through
//! [`LoadTracker::apply_outcome`], and the caller observes it through
//! [`LoadTracker::poll`]. `Ready` and `Failed` are terminal: no reported
//! outcome ever moves a load out of them, so a failure stays visible to
//! `poll` indefinitely. The "became ready" signal is consumed at most once,
//! through [`LoadTracker::take_ready_event`].

use vstd::prelude::*;

verus! {

/// Why a load ended in the `Failed` state.
#[derive(Clone, Copy, PartialEq, Eq, Structural, Debug)]
pub enum LoadFailure {
    /// The requested name could not be resolved to a loadable resource.
    NameNotResolved,
    /// The resource was found but its contents could not be instantiated.
    DecodeFailed,
    /// The source holding the resource could not be reached.
    SourceUnavailable,
}

/// The observable status of one load, as `poll` reports it.
#[derive(Clone, Copy, PartialEq, Eq, Structural, Debug)]
pub enum LoadStatus {
    Pending,
    Ready,
    Failed(LoadFailure),
}

/// What the host's load step reports back for a pending load.
#[derive(Clone, Copy, PartialEq, Eq, Structural, Debug)]
pub enum LoadOutcome {
    Succeeded,
    Failed(LoadFailure),
}

/// An opaque, copyable reference to a tracked load.
#[derive(Clone, Copy, PartialEq, Eq, Structural, Debug)]
pub struct LoadHandle {
    pub id: usize,
}

/// Per-load tracking record: current status, and whether the one-shot ready
/// event has already been consumed.
#[derive(Clone, Copy, PartialEq, Eq, Structural, Debug)]
pub struct LoadEntry {
    pub status: LoadStatus,
    pub ready_taken: bool,
}

/// Tracks every load requested so far, by handle.
pub struct LoadTracker {
    pub entries: Vec<LoadEntry>,
    pub names: Vec<String>,
}

impl LoadTracker {
    /// One tracking record and one requested name per issued handle.
    pub open spec fn wf(self) -> bool {
        self.entries@.len() == self.names@.len()
    }

    pub open spec fn valid_handle(self, h: LoadHandle) -> bool {
        h.id < self.entries@.len()
    }

    pub fn new() -> (t: LoadTracker)
        ensures
            t.entries@.len() == 0,
            t.wf(),
    {
        LoadTracker { entries: Vec::new(), names: Vec::new() }
    }

    /// Begin a non-blocking load of a named resource. The returned handle
    /// starts out `Pending`; whether the name resolves is only learnt later,
    /// through `poll`, once the host reports the outcome.
    pub fn request_load(&mut self, name: String) -> (h: LoadHandle)
        ensures
            h.id == old(self).entries@.len(),
            final(self).entries@ == old(self).entries@.push(
                LoadEntry { status: LoadStatus::Pending, ready_taken: false },
            ),
            final(self).names@ == old(self).names@.push(name),
            final(self).valid_handle(h),
            old(self).wf() ==> final(self).wf(),
    {
        let id = self.entries.len();
        self.entries.push(LoadEntry { status: LoadStatus::Pending, ready_taken: false });
        self.names.push(name);
        LoadHandle { id }
    }

    /// Non-blocking status query; safe to call every scheduling tick.
    pub fn poll(&self, h: LoadHandle) -> (s: LoadStatus)
        requires
            self.valid_handle(h),
        ensures
            s == self.entries@[h.id as int].status,
    {
        self.entries[h.id].status
    }

    /// The name the load was requested under.
    pub fn name_of(&self, h: LoadHandle) -> (n: &String)
        requires
            self.wf(),
            self.valid_handle(h),
        ensures
            n@ == self.names@[h.id as int]@,
    {
        &self.names[h.id]
    }

    /// Record the outcome the host's load step reported. A pending load
    /// moves to its terminal state; a load already in a terminal state is
    /// left exactly as it was, so terminal states are sticky. Returns
    /// whether the outcome was applied.
    pub fn apply_outcome(&mut self, h: LoadHandle, outcome: LoadOutcome) -> (applied: bool)
        requires
            old(self).valid_handle(h),
        ensures
            applied == (old(self).entries@[h.id as int].status is Pending),
            applied ==> final(self).entries@ == old(self).entries@.update(
                h.id as int,
                LoadEntry {
                    status: match outcome {
                        LoadOutcome::Succeeded => LoadStatus::Ready,
                        LoadOutcome::Failed(reason) => LoadStatus::Failed(reason),
                    },
                    ready_taken: false,
                },
            ),
            !applied ==> final(self).entries@ == old(self).entries@,
            final(self).names@ == old(self).names@,
    {
        let entry = self.entries[h.id];
        match entry.status {
            LoadStatus::Pending => {
                let status = match outcome {
                    LoadOutcome::Succeeded => LoadStatus::Ready,
                    LoadOutcome::Failed(reason) => LoadStatus::Failed(reason),
                };
                self.entries.set(h.id, LoadEntry { status, ready_taken: false });
                true
            },
            _ => false,
        }
    }

    /// Consume the one-shot readiness signal: fires exactly once per load
    /// that reached `Ready`, and never for a pending or failed load. The
    /// status itself is untouched.
    pub fn take_ready_event(&mut self, h: LoadHandle) -> (fired: bool)
        requires
            old(self).valid_handle(h),
        ensures
            fired == (old(self).entries@[h.id as int].status is Ready && !old(
                self,
            ).entries@[h.id as int].ready_taken),
            fired ==> final(self).entries@ == old(self).entries@.update(
                h.id as int,
                LoadEntry {
                    status: old(self).entries@[h.id as int].status,
                    ready_taken: true,
                },
            ),
            !fired ==> final(self).entries@ == old(self).entries@,
            final(self).names@ == old(self).names@,
    {
        let entry = self.entries[h.id];
        match entry.status {
            LoadStatus::Ready => {
                if entry.ready_taken {
                    false
                } else {
                    self.entries.set(h.id, LoadEntry { status: entry.status, ready_taken: true });
                    true
                }
            },
            _ => false,
        }
    }
}

} // verus!
