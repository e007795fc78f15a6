//! Sequential identifiers for LLM operations, and cancellation of every
//! operation that was started before a cancel.

use vstd::prelude::*;

verus! {

/// Hands out sequential operation ids and remembers the first id that is not
/// cancelled.
pub struct LlmOperationTracker {
    current_operation_id: u64,
    cancelled_before_id: u64,
}

impl LlmOperationTracker {
    /// The id of the most recently started operation (0 before any).
    pub closed spec fn current(self) -> nat {
        self.current_operation_id as nat
    }

    /// Every id strictly below this bound is cancelled.
    pub closed spec fn cancelled_before(self) -> nat {
        self.cancelled_before_id as nat
    }

    /// What every reachable tracker satisfies: the cancellation bound never
    /// passes the next id to be handed out.
    pub open spec fn wf(self) -> bool {
        self.cancelled_before() <= self.current() + 1
    }

    pub fn new() -> (tracker: Self)
        ensures
            tracker.current() == 0,
            tracker.cancelled_before() == 0,
            tracker.wf(),
    {
        LlmOperationTracker { current_operation_id: 0, cancelled_before_id: 0 }
    }

    /// Starts a new LLM operation and returns its unique sequential id.
    pub fn start_operation(&mut self) -> (id: u64)
        requires
            old(self).current() < u64::MAX,
        ensures
            old(self).wf() ==> final(self).wf(),
            id == old(self).current() + 1,
            final(self).current() == id,
            final(self).cancelled_before() == old(self).cancelled_before(),
    {
        self.current_operation_id = self.current_operation_id + 1;
        self.current_operation_id
    }

    /// Cancels all LLM operations started before this moment.
    pub fn cancel(&mut self)
        requires
            old(self).current() < u64::MAX,
        ensures
            final(self).wf(),
            final(self).cancelled_before() == old(self).current() + 1,
            final(self).current() == old(self).current(),
    {
        self.cancelled_before_id = self.current_operation_id + 1;
    }

    /// Whether operation `id` has been cancelled.
    pub fn is_cancelled(&self, id: u64) -> (cancelled: bool)
        ensures
            cancelled == (id < self.cancelled_before()),
    {
        id < self.cancelled_before_id
    }
}


impl Default for LlmOperationTracker {
    fn default() -> (tracker: Self)
        ensures
            tracker.current() == 0,
            tracker.cancelled_before() == 0,
            tracker.wf(),
    {
        LlmOperationTracker::new()
    }
}

/// A cancel covers every operation started before it: each id handed out so
/// far is cancelled afterwards.
pub proof fn lemma_cancel_covers_started(before: LlmOperationTracker, after: LlmOperationTracker, id: nat)
    requires
        after.cancelled_before() == before.current() + 1,
        1 <= id <= before.current(),
    ensures
        id < after.cancelled_before(),
{
}

/// An operation started after a cancel is not cancelled by it: the next id a
/// reachable tracker hands out is never below the cancellation bound.
pub proof fn lemma_next_operation_not_cancelled(t: LlmOperationTracker)
    requires
        t.wf(),
    ensures
        !(t.current() + 1 < t.cancelled_before()),
{
}

} // verus!
