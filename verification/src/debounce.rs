//! Requests to reconcile the queue, gathered into as few runs as will do.
use vstd::prelude::*;

verus! {

/// Where the gathering stands.
#[derive(Clone, Copy, PartialEq, Eq, Structural, Debug)]
pub struct QueueReconcileState {
    /// A run is due or under way.
    pub scheduled: bool,
    /// A request came since the last run began.
    pub dirty: bool,
}

impl QueueReconcileState {
    /// Nothing is due.
    pub fn new() -> (state: QueueReconcileState)
        ensures
            state == (QueueReconcileState { scheduled: false, dirty: false }),
    {
        QueueReconcileState { scheduled: false, dirty: false }
    }

    /// After a request.
    pub open spec fn requested(self) -> QueueReconcileState {
        QueueReconcileState { scheduled: true, dirty: self.scheduled }
    }

    /// After a run began.
    pub open spec fn begun(self) -> QueueReconcileState {
        QueueReconcileState { dirty: false, ..self }
    }

    /// After a run was over.
    pub open spec fn ended(self) -> QueueReconcileState {
        QueueReconcileState { scheduled: self.scheduled && self.dirty, dirty: false }
    }

    /// Takes in a request, and returns whether a task is to be started that runs it.
    pub fn schedule_reconcile_queue(&mut self) -> (start: bool)
        ensures
            *final(self) == old(self).requested(),
            start == !old(self).scheduled,
    {
        if self.scheduled {
            self.dirty = true;
            return false;
        }
        self.scheduled = true;
        self.dirty = false;
        true
    }

    /// A run begins.
    pub fn begin_run(&mut self)
        ensures
            *final(self) == old(self).begun(),
    {
        self.dirty = false;
    }

    /// A run is over; returns whether another follows.
    pub fn end_run(&mut self) -> (again: bool)
        ensures
            again == old(self).dirty,
            *final(self) == old(self).ended(),
    {
        if self.dirty {
            self.dirty = false;
            return true;
        }
        self.scheduled = false;
        false
    }
}

/// No request is lost: one that comes during a run leads to another run, and one that comes when
/// no run is due starts a task.
pub proof fn requests_are_not_lost(state: QueueReconcileState)
    requires
        state.scheduled,
    ensures
        state.begun().requested().dirty,
        state.begun().requested().ended().scheduled,
        !state.begun().ended().scheduled,
{
}

/// A request starts a run exactly where none is scheduled. A request that comes while one is
/// scheduled has another run follow; a run that no request came in between is the last.
pub proof fn every_request_is_followed_by_a_run(state: QueueReconcileState)
    ensures
        state.requested().scheduled,
        !state.scheduled ==> !state.requested().dirty,
        state.scheduled ==> state.requested().begun().requested().ended().scheduled,
        state.scheduled ==> state.requested().ended().scheduled,
        !state.begun().ended().scheduled,
        state.begun().scheduled == state.scheduled,
        !state.ended().dirty && !state.begun().dirty,
{
}

} // verus!
