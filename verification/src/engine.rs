//! Hand-off rules between the simulation loop and the background planner:
//! at most one plan request is in flight, and it stays in flight until its
//! result is delivered or the worker is gone.

use vstd::prelude::*;

verus! {

/// What a non-blocking look at the worker's result channel found.
#[derive(Debug, Clone, Copy, PartialEq, Eq, Structural)]
pub enum PollOutcome {
    /// A plan result was waiting and has been taken.
    Delivered,
    /// No result yet.
    Empty,
    /// The worker has stopped; no result will come.
    Disconnected,
}

/// Whether a plan request is in flight with the background planner.
#[derive(Debug, Clone, Copy, PartialEq, Eq, Structural)]
pub struct PlannerEngineState {
    pending: bool,
}

impl PlannerEngineState {
    /// Whether a request is in flight.
    pub closed spec fn in_flight(self) -> bool {
        self.pending
    }

    /// A fresh engine with no request in flight.
    pub fn new() -> (state: Self)
        ensures
            !state.in_flight(),
    {
        PlannerEngineState { pending: false }
    }

    /// Whether a request is in flight.
    pub fn is_pending(&self) -> (pending: bool)
        ensures
            pending == self.in_flight(),
    {
        self.pending
    }

    /// Hand a request to the worker through `send`, which reports whether the
    /// worker accepted it. While a request is in flight nothing is sent and the
    /// submission is refused. Returns whether the request is now in flight.
    pub fn submit<F: FnOnce() -> bool>(&mut self, send: F) -> (accepted: bool)
        requires
            send.requires(()),
        ensures
            old(self).in_flight() ==> !accepted && *final(self) == *old(self),
            !old(self).in_flight() ==> (send.ensures((), accepted) && final(self).in_flight()
                == accepted),
    {
        if self.pending {
            return false;
        }
        let accepted = send();
        if accepted {
            self.pending = true;
        }
        accepted
    }

    /// Account for what a look at the result channel found. A delivered result
    /// or a stopped worker ends the request in flight; an empty channel leaves
    /// it in flight. Returns whether a result was delivered.
    pub fn poll(&mut self, outcome: PollOutcome) -> (delivered: bool)
        ensures
            delivered == (outcome == PollOutcome::Delivered),
            final(self).in_flight() == (old(self).in_flight() && outcome == PollOutcome::Empty),
    {
        match outcome {
            PollOutcome::Delivered => {
                self.pending = false;
                true
            },
            PollOutcome::Empty => false,
            PollOutcome::Disconnected => {
                self.pending = false;
                false
            },
        }
    }

    /// Account for a blocking wait that returned the result of the request in
    /// flight.
    pub fn wait(&mut self)
        ensures
            !final(self).in_flight(),
    {
        self.pending = false;
    }
}

} // verus!
