//! The scenario runner: sequencing of scenarios and early termination.
//!
//! The asynchronous runtime owns the tasks, channels and cancellation scope;
//! the decisions — which scenario runs next, and whether a batch of
//! iteration outcomes demands that the remaining plan be aborted — are made
//! here.

use vstd::prelude::*;
use crate::data::RuntimeDataStore;
use crate::error::{Error, UserResult};
use crate::logical;

verus! {

/// The top level handle for managing and executing a series of logical
/// scenarios.
pub struct Runner {
    pub scenarios: Vec<logical::Scenario>,
    pub enable_tui: bool,
    pub enable_web: bool,
}

impl Runner {
    /// A runner over the given scenarios, with every display disabled.
    pub fn new(scenarios: Vec<logical::Scenario>) -> (r: Runner)
        ensures
            r.scenarios == scenarios,
            !r.enable_tui,
            !r.enable_web,
    {
        Runner { scenarios, enable_tui: false, enable_web: false }
    }

    /// The scenarios this runner will execute, in order.
    pub fn scenarios(&self) -> (r: &Vec<logical::Scenario>)
        ensures
            r == &self.scenarios,
    {
        &self.scenarios
    }

    /// Enable or disable the terminal display.
    pub fn enable_tui(self, enable: bool) -> (r: Runner)
        ensures
            r.scenarios == self.scenarios,
            r.enable_tui == enable,
            r.enable_web == self.enable_web,
    {
        Runner { enable_tui: enable, ..self }
    }

    /// Enable or disable the web display.
    pub fn enable_web(self, enable: bool) -> (r: Runner)
        ensures
            r.scenarios == self.scenarios,
            r.enable_tui == self.enable_tui,
            r.enable_web == enable,
    {
        Runner { enable_web: enable, ..self }
    }
}

/// The per-plan runtime context: the data store built for one execution
/// plan, populated by its initializers and then lent read-only to user
/// builders.
#[derive(Debug)]
pub struct ExecutionRuntimeCtx {
    pub datastore: RuntimeDataStore,
}

impl ExecutionRuntimeCtx {
    /// A fresh context with an empty store.
    pub fn new() -> (r: ExecutionRuntimeCtx)
        ensures
            r.datastore.wf(),
            r.datastore.contents() == Map::<u64, usize>::empty(),
    {
        ExecutionRuntimeCtx { datastore: RuntimeDataStore::new() }
    }

    /// Mutable access to the store, for the initialization phase of a plan.
    pub fn datastore_mut(&mut self) -> (r: &mut RuntimeDataStore)
        ensures
            *r == old(self).datastore,
            final(self).datastore == *final(r),
    {
        &mut self.datastore
    }
}

/// Whether an outcome is fatal for the scenario.
pub open spec fn is_termination_outcome(x: UserResult) -> bool {
    x matches Err(Error::TerminationError(_))
}

/// Whether a batch of iteration outcomes contains a fatal error, so that
/// the runner must cancel the scope and abort the remaining plan.
pub fn has_user_terminated(results: &Vec<UserResult>) -> (r: bool)
    ensures
        r == exists|i: int| 0 <= i < results@.len() && is_termination_outcome(#[trigger] results@[i]),
{
    let n = results.len();
    let mut i: usize = 0;
    while i < n
        invariant
            n == results@.len(),
            0 <= i <= n,
            forall|j: int| 0 <= j < i ==> !is_termination_outcome(#[trigger] results@[j]),
        decreases n - i,
    {
        match &results[i] {
            Err(Error::TerminationError(_)) => {
                return true;
            },
            _ => {},
        }
        i += 1;
    }
    false
}

/// What the runner does between scenarios.
pub open spec fn next_scenario_decision(s: RunState) -> Option<usize> {
    if s.terminated || s.next == s.total {
        None
    } else {
        Some(s.next)
    }
}

/// The runner's sequencing state: which scenario comes next, and whether a
/// fatal error has been observed.
pub struct RunState {
    pub total: usize,
    pub next: usize,
    pub terminated: bool,
}

impl RunState {
    /// The sequencing invariant.
    pub open spec fn wf(&self) -> bool {
        self.next <= self.total
    }

    /// Fresh sequencing state for `total` scenarios.
    pub fn new(total: usize) -> (r: RunState)
        ensures
            r.wf(),
            r.total == total,
            r.next == 0usize,
            !r.terminated,
    {
        RunState { total, next: 0, terminated: false }
    }

    /// The index of the scenario to run next, or `None` when the plan is
    /// exhausted or a fatal error was observed.
    pub fn next_scenario(&mut self) -> (r: Option<usize>)
        requires
            old(self).wf(),
        ensures
            final(self).wf(),
            final(self).total == old(self).total,
            final(self).terminated == old(self).terminated,
            r == next_scenario_decision(*old(self)),
            r is None ==> *final(self) == *old(self),
            r is Some ==> final(self).next == old(self).next + 1,
    {
        if self.terminated || self.next == self.total {
            None
        } else {
            let i = self.next;
            self.next = self.next + 1;
            Some(i)
        }
    }

    /// Record whether the scenario that just finished observed a fatal
    /// error.  Once set, termination is never cleared.
    pub fn scenario_finished(&mut self, had_termination: bool)
        requires
            old(self).wf(),
        ensures
            final(self).wf(),
            final(self).total == old(self).total,
            final(self).next == old(self).next,
            final(self).terminated == (old(self).terminated || had_termination),
    {
        if had_termination {
            self.terminated = true;
        }
    }
}

/// A single fatal outcome aborts the remaining plan: once the sequencing
/// state records a termination, no subsequent scenario is ever started —
/// `next_scenario` answers `None` from then on, and no transition clears
/// the flag.
pub proof fn lemma_termination_stops_runner(s: RunState)
    requires
        s.terminated,
    ensures
        next_scenario_decision(s) is None,
{
}

} // verus!
