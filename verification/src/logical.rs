//! The logical description of a load test: executor configurations,
//! execution plans and scenarios.
//!
//! All durations are in milliseconds.

use vstd::prelude::*;
use crate::strutil::{spec_udec, spec_digit, usize_to_string, u64_to_string, digit_str};

verus! {

/// Up to `.0` iteration starts per window of `.1` milliseconds.
#[derive(Debug, Clone, Copy, PartialEq, Eq, Structural)]
pub struct Rate(pub usize, pub u64);

/// The fractional-second digits of a sub-second remainder, with trailing
/// zeros trimmed: `500` reads `5`, `50` reads `05`, `505` reads `505`.
pub open spec fn spec_frac3(f: int) -> Seq<char> {
    if f % 10 != 0 {
        seq![spec_digit(f / 100), spec_digit((f / 10) % 10), spec_digit(f % 10)]
    } else if f % 100 != 0 {
        seq![spec_digit(f / 100), spec_digit((f / 10) % 10)]
    } else {
        seq![spec_digit(f / 100)]
    }
}

/// The label of a duration given in milliseconds: whole seconds as `Ns`,
/// fractional seconds as `N.Fs` with trailing zeros trimmed, sub-second
/// values as `Nms`, and zero as `0ns`.
pub open spec fn spec_duration_label(ms: int) -> Seq<char> {
    if ms == 0 {
        "0ns"@
    } else if ms < 1000 {
        spec_udec(ms) + "ms"@
    } else if ms % 1000 == 0 {
        spec_udec(ms / 1000) + "s"@
    } else {
        spec_udec(ms / 1000) + "."@ + spec_frac3(ms % 1000) + "s"@
    }
}

/// Render the label of a duration given in milliseconds.
pub fn duration_label(ms: u64) -> (s: String)
    ensures
        s@ == spec_duration_label(ms as int),
{
    if ms == 0 {
        let s = String::from_str("0ns");
        s
    } else if ms < 1000 {
        let mut s = u64_to_string(ms);
        s.append("ms");
        s
    } else if ms % 1000 == 0 {
        let mut s = u64_to_string(ms / 1000);
        s.append("s");
        s
    } else {
        let mut s = u64_to_string(ms / 1000);
        s.append(".");
        let f = ms % 1000;
        let d1 = (f / 100) as usize;
        let d2 = ((f / 10) % 10) as usize;
        let d3 = (f % 10) as usize;
        s.append(digit_str(d1));
        if f % 10 != 0 {
            s.append(digit_str(d2));
            s.append(digit_str(d3));
        } else if f % 100 != 0 {
            s.append(digit_str(d2));
        }
        s.append("s");
        proof {
            assert(s@ =~= spec_duration_label(ms as int));
        }
        s
    }
}

/// A configuration for one executor: the load-shaping discipline and its
/// parameters.
#[derive(Debug, Clone)]
pub enum Executor {
    /// Start one user, run its operation exactly once.
    Once,
    /// `users` virtual users loop continuously until `duration_ms` elapses.
    Constant { users: usize, duration_ms: u64 },
    /// `users` virtual users race to consume `iterations` total operations,
    /// or stop at `duration_ms`, whichever comes first.
    Shared { users: usize, iterations: usize, duration_ms: u64 },
    /// Each of `users` virtual users performs exactly `iterations`
    /// operations; no time bound.
    PerUser { users: usize, iterations: usize },
    /// Open-model load at a constant rate: one stage of
    /// `RampingArrivalRate`.
    ConstantArrivalRate { pre_allocate_users: usize, rate: Rate, max_users: usize, duration_ms: u64 },
    /// The user count steps to each stage's target; operations run
    /// continuously within each stage.
    RampingUser { pre_allocate_users: usize, stages: Vec<(u64, usize)> },
    /// Open-model load: start operations at each stage's rate regardless of
    /// the in-flight count, up to `max_users` concurrent user slots.
    RampingArrivalRate { pre_allocate_users: usize, max_users: usize, stages: Vec<(Rate, u64)> },
}

/// The label of a rate: the count, a slash, and the window's duration
/// label.
pub open spec fn spec_rate_label(r: Rate) -> Seq<char> {
    spec_udec(r.0 as int) + "/"@ + spec_duration_label(r.1 as int)
}

/// The default label of an executor configuration.
pub open spec fn spec_executor_label(e: Executor) -> Seq<char> {
    match e {
        Executor::Once => "Once"@,
        Executor::Constant { users, duration_ms } => "Constant ("@ + spec_udec(users as int)
            + " users) "@ + spec_duration_label(duration_ms as int),
        Executor::Shared { users, iterations, duration_ms } => "Shared ("@ + spec_udec(
            users as int,
        ) + " users) "@ + spec_udec(iterations as int),
        Executor::PerUser { users, iterations } => "PerUser ("@ + spec_udec(users as int)
            + " users) "@ + spec_udec(iterations as int),
        Executor::ConstantArrivalRate { rate, duration_ms, .. } => "ConstantArrivalRate "@
            + spec_rate_label(rate) + " for "@ + spec_duration_label(duration_ms as int),
        Executor::RampingUser { stages, .. } => "RampingUser ("@ + spec_udec(stages.len() as int)
            + " stages)"@,
        Executor::RampingArrivalRate { stages, .. } => "RampingArrivalRate ("@ + spec_udec(
            stages.len() as int,
        ) + ", stages)"@,
    }
}

/// Render the label of a rate.
pub fn rate_label(r: &Rate) -> (s: String)
    ensures
        s@ == spec_rate_label(*r),
{
    let mut s = usize_to_string(r.0);
    s.append("/");
    let w = duration_label(r.1);
    s.append(w.as_str());
    s
}

/// Render the default label of an executor configuration.
pub fn executor_label(e: &Executor) -> (s: String)
    ensures
        s@ == spec_executor_label(*e),
{
    match e {
        Executor::Once => {
            let s = String::from_str("Once");
            s
        },
        Executor::Constant { users, duration_ms } => {
            let mut s = String::from_str("Constant (");
            s.append(usize_to_string(*users).as_str());
            s.append(" users) ");
            s.append(duration_label(*duration_ms).as_str());
            s
        },
        Executor::Shared { users, iterations, duration_ms } => {
            let mut s = String::from_str("Shared (");
            s.append(usize_to_string(*users).as_str());
            s.append(" users) ");
            s.append(usize_to_string(*iterations).as_str());
            s
        },
        Executor::PerUser { users, iterations } => {
            let mut s = String::from_str("PerUser (");
            s.append(usize_to_string(*users).as_str());
            s.append(" users) ");
            s.append(usize_to_string(*iterations).as_str());
            s
        },
        Executor::ConstantArrivalRate { rate, duration_ms, .. } => {
            let mut s = String::from_str("ConstantArrivalRate ");
            s.append(rate_label(rate).as_str());
            s.append(" for ");
            s.append(duration_label(*duration_ms).as_str());
            s
        },
        Executor::RampingUser { stages, .. } => {
            let mut s = String::from_str("RampingUser (");
            s.append(usize_to_string(stages.len()).as_str());
            s.append(" stages)");
            s
        },
        Executor::RampingArrivalRate { stages, .. } => {
            let mut s = String::from_str("RampingArrivalRate (");
            s.append(usize_to_string(stages.len()).as_str());
            s.append(", stages)");
            s
        },
    }
}

/// Something that can provide one execution: a label for display and the
/// delay and configuration the runner schedules it with.
pub trait ExecutionProvider {
    /// The label shown for this execution.
    fn label(&self) -> String;

    /// The delay before the runner spawns this execution, in milliseconds.
    fn start_after_ms(&self) -> u64;
}

/// One execution within a scenario: an executor configuration together with
/// an optional label and a start delay.  The user builder and the data-store
/// initializers that accompany a plan live with the asynchronous runtime,
/// which pairs them with the plan by position.
#[derive(Debug, Clone)]
pub struct ExecutionPlan {
    pub label: Option<String>,
    pub executor: Executor,
    pub start_after_ms: u64,
}

impl ExecutionPlan {
    /// A plan from its parts.
    pub fn new(label: Option<String>, executor: Executor) -> (r: ExecutionPlan)
        ensures
            r.label == label,
            r.executor == executor,
            r.start_after_ms == 0u64,
    {
        ExecutionPlan { label, executor, start_after_ms: 0 }
    }

    /// An unlabelled plan running `Once`, to be refined by the `with_*`
    /// methods.
    pub fn builder() -> (r: ExecutionPlan)
        ensures
            r.label is None,
            r.executor is Once,
            r.start_after_ms == 0u64,
    {
        ExecutionPlan { label: None, executor: Executor::Once, start_after_ms: 0 }
    }

    /// Set the label.
    pub fn with_label(&mut self, label: String)
        ensures
            final(self).label == Some(label),
            final(self).executor == old(self).executor,
            final(self).start_after_ms == old(self).start_after_ms,
    {
        self.label = Some(label);
    }

    /// Replace the executor configuration.
    pub fn with_executor(self, executor: Executor) -> (r: ExecutionPlan)
        ensures
            r.label == self.label,
            r.executor == executor,
            r.start_after_ms == self.start_after_ms,
    {
        ExecutionPlan { label: self.label, executor, start_after_ms: self.start_after_ms }
    }

    /// Replace the start delay.
    pub fn with_start_after(self, start_after_ms: u64) -> (r: ExecutionPlan)
        ensures
            r.label == self.label,
            r.executor == self.executor,
            r.start_after_ms == start_after_ms,
    {
        ExecutionPlan { label: self.label, executor: self.executor, start_after_ms }
    }

    /// The label of this plan: the explicit one if set, else a description
    /// of the executor configuration.
    pub fn plan_label(&self) -> (s: String)
        ensures
            s@ == match self.label {
                Some(l) => l@,
                None => spec_executor_label(self.executor),
            },
    {
        match &self.label {
            Some(l) => l.clone(),
            None => executor_label(&self.executor),
        }
    }
}

impl ExecutionProvider for ExecutionPlan {
    /// The label shown for this execution.
    fn label(&self) -> String {
        self.plan_label()
    }

    /// The delay before the runner spawns this execution.
    fn start_after_ms(&self) -> u64 {
        self.start_after_ms
    }
}

/// An ordered sequence of executions run under one name.
#[derive(Debug, Clone)]
pub struct Scenario {
    pub label: String,
    pub execution_provider: Vec<ExecutionPlan>,
}

impl Scenario {
    /// A scenario with one execution.
    pub fn new(label: String, execution: ExecutionPlan) -> (r: Scenario)
        ensures
            r.label == label,
            r.execution_provider@ == seq![execution],
    {
        let mut execution_provider: Vec<ExecutionPlan> = Vec::new();
        execution_provider.push(execution);
        proof {
            assert(execution_provider@ =~= seq![execution]);
        }
        Scenario { label, execution_provider }
    }

    /// Append one more execution to the scenario.
    pub fn with_executor(self, execution: ExecutionPlan) -> (r: Scenario)
        ensures
            r.label == self.label,
            r.execution_provider@ == self.execution_provider@.push(execution),
    {
        let mut s = self;
        s.execution_provider.push(execution);
        s
    }
}

} // verus!
