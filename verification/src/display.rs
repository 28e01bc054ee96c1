//! The display consumer's state: what a renderer tracks while reading the
//! message stream.
//!
//! The renderer itself (terminal or web) is outside the engine; this module
//! holds the state it accumulates — current scenario, per-executor counts
//! and task-time statistics — and how each message changes it.

use vstd::prelude::*;
use crate::logical;
use crate::telemetry::message::Message;

verus! {

/// Addition capped at the top of the `u64` range.
pub open spec fn spec_sat_add(a: u64, b: u64) -> u64 {
    if a + b <= u64::MAX {
        (a + b) as u64
    } else {
        u64::MAX
    }
}

/// What the display tracks for one executor.
#[derive(Debug, Clone)]
pub struct ExecutorState {
    pub name: String,
    pub users: u64,
    pub max_users: u64,
    pub iterations: u64,
    pub total_iteration: Option<u64>,
    pub total_duration_ms: Option<u64>,
    pub stage: Option<usize>,
    pub stage_duration_ms: Option<u64>,
    pub stages: Option<usize>,
    pub task_min_time_ms: u64,
    pub task_max_time_ms: u64,
    pub task_total_time_ms: u64,
}

impl ExecutorState {
    /// A fresh state under the given name, with every statistic at zero.
    pub fn new(name: String) -> (r: ExecutorState)
        ensures
            r.name == name,
            r.users == 0u64,
            r.max_users == 0u64,
            r.iterations == 0u64,
            r.total_iteration is None,
            r.total_duration_ms is None,
            r.stage is None,
            r.stage_duration_ms is None,
            r.stages is None,
            r.task_min_time_ms == 0u64,
            r.task_max_time_ms == 0u64,
            r.task_total_time_ms == 0u64,
    {
        ExecutorState {
            name,
            users: 0,
            max_users: 0,
            iterations: 0,
            total_iteration: None,
            total_duration_ms: None,
            stage: None,
            stage_duration_ms: None,
            stages: None,
            task_min_time_ms: 0,
            task_max_time_ms: 0,
            task_total_time_ms: 0,
        }
    }

    /// Fold one finished iteration's time into the statistics: the maximum
    /// and minimum observed times and the saturating running total, with
    /// zero standing for "no time observed yet" in the minimum.
    pub fn record_task_time(&mut self, duration_ms: u64)
        ensures
            final(self).name == old(self).name,
            final(self).users == old(self).users,
            final(self).max_users == old(self).max_users,
            final(self).total_iteration == old(self).total_iteration,
            final(self).total_duration_ms == old(self).total_duration_ms,
            final(self).stage == old(self).stage,
            final(self).stage_duration_ms == old(self).stage_duration_ms,
            final(self).stages == old(self).stages,
            final(self).iterations == spec_sat_add(old(self).iterations, 1),
            final(self).task_max_time_ms == if duration_ms > old(self).task_max_time_ms {
                duration_ms
            } else {
                old(self).task_max_time_ms
            },
            final(self).task_min_time_ms == if old(self).task_min_time_ms == 0 {
                duration_ms
            } else if duration_ms < old(self).task_min_time_ms {
                duration_ms
            } else {
                old(self).task_min_time_ms
            },
            final(self).task_total_time_ms == spec_sat_add(
                old(self).task_total_time_ms,
                duration_ms,
            ),
    {
        if duration_ms > self.task_max_time_ms {
            self.task_max_time_ms = duration_ms;
        }
        if self.task_min_time_ms == 0 {
            self.task_min_time_ms = duration_ms;
        } else if duration_ms < self.task_min_time_ms {
            self.task_min_time_ms = duration_ms;
        }
        if duration_ms <= u64::MAX - self.task_total_time_ms {
            self.task_total_time_ms = self.task_total_time_ms + duration_ms;
        } else {
            self.task_total_time_ms = u64::MAX;
        }
        if self.iterations < u64::MAX {
            self.iterations = self.iterations + 1;
        }
    }
}

/// What the display tracks for one scenario: its name and one state per
/// executor, in plan order.
pub struct Scenario {
    pub name: String,
    pub execs: Vec<ExecutorState>,
}

impl Scenario {
    /// Fresh display state for a logical scenario: one zeroed executor
    /// state per execution plan, named by the plan's label.
    pub fn new_from_scenario(scenario: &logical::Scenario) -> (r: Scenario)
        ensures
            r.name == scenario.label,
            r.execs@.len() == scenario.execution_provider@.len(),
            forall|i: int|
                0 <= i < r.execs@.len() ==> (#[trigger] r.execs@[i]).name@ == match scenario.execution_provider@[i].label {
                    Some(l) => l@,
                    None => logical::spec_executor_label(scenario.execution_provider@[i].executor),
                },
            forall|i: int|
                0 <= i < r.execs@.len() ==> (#[trigger] r.execs@[i]).iterations == 0u64 && r.execs@[i].task_total_time_ms
                    == 0u64 && r.execs@[i].task_min_time_ms == 0u64 && r.execs@[i].task_max_time_ms
                    == 0u64,
    {
        let mut execs: Vec<ExecutorState> = Vec::new();
        let n = scenario.execution_provider.len();
        let mut i: usize = 0;
        while i < n
            invariant
                0 <= i <= n,
                n == scenario.execution_provider@.len(),
                execs@.len() == i,
                forall|j: int|
                    0 <= j < i ==> (#[trigger] execs@[j]).name@ == match scenario.execution_provider@[j].label {
                        Some(l) => l@,
                        None => logical::spec_executor_label(
                            scenario.execution_provider@[j].executor,
                        ),
                    },
                forall|j: int|
                    0 <= j < i ==> (#[trigger] execs@[j]).iterations == 0u64 && execs@[j].task_total_time_ms
                        == 0u64 && execs@[j].task_min_time_ms == 0u64 && execs@[j].task_max_time_ms
                        == 0u64,
            decreases n - i,
        {
            let name = scenario.execution_provider[i].plan_label();
            execs.push(ExecutorState::new(name));
            i += 1;
        }
        Scenario { name: scenario.label.clone(), execs }
    }

    /// The executor names shown beside the scenario, in plan order.
    pub fn exec_names(&self) -> (r: Vec<String>)
        ensures
            r@.len() == self.execs@.len(),
            forall|i: int| 0 <= i < r@.len() ==> (#[trigger] r@[i])@ == self.execs@[i].name@,
    {
        let mut r: Vec<String> = Vec::new();
        let n = self.execs.len();
        let mut i: usize = 0;
        while i < n
            invariant
                0 <= i <= n,
                n == self.execs@.len(),
                r@.len() == i,
                forall|j: int| 0 <= j < i ==> (#[trigger] r@[j])@ == self.execs@[j].name@,
            decreases n - i,
        {
            r.push(self.execs[i].name.clone());
            i += 1;
        }
        r
    }

    /// Fold one message into the per-executor states: a `TaskTime` updates
    /// the timing statistics of the executor it belongs to, an
    /// `ExecutorUpdate` overwrites the counts and stage information;
    /// messages for unknown executors and all other messages change
    /// nothing.
    pub fn update(&mut self, message: &Message)
        ensures
            final(self).name == old(self).name,
            final(self).execs@.len() == old(self).execs@.len(),
            match *message {
                Message::TaskTime { execution_id, duration_ms, .. } => {
                    if execution_id < old(self).execs@.len() {
                        &&& forall|i: int|
                            0 <= i < old(self).execs@.len() && i != execution_id
                                ==> #[trigger] final(self).execs@[i] == old(self).execs@[i]
                        &&& ({
                            let e0 = old(self).execs@[execution_id as int];
                            let e1 = final(self).execs@[execution_id as int];
                            &&& e1.name == e0.name
                            &&& e1.iterations == spec_sat_add(e0.iterations, 1)
                            &&& e1.task_max_time_ms == if duration_ms > e0.task_max_time_ms {
                                duration_ms
                            } else {
                                e0.task_max_time_ms
                            }
                            &&& e1.task_min_time_ms == if e0.task_min_time_ms == 0 {
                                duration_ms
                            } else if duration_ms < e0.task_min_time_ms {
                                duration_ms
                            } else {
                                e0.task_min_time_ms
                            }
                            &&& e1.task_total_time_ms == spec_sat_add(
                                e0.task_total_time_ms,
                                duration_ms,
                            )
                        })
                    } else {
                        final(self).execs@ == old(self).execs@
                    }
                },
                Message::ExecutorUpdate {
                    id,
                    users,
                    max_users,
                    total_iteration,
                    total_duration_ms,
                    stage,
                    stage_duration_ms,
                    stages,
                    ..
                } => {
                    if id < old(self).execs@.len() {
                        &&& forall|i: int|
                            0 <= i < old(self).execs@.len() && i != id ==> #[trigger] final(
                            self).execs@[i] == old(self).execs@[i]
                        &&& ({
                            let e0 = old(self).execs@[id as int];
                            let e1 = final(self).execs@[id as int];
                            &&& e1.name == e0.name
                            &&& e1.users == users
                            &&& e1.max_users == max_users
                            &&& e1.total_iteration == total_iteration
                            &&& e1.total_duration_ms == total_duration_ms
                            &&& e1.stage == stage
                            &&& e1.stage_duration_ms == stage_duration_ms
                            &&& e1.stages == stages
                            &&& e1.iterations == e0.iterations
                            &&& e1.task_min_time_ms == e0.task_min_time_ms
                            &&& e1.task_max_time_ms == e0.task_max_time_ms
                            &&& e1.task_total_time_ms == e0.task_total_time_ms
                        })
                    } else {
                        final(self).execs@ == old(self).execs@
                    }
                },
                _ => final(self).execs@ == old(self).execs@,
            },
    {
        match message {
            Message::TaskTime { execution_id, duration_ms, .. } => {
                let id = *execution_id;
                if id < self.execs.len() {
                    let ghost e0 = self.execs@;
                    let e = vstd::std_specs::vec::vec_index_mut(&mut self.execs, id);
                    e.record_task_time(*duration_ms);
                }
            },
            Message::ExecutorUpdate {
                id,
                users,
                max_users,
                total_iteration,
                total_duration_ms,
                stage,
                stage_duration_ms,
                stages,
                ..
            } => {
                let i = *id;
                if i < self.execs.len() {
                    let e = vstd::std_specs::vec::vec_index_mut(&mut self.execs, i);
                    e.users = *users;
                    e.max_users = *max_users;
                    e.total_iteration = *total_iteration;
                    e.total_duration_ms = *total_duration_ms;
                    e.stage = *stage;
                    e.stage_duration_ms = *stage_duration_ms;
                    e.stages = *stages;
                }
            },
            _ => {},
        }
    }
}

/// The whole display state: every scenario's state and which scenario and
/// executor are currently shown.
pub struct App {
    pub current_scenario: usize,
    pub current_exec: usize,
    pub scenarios: Vec<Scenario>,
}

impl App {
    /// The display's invariant: the cursor always points at a scenario and
    /// at one of its executors.
    pub open spec fn wf(&self) -> bool {
        &&& self.scenarios@.len() > 0
        &&& self.current_scenario < self.scenarios@.len()
        &&& forall|i: int|
            0 <= i < self.scenarios@.len() ==> (#[trigger] self.scenarios@[i]).execs@.len() > 0
        &&& self.current_exec < self.scenarios@[self.current_scenario as int].execs@.len()
    }

    /// A display over the given scenarios, showing the first executor of
    /// the first scenario.
    pub fn new(scenarios: Vec<Scenario>) -> (r: App)
        requires
            scenarios@.len() > 0,
            forall|i: int| 0 <= i < scenarios@.len() ==> (#[trigger] scenarios@[i]).execs@.len() > 0,
        ensures
            r.wf(),
            r.scenarios == scenarios,
            r.current_scenario == 0usize,
            r.current_exec == 0usize,
    {
        App { current_scenario: 0, current_exec: 0, scenarios }
    }

    /// The scenario currently shown.
    pub fn current_scenario(&self) -> (r: &Scenario)
        requires
            self.wf(),
        ensures
            r == &self.scenarios@[self.current_scenario as int],
    {
        &self.scenarios[self.current_scenario]
    }

    /// The executor currently shown.
    pub fn current_exec(&self) -> (r: &ExecutorState)
        requires
            self.wf(),
        ensures
            r == &self.scenarios@[self.current_scenario as int].execs@[self.current_exec as int],
    {
        &self.scenarios[self.current_scenario].execs[self.current_exec]
    }

    /// Move the executor cursor up, stopping at the last executor.
    pub fn key_up(&mut self)
        requires
            old(self).wf(),
        ensures
            final(self).wf(),
            final(self).scenarios == old(self).scenarios,
            final(self).current_scenario == old(self).current_scenario,
            final(self).current_exec == if old(self).current_exec + 1 < old(self).scenarios@[old(
                self,
            ).current_scenario as int].execs@.len() {
                old(self).current_exec + 1
            } else {
                old(self).scenarios@[old(self).current_scenario as int].execs@.len() - 1
            },
    {
        let len = self.scenarios[self.current_scenario].execs.len();
        if self.current_exec + 1 < len {
            self.current_exec = self.current_exec + 1;
        } else {
            self.current_exec = len - 1;
        }
    }

    /// Move the executor cursor down, stopping at the first executor.
    pub fn key_down(&mut self)
        requires
            old(self).wf(),
        ensures
            final(self).wf(),
            final(self).scenarios == old(self).scenarios,
            final(self).current_scenario == old(self).current_scenario,
            final(self).current_exec == if old(self).current_exec > 0 {
                (old(self).current_exec - 1) as usize
            } else {
                0usize
            },
    {
        if self.current_exec > 0 {
            self.current_exec = self.current_exec - 1;
        }
    }

    /// Fold one message into the display state.  Returns `true` exactly on
    /// `End`, when the display should terminate.
    pub fn on_message(&mut self, message: &Message) -> (quit: bool)
        requires
            old(self).wf(),
            *message matches Message::ScenarioChanged { scenario_id } ==> scenario_id < old(
                self,
            ).scenarios@.len(),
        ensures
            final(self).wf(),
            quit == (*message is End),
            match *message {
                Message::ScenarioChanged { scenario_id } => {
                    &&& final(self).current_scenario == scenario_id
                    &&& final(self).current_exec == 0usize
                    &&& final(self).scenarios == old(self).scenarios
                },
                Message::End => *final(self) == *old(self),
                _ => {
                    &&& final(self).current_scenario == old(self).current_scenario
                    &&& final(self).current_exec == old(self).current_exec
                    &&& final(self).scenarios@.len() == old(self).scenarios@.len()
                },
            },
    {
        match message {
            Message::ScenarioChanged { scenario_id } => {
                self.current_scenario = *scenario_id;
                self.current_exec = 0;
                false
            },
            Message::End => true,
            _ => {
                let cs = self.current_scenario;
                let ghost sc0 = self.scenarios@;
                let s = vstd::std_specs::vec::vec_index_mut(&mut self.scenarios, cs);
                s.update(message);
                proof {
                    assert(self.scenarios@[cs as int].execs@.len() == sc0[cs as int].execs@.len());
                    assert forall|i: int|
                        0 <= i < self.scenarios@.len() implies (
                    #[trigger] self.scenarios@[i]).execs@.len() > 0 by {
                        if i != cs {
                            assert(self.scenarios@[i] == sc0[i]);
                        }
                    }
                }
                false
            },
        }
    }
}

/// A string of `n` spaces.
pub fn padding(n: usize) -> (r: String)
    ensures
        r@ == Seq::new(n as nat, |i: int| ' '),
{
    let mut r = String::new();
    let mut i: usize = 0;
    while i < n
        invariant
            0 <= i <= n,
            r@ == Seq::new(i as nat, |j: int| ' '),
        decreases n - i,
    {
        r.append(" ");
        proof {
            reveal_strlit(" ");
            assert(r@ =~= Seq::new((i + 1) as nat, |j: int| ' '));
        }
        i += 1;
    }
    r
}

} // verus!
