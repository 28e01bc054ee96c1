use rusher::data::RuntimeDataStore;
use rusher::display::{padding, App, Scenario as DisplayScenario};
use rusher::error::Error;
use rusher::logical::{duration_label, executor_label, rate_label, ExecutionPlan, Executor, Rate, Scenario};
use rusher::pool::UserPool;
use rusher::runner::{has_user_terminated, ExecutionRuntimeCtx, RunState, Runner};
use rusher::strutil::{u64_to_string, usize_to_string};
use rusher::telemetry::message::Message;

#[test]
fn decimal_rendering() {
    assert_eq!(usize_to_string(0), "0");
    assert_eq!(usize_to_string(907), "907");
    assert_eq!(u64_to_string(u64::MAX), "18446744073709551615");
}

#[test]
fn duration_labels_match_debug_form() {
    assert_eq!(duration_label(0), "0ns");
    assert_eq!(duration_label(500), "500ms");
    assert_eq!(duration_label(1_000), "1s");
    assert_eq!(duration_label(1_500), "1.5s");
    assert_eq!(duration_label(1_050), "1.05s");
    assert_eq!(duration_label(1_005), "1.005s");
    assert_eq!(duration_label(61_000), "61s");
    assert_eq!(
        format!("{:?}", std::time::Duration::from_millis(1_050)),
        duration_label(1_050)
    );
    assert_eq!(
        format!("{:?}", std::time::Duration::from_millis(500)),
        duration_label(500)
    );
    assert_eq!(
        format!("{:?}", std::time::Duration::from_millis(5_000)),
        duration_label(5_000)
    );
}

#[test]
fn executor_labels() {
    assert_eq!(executor_label(&Executor::Once), "Once");
    assert_eq!(
        executor_label(&Executor::Constant { users: 2, duration_ms: 5_000 }),
        "Constant (2 users) 5s"
    );
    assert_eq!(
        executor_label(&Executor::Constant { users: 2, duration_ms: 250 }),
        "Constant (2 users) 250ms"
    );
    assert_eq!(
        executor_label(&Executor::Shared { users: 3, iterations: 7, duration_ms: 1_000 }),
        "Shared (3 users) 7"
    );
    assert_eq!(
        executor_label(&Executor::PerUser { users: 2, iterations: 4 }),
        "PerUser (2 users) 4"
    );
    assert_eq!(rate_label(&Rate(10, 1_000)), "10/1s");
    assert_eq!(rate_label(&Rate(3, 250)), "3/250ms");
    assert_eq!(
        executor_label(&Executor::ConstantArrivalRate {
            pre_allocate_users: 5,
            rate: Rate(10, 1_000),
            max_users: 20,
            duration_ms: 5_000,
        }),
        "ConstantArrivalRate 10/1s for 5s"
    );
    assert_eq!(
        executor_label(&Executor::RampingUser {
            pre_allocate_users: 1,
            stages: vec![(2_000, 1), (2_000, 5), (2_000, 3)],
        }),
        "RampingUser (3 stages)"
    );
    assert_eq!(
        executor_label(&Executor::RampingArrivalRate {
            pre_allocate_users: 1,
            max_users: 4,
            stages: vec![(Rate(1, 100), 1_000), (Rate(2, 100), 1_000)],
        }),
        "RampingArrivalRate (2, stages)"
    );
}

#[test]
fn plan_builder_and_labels() {
    let mut plan = ExecutionPlan::builder();
    plan.with_label("warmup".to_string());
    let plan = plan.with_executor(Executor::PerUser { users: 1, iterations: 1 });
    assert_eq!(plan.plan_label(), "warmup");
    let unlabelled =
        ExecutionPlan::new(None, Executor::Constant { users: 1, duration_ms: 100 });
    assert_eq!(unlabelled.plan_label(), "Constant (1 users) 100ms");
    assert_eq!(unlabelled.start_after_ms, 0);
    let delayed = unlabelled.with_start_after(250);
    assert_eq!(delayed.start_after_ms, 250);
}

#[test]
fn scenario_collects_plans() {
    let a = ExecutionPlan::new(None, Executor::Once);
    let b = ExecutionPlan::new(None, Executor::PerUser { users: 1, iterations: 2 });
    let s = Scenario::new("smoke".to_string(), a).with_executor(b);
    assert_eq!(s.label, "smoke");
    assert_eq!(s.execution_provider.len(), 2);
}

#[test]
fn runner_flags() {
    let s = Scenario::new("only".to_string(), ExecutionPlan::new(None, Executor::Once));
    let r = Runner::new(vec![s]);
    assert!(!r.enable_tui);
    assert!(!r.enable_web);
    let r = r.enable_tui(true).enable_web(true);
    assert!(r.enable_tui);
    assert!(r.enable_web);
    assert_eq!(r.scenarios().len(), 1);
}

#[test]
fn datastore_one_value_per_type() {
    let mut ctx = ExecutionRuntimeCtx::new();
    let store: &mut RuntimeDataStore = ctx.datastore_mut();
    store.insert(1, 10);
    store.insert(2, 20);
    assert_eq!(store.get(1), Some(10));
    assert_eq!(store.get(2), Some(20));
    assert_eq!(store.get(3), None);
    store.insert(1, 30);
    assert_eq!(store.get(1), Some(30));
    assert_eq!(store.len(), 2);
}

#[test]
fn termination_is_fatal_generic_is_not() {
    let ok_only: Vec<Result<(), Error>> = vec![Ok(()), Ok(())];
    assert!(!has_user_terminated(&ok_only));
    let generic: Vec<Result<(), Error>> =
        vec![Ok(()), Err(Error::generic("boom".to_string()))];
    assert!(!has_user_terminated(&generic));
    let fatal: Vec<Result<(), Error>> =
        vec![Ok(()), Err(Error::termination("fatal".to_string()))];
    assert!(has_user_terminated(&fatal));
    assert!(Error::termination("x".to_string()).is_termination());
    assert!(!Error::generic("x".to_string()).is_termination());
    assert_eq!(Error::generic("boom".to_string()).message(), "boom");
}

#[test]
fn termination_aborts_remaining_scenarios() {
    let mut state = RunState::new(2);
    assert_eq!(state.next_scenario(), Some(0));
    // the first scenario observes a fatal outcome
    let outcomes: Vec<Result<(), Error>> =
        vec![Ok(()), Err(Error::termination("fatal".to_string()))];
    state.scenario_finished(has_user_terminated(&outcomes));
    // the second scenario is never started
    assert_eq!(state.next_scenario(), None);
    assert_eq!(state.next_scenario(), None);
}

#[test]
fn run_state_walks_scenarios_in_order() {
    let mut state = RunState::new(2);
    assert_eq!(state.next_scenario(), Some(0));
    state.scenario_finished(false);
    assert_eq!(state.next_scenario(), Some(1));
    state.scenario_finished(false);
    assert_eq!(state.next_scenario(), None);
}

#[test]
fn pool_grants_are_exclusive() {
    let mut p = UserPool::new(3);
    assert!(p.try_acquire(1));
    assert!(!p.try_acquire(1));
    assert_eq!(p.busy_count(), 1);
    assert_eq!(p.acquire_from(2), Some(2));
    assert_eq!(p.acquire_from(2), Some(0));
    assert_eq!(p.acquire_from(2), None);
    p.release(1);
    assert_eq!(p.busy_count(), 2);
    assert!(p.try_acquire(1));
    p.grow(2);
    assert_eq!(p.len(), 5);
    assert!(!p.is_busy(3));
}

#[test]
fn display_tracks_task_times_and_counts() {
    let plan = ExecutionPlan::new(None, Executor::Constant { users: 2, duration_ms: 5_000 });
    let logical = Scenario::new("s".to_string(), plan);
    let mut d = DisplayScenario::new_from_scenario(&logical);
    assert_eq!(d.exec_names(), vec!["Constant (2 users) 5s".to_string()]);

    d.update(&Message::TaskTime { execution_id: 0, scenario_id: 0, duration_ms: 30 });
    d.update(&Message::TaskTime { execution_id: 0, scenario_id: 0, duration_ms: 10 });
    d.update(&Message::ExecutorUpdate {
        id: 0,
        users: 2,
        max_users: 2,
        total_iteration: Some(100),
        total_duration_ms: Some(5_000),
        stage: None,
        stage_duration_ms: None,
        stages: None,
        metrics: vec![],
    });
    let e = &d.execs[0];
    assert_eq!(e.iterations, 2);
    assert_eq!(e.task_min_time_ms, 10);
    assert_eq!(e.task_max_time_ms, 30);
    assert_eq!(e.task_total_time_ms, 40);
    assert_eq!(e.users, 2);
    assert_eq!(e.total_iteration, Some(100));

    // a message for an unknown executor changes nothing
    d.update(&Message::TaskTime { execution_id: 9, scenario_id: 0, duration_ms: 1 });
    assert_eq!(d.execs[0].iterations, 2);
}

#[test]
fn app_navigation_and_termination() {
    let plan = ExecutionPlan::new(None, Executor::Once);
    let s0 = DisplayScenario::new_from_scenario(&Scenario::new(
        "one".to_string(),
        plan.clone(),
    ));
    let s1 = DisplayScenario::new_from_scenario(
        &Scenario::new("two".to_string(), plan.clone()).with_executor(plan),
    );
    let mut app = App::new(vec![s0, s1]);
    assert_eq!(app.current_scenario().name, "one");
    app.key_up();
    assert_eq!(app.current_exec, 0);
    assert!(!app.on_message(&Message::ScenarioChanged { scenario_id: 1 }));
    assert_eq!(app.current_scenario().name, "two");
    app.key_up();
    assert_eq!(app.current_exec, 1);
    app.key_up();
    assert_eq!(app.current_exec, 1);
    app.key_down();
    assert_eq!(app.current_exec, 0);
    app.key_down();
    assert_eq!(app.current_exec, 0);
    assert!(!app.on_message(&Message::TaskTime {
        execution_id: 0,
        scenario_id: 1,
        duration_ms: 5,
    }));
    assert_eq!(app.current_exec().iterations, 1);
    assert!(app.on_message(&Message::End));
}

#[test]
fn padding_is_spaces() {
    assert_eq!(padding(0), "");
    assert_eq!(padding(3), "   ");
}
