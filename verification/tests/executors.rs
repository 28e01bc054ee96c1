use rusher::executor::{
    Constant, DataExecutor, Directive, Once, PerUserIteration, RampingArrivalRate, RampingUser,
    SharedIterations,
};
use rusher::logical::{Executor, Rate};
use rusher::telemetry::bridge::TelemetryBridge;
use rusher::telemetry::message::Message;

/// Drain every in-flight completion at or before `until`, earliest first.
fn complete_due(
    m: &mut RampingArrivalRate,
    inflight: &mut Vec<(u64, usize)>,
    until: u64,
    now: &mut u64,
) {
    loop {
        let mut best: Option<usize> = None;
        for (i, (t, _)) in inflight.iter().enumerate() {
            if *t <= until {
                match best {
                    Some(b) if inflight[b].0 <= *t => {}
                    _ => best = Some(i),
                }
            }
        }
        match best {
            Some(i) => {
                let (t, user) = inflight.remove(i);
                if t > *now {
                    *now = t;
                }
                m.complete(user);
            }
            None => break,
        }
    }
}

#[test]
fn once_runs_exactly_one_iteration() {
    let mut m = Once::new();
    assert_eq!(m.poll(), Directive::Start { user: 0 });
    assert_eq!(m.poll(), Directive::WaitBusy);
    m.complete(0);
    assert_eq!(m.poll(), Directive::Done);
}

#[test]
fn per_user_iteration_count() {
    // Three users, four iterations each: exactly twelve starts.
    let mut m = PerUserIteration::new(3, 4);
    let mut starts = 0u64;
    loop {
        match m.poll() {
            Directive::Start { user } => {
                starts += 1;
                m.complete(user);
            }
            Directive::Done => break,
            d => panic!("unexpected directive {:?}", d),
        }
    }
    assert_eq!(starts, 12);
}

#[test]
fn shared_iterations_consume_budget_exactly() {
    // Two users race for ten iterations with a non-binding deadline.
    let mut m = SharedIterations::new(2, 10, 60_000);
    let now = 0u64;
    let mut completed = 0u64;
    loop {
        match m.poll(now) {
            Directive::Start { user } => {
                m.complete(user);
                completed += 1;
            }
            Directive::Done => break,
            d => panic!("unexpected directive {:?}", d),
        }
    }
    assert!(completed >= 10);
    assert!(completed <= 11);
    assert_eq!(completed, 10);
}

#[test]
fn constant_stops_at_deadline() {
    let mut m = Constant::new(4, 1_000);
    let mut now = 0u64;
    let mut started = 0u64;
    let mut busy: Vec<usize> = Vec::new();
    loop {
        match m.poll(now) {
            Directive::Start { user } => {
                started += 1;
                busy.push(user);
            }
            Directive::WaitBusy => {
                // each iteration takes 100 ms
                now += 100;
                for user in busy.drain(..) {
                    m.complete(user);
                }
            }
            Directive::Done => break,
            d => panic!("unexpected directive {:?}", d),
        }
    }
    assert!(now >= 1_000);
    assert!(started >= 4);
    // four drivers, ten 100 ms rounds
    assert_eq!(started, 40);
}

#[test]
fn constant_arrival_rate_paces_starts() {
    // 10 starts per second for 5 s with 200 ms operations: 50 starts, and
    // the pre-allocated pool of five users suffices, so it never grows.
    let mut m = match DataExecutor::new(Executor::ConstantArrivalRate {
        pre_allocate_users: 5,
        rate: Rate(10, 1_000),
        max_users: 20,
        duration_ms: 5_000,
    }) {
        DataExecutor::ConstantArrivalRate(m) => m,
        _ => panic!("wrong controller"),
    };
    let mut now = 0u64;
    let mut inflight: Vec<(u64, usize)> = Vec::new();
    let mut starts = 0u64;
    loop {
        match m.poll(now) {
            Directive::Build { count } => m.users_built(count),
            Directive::Start { user } => {
                starts += 1;
                inflight.push((now + 200, user));
            }
            Directive::Wait { until_ms } => {
                complete_due(&mut m, &mut inflight, until_ms, &mut now);
                now = until_ms;
            }
            Directive::WaitBusy => {
                let t = inflight.iter().map(|(t, _)| *t).min().unwrap();
                complete_due(&mut m, &mut inflight, t, &mut now);
            }
            Directive::Continue => {}
            Directive::Done => break,
        }
    }
    assert!(starts >= 48 && starts <= 52);
    assert_eq!(starts, 50);
    assert_eq!(m.pool.len(), 5);
}

#[test]
fn arrival_rate_grows_pool_when_under_rate() {
    // One pre-allocated user cannot sustain 3 starts per second when an
    // operation outlasts the window: at the window's close the pool grows,
    // capped by `max_users`.
    let mut m = RampingArrivalRate::new(1, vec![(Rate(3, 1_000), 3_000)], 3);
    let mut now = 0u64;
    let mut inflight: Vec<(u64, usize)> = Vec::new();
    let mut starts = 0u64;
    loop {
        match m.poll(now) {
            Directive::Build { count } => m.users_built(count),
            Directive::Start { user } => {
                starts += 1;
                // each operation takes 1.5 s, longer than the window
                inflight.push((now + 1_500, user));
            }
            Directive::Wait { until_ms } => {
                complete_due(&mut m, &mut inflight, until_ms, &mut now);
                now = until_ms;
            }
            Directive::WaitBusy => {
                let t = inflight.iter().map(|(t, _)| *t).min().unwrap();
                complete_due(&mut m, &mut inflight, t, &mut now);
            }
            Directive::Continue => {}
            Directive::Done => break,
        }
    }
    assert_eq!(m.pool.len(), 3);
    assert_eq!(starts, 4);
}

#[test]
fn shared_iterations_stop_at_deadline() {
    // Two users, a large budget, but only 100 ms: the deadline cuts the
    // run short and no start is granted at or after it.
    let mut m = SharedIterations::new(2, 1_000, 100);
    let mut now = 0u64;
    let mut completed = 0u64;
    let mut busy: Vec<usize> = Vec::new();
    loop {
        match m.poll(now) {
            Directive::Start { user } => busy.push(user),
            Directive::WaitBusy => {
                // each iteration takes 60 ms
                now += 60;
                for user in busy.drain(..) {
                    m.complete(user);
                    completed += 1;
                }
            }
            Directive::Done => break,
            d => panic!("unexpected directive {:?}", d),
        }
    }
    assert!(now >= 100);
    assert_eq!(completed, 4);
    assert!(completed < 1_000);
}

#[test]
fn ramping_user_pool_sizes() {
    // Stages (2s, 1), (2s, 5), (2s, 3): pool sizes observed are 1, 5, 5.
    let mut m = RampingUser::new(vec![(2_000, 1), (2_000, 5), (2_000, 3)], 1);
    let mut now = 0u64;
    let mut sizes: Vec<usize> = Vec::new();
    let mut busy: Vec<usize> = Vec::new();
    let mut last_stage = usize::MAX;
    loop {
        match m.poll(now) {
            Directive::Build { count } => m.users_built(count, now),
            Directive::Start { user } => busy.push(user),
            Directive::WaitBusy => {
                now += 100;
                for user in busy.drain(..) {
                    m.complete(user);
                }
            }
            Directive::Continue => {}
            Directive::Done => break,
            d => panic!("unexpected directive {:?}", d),
        }
        if m.deadline_ms.is_some() && m.stage != last_stage {
            last_stage = m.stage;
            sizes.push(m.pool.len());
        }
        if now > 10_000_000 {
            panic!("no progress");
        }
    }
    assert_eq!(sizes, vec![1, 5, 5]);
}

#[test]
fn once_scenario_yields_one_task_time_one_executor_end_one_end() {
    let mut b = TelemetryBridge::new();
    b.scenario_changed(0);
    b.executor_start(0, 0, 0);
    let mut m = Once::new();
    let mut now = 0u64;
    loop {
        match m.poll() {
            Directive::Start { user } => {
                b.open_span(1, 0, now, vec![]);
                // the single iteration returns Ok after 40 ms
                now += 40;
                b.close_span(1, now);
                m.complete(user);
            }
            Directive::WaitBusy => {}
            Directive::Done => break,
            d => panic!("unexpected directive {:?}", d),
        }
    }
    b.executor_end(0);
    b.end();
    let task_times =
        b.messages.iter().filter(|m| matches!(m, Message::TaskTime { .. })).count();
    let executor_ends =
        b.messages.iter().filter(|m| matches!(m, Message::ExecutorEnd { .. })).count();
    let ends = b.messages.iter().filter(|m| matches!(m, Message::End)).count();
    assert_eq!(task_times, 1);
    assert_eq!(executor_ends, 1);
    assert_eq!(ends, 1);
    assert!(matches!(b.messages.last().unwrap(), Message::End));
}

#[test]
fn ramping_user_empty_stage_completes_at_once() {
    // No pre-allocation and a zero-target stage: there is no work, so the
    // stage completes without waiting out its deadline.
    let mut m = RampingUser::new(vec![(60_000, 0)], 0);
    let now = 0u64;
    let mut polls = 0u64;
    loop {
        match m.poll(now) {
            Directive::Build { count } => m.users_built(count, now),
            Directive::Continue => {}
            Directive::Done => break,
            d => panic!("unexpected directive {:?}", d),
        }
        polls += 1;
        assert!(polls < 10, "no progress");
    }
    assert_eq!(m.pool.len(), 0);
}

#[test]
fn data_executor_matches_configuration() {
    match DataExecutor::new(Executor::Shared { users: 2, iterations: 9, duration_ms: 500 }) {
        DataExecutor::Shared(m) => {
            assert_eq!(m.users, 2);
            assert_eq!(m.iterations, 9);
            assert_eq!(m.duration_ms, 500);
        }
        _ => panic!("wrong controller"),
    }
    match DataExecutor::new(Executor::Once) {
        DataExecutor::Once(_) => {}
        _ => panic!("wrong controller"),
    }
    match DataExecutor::new(Executor::RampingArrivalRate {
        pre_allocate_users: 2,
        max_users: 7,
        stages: vec![(Rate(3, 100), 1_000)],
    }) {
        DataExecutor::RampingArrivalRate(m) => {
            assert_eq!(m.pre_allocate_users, 2);
            assert_eq!(m.max_users, 7);
            assert_eq!(m.stages.len(), 1);
        }
        _ => panic!("wrong controller"),
    }
}
