//! The concurrency controllers ("executors").
//!
//! Each executor is a deterministic controller that decides, one step at a
//! time, which user starts an iteration, when to build more users, when to
//! pace, and when the discipline is complete.  The asynchronous runtime
//! drives a controller in a loop: it calls `poll` with the current time,
//! carries the returned directive out (spawn an iteration, build users,
//! sleep, wait for a completion), and reports finished iterations back
//! through `complete`.  All proofs about load shaping are stated against
//! these controllers.
//!
//! Times are in milliseconds, measured on a monotonic clock supplied by the
//! caller; `poll` must never be called with a time earlier than one it was
//! already called with.

use vstd::prelude::*;
use crate::pool::{UserPool, count_busy, lemma_count_busy_update, lemma_count_busy_le_len};

verus! {

/// What the runtime must do next to carry an executor's discipline out.
#[derive(Debug, Clone, Copy, PartialEq, Eq, Structural)]
pub enum Directive {
    /// Begin one iteration of the given user's operation.
    Start { user: usize },
    /// Build `count` new users and report them with `users_built`.
    Build { count: usize },
    /// Sleep until the given time (pacing), then poll again.
    Wait { until_ms: u64 },
    /// Wait until some in-flight iteration completes, then poll again.
    WaitBusy,
    /// An internal transition happened; poll again at once.
    Continue,
    /// The discipline is complete and no iteration is in flight.
    Done,
}

/// Run one user's operation exactly once.
pub struct Once {
    pub pool: UserPool,
    pub started: bool,
    pub finished: bool,
}

impl Once {
    /// The controller's invariant: one user, busy exactly while the single
    /// iteration is in flight.
    pub open spec fn wf(&self) -> bool {
        &&& self.pool.wf()
        &&& self.pool@.len() == 1
        &&& (self.finished ==> self.started)
        &&& (self.pool@[0] <==> (self.started && !self.finished))
    }

    /// A fresh controller for one user.
    pub fn new() -> (r: Once)
        ensures
            r.wf(),
            !r.started,
            !r.finished,
    {
        Once { pool: UserPool::new(1), started: false, finished: false }
    }

    /// Decide the next step: grant the single iteration once, then wait for
    /// it, then finish.
    pub fn poll(&mut self) -> (d: Directive)
        requires
            old(self).wf(),
        ensures
            final(self).wf(),
            match d {
                Directive::Start { user } => user == 0 && !old(self).started && final(self).started
                    && !final(self).finished,
                Directive::WaitBusy => *final(self) == *old(self) && old(self).started && !old(
                self).finished,
                Directive::Done => *final(self) == *old(self) && old(self).finished,
                _ => false,
            },
    {
        if !self.started {
            self.started = true;
            let _ = self.pool.try_acquire(0);
            Directive::Start { user: 0 }
        } else if !self.finished {
            Directive::WaitBusy
        } else {
            Directive::Done
        }
    }

    /// Report that the single iteration finished.
    pub fn complete(&mut self, user: usize)
        requires
            old(self).wf(),
            user == 0,
            old(self).started,
            !old(self).finished,
        ensures
            final(self).wf(),
            final(self).started,
            final(self).finished,
    {
        self.pool.release(0);
        self.finished = true;
    }
}

/// A fixed pool of users looping continuously until a deadline.
pub struct Constant {
    pub pool: UserPool,
    pub users: usize,
    pub duration_ms: u64,
    pub deadline_ms: Option<u64>,
    pub started: u64,
    pub completed: u64,
}

impl Constant {
    /// The controller's invariant.  The pool never grows or shrinks: the
    /// configured number of drivers stays active for the whole duration.
    pub open spec fn wf(&self) -> bool {
        &&& self.pool.wf()
        &&& self.pool@.len() == self.users
        &&& self.completed <= self.started
        &&& self.started - self.completed == count_busy(self.pool@)
    }

    /// A fresh controller: `users` drivers for `duration_ms`.
    pub fn new(users: usize, duration_ms: u64) -> (r: Constant)
        ensures
            r.wf(),
            r.users == users,
            r.duration_ms == duration_ms,
            r.deadline_ms is None,
            r.started == 0u64,
            r.completed == 0u64,
    {
        let pool = UserPool::new(users);
        proof {
            lemma_all_free_count(pool@);
        }
        Constant { pool, users, duration_ms, deadline_ms: None, started: 0, completed: 0 }
    }

    /// Decide the next step.  The first call fixes the deadline at
    /// `now_ms + duration_ms`.  A start is granted only strictly before the
    /// deadline; at or after it, the controller only drains in-flight
    /// iterations and then finishes.
    pub fn poll(&mut self, now_ms: u64) -> (d: Directive)
        requires
            old(self).wf(),
            old(self).started < u64::MAX,
            now_ms + old(self).duration_ms <= u64::MAX,
        ensures
            final(self).wf(),
            final(self).users == old(self).users,
            final(self).duration_ms == old(self).duration_ms,
            final(self).completed == old(self).completed,
            final(self).deadline_ms == if old(self).deadline_ms is Some {
                old(self).deadline_ms
            } else {
                Some((now_ms + old(self).duration_ms) as u64)
            },
            final(self).pool@.len() == old(self).pool@.len(),
            match d {
                Directive::Start { user } => {
                    &&& now_ms < final(self).deadline_ms.unwrap()
                    &&& (user as int) < old(self).pool@.len()
                    &&& !old(self).pool@[user as int]
                    &&& final(self).pool@ == old(self).pool@.update(user as int, true)
                    &&& final(self).started == old(self).started + 1
                },
                Directive::WaitBusy => {
                    &&& final(self).pool@ == old(self).pool@
                    &&& final(self).pool.history() == old(self).pool.history()
                    &&& final(self).started == old(self).started
                    &&& count_busy(old(self).pool@) > 0
                },
                Directive::Done => {
                    &&& now_ms >= final(self).deadline_ms.unwrap() || old(self).users == 0
                    &&& count_busy(old(self).pool@) == 0
                    &&& final(self).pool@ == old(self).pool@
                    &&& final(self).started == old(self).started
                    &&& old(self).completed == old(self).started
                },
                _ => false,
            },
    {
        if self.deadline_ms.is_none() {
            self.deadline_ms = Some(now_ms + self.duration_ms);
        }
        let dl = self.deadline_ms.unwrap();
        if now_ms < dl && self.users > 0 {
            let ghost p0 = self.pool@;
            match self.pool.acquire_from(0) {
                Some(u) => {
                    proof {
                        lemma_count_busy_update(p0, u as int, true);
                    }
                    self.started = self.started + 1;
                    Directive::Start { user: u }
                },
                None => {
                    proof {
                        lemma_all_busy_count(self.pool@);
                    }
                    Directive::WaitBusy
                },
            }
        } else {
            let busy = self.pool.busy_count();
            if busy > 0 {
                Directive::WaitBusy
            } else {
                Directive::Done
            }
        }
    }

    /// Report that the iteration running on `user` finished.
    pub fn complete(&mut self, user: usize)
        requires
            old(self).wf(),
            (user as int) < old(self).pool@.len(),
            old(self).pool@[user as int],
        ensures
            final(self).wf(),
            final(self).users == old(self).users,
            final(self).duration_ms == old(self).duration_ms,
            final(self).deadline_ms == old(self).deadline_ms,
            final(self).started == old(self).started,
            final(self).completed == old(self).completed + 1,
            final(self).pool@ == old(self).pool@.update(user as int, false),
    {
        proof {
            lemma_count_busy_update(self.pool@, user as int, false);
            lemma_count_busy_le_len(self.pool@.update(user as int, false));
        }
        self.pool.release(user);
        self.completed = self.completed + 1;
    }
}

/// A constant-load controller keeps exactly its configured number of
/// drivers active: the pool never grows or shrinks.  Together with `poll`'s
/// contract — no start is granted at or after the deadline, and the
/// controller finishes only once every in-flight iteration has completed —
/// this pins the discipline down: `users` drivers run for the whole
/// duration and all of them stop within one in-flight operation of it.
pub proof fn lemma_constant_driver_count(m: &Constant)
    requires
        m.wf(),
    ensures
        m.pool@.len() == m.users,
        count_busy(m.pool@) == m.started - m.completed,
{
}

/// A pool of users racing to consume a shared budget of iterations, bounded
/// by a deadline.
pub struct SharedIterations {
    pub pool: UserPool,
    pub users: usize,
    pub iterations: usize,
    pub duration_ms: u64,
    pub deadline_ms: Option<u64>,
    pub started: usize,
    pub completed: usize,
}

impl SharedIterations {
    /// The controller's invariant: the budget is never overdrawn.
    pub open spec fn wf(&self) -> bool {
        &&& self.pool.wf()
        &&& self.pool@.len() == self.users
        &&& self.completed <= self.started <= self.iterations
        &&& self.started - self.completed == count_busy(self.pool@)
    }

    /// A fresh controller: `users` drivers share `iterations` operations,
    /// stopping at `duration_ms` at the latest.
    pub fn new(users: usize, iterations: usize, duration_ms: u64) -> (r: SharedIterations)
        ensures
            r.wf(),
            r.users == users,
            r.iterations == iterations,
            r.duration_ms == duration_ms,
            r.deadline_ms is None,
            r.started == 0usize,
            r.completed == 0usize,
    {
        let pool = UserPool::new(users);
        proof {
            lemma_all_free_count(pool@);
        }
        SharedIterations {
            pool,
            users,
            iterations,
            duration_ms,
            deadline_ms: None,
            started: 0,
            completed: 0,
        }
    }

    /// Decide the next step.  A start is granted only strictly before the
    /// deadline and while budget remains; the budget check happens before
    /// each iteration, so no more than `iterations` starts are ever issued.
    pub fn poll(&mut self, now_ms: u64) -> (d: Directive)
        requires
            old(self).wf(),
            now_ms + old(self).duration_ms <= u64::MAX,
        ensures
            final(self).wf(),
            final(self).users == old(self).users,
            final(self).iterations == old(self).iterations,
            final(self).duration_ms == old(self).duration_ms,
            final(self).completed == old(self).completed,
            final(self).deadline_ms == if old(self).deadline_ms is Some {
                old(self).deadline_ms
            } else {
                Some((now_ms + old(self).duration_ms) as u64)
            },
            final(self).pool@.len() == old(self).pool@.len(),
            match d {
                Directive::Start { user } => {
                    &&& now_ms < final(self).deadline_ms.unwrap()
                    &&& old(self).started < old(self).iterations
                    &&& (user as int) < old(self).pool@.len()
                    &&& !old(self).pool@[user as int]
                    &&& final(self).pool@ == old(self).pool@.update(user as int, true)
                    &&& final(self).started == old(self).started + 1
                },
                Directive::WaitBusy => {
                    &&& final(self).pool@ == old(self).pool@
                    &&& final(self).started == old(self).started
                    &&& count_busy(old(self).pool@) > 0
                },
                Directive::Done => {
                    &&& now_ms >= final(self).deadline_ms.unwrap() || old(self).started == old(
                        self,
                    ).iterations || old(self).users == 0
                    &&& count_busy(old(self).pool@) == 0
                    &&& final(self).pool@ == old(self).pool@
                    &&& final(self).started == old(self).started
                    &&& old(self).completed == old(self).started
                },
                _ => false,
            },
    {
        if self.deadline_ms.is_none() {
            self.deadline_ms = Some(now_ms + self.duration_ms);
        }
        let dl = self.deadline_ms.unwrap();
        if now_ms < dl && self.started < self.iterations && self.users > 0 {
            let ghost p0 = self.pool@;
            match self.pool.acquire_from(0) {
                Some(u) => {
                    proof {
                        lemma_count_busy_update(p0, u as int, true);
                    }
                    self.started = self.started + 1;
                    Directive::Start { user: u }
                },
                None => {
                    proof {
                        lemma_all_busy_count(self.pool@);
                    }
                    Directive::WaitBusy
                },
            }
        } else {
            let busy = self.pool.busy_count();
            if busy > 0 {
                Directive::WaitBusy
            } else {
                Directive::Done
            }
        }
    }

    /// Report that the iteration running on `user` finished.
    pub fn complete(&mut self, user: usize)
        requires
            old(self).wf(),
            (user as int) < old(self).pool@.len(),
            old(self).pool@[user as int],
        ensures
            final(self).wf(),
            final(self).users == old(self).users,
            final(self).iterations == old(self).iterations,
            final(self).duration_ms == old(self).duration_ms,
            final(self).deadline_ms == old(self).deadline_ms,
            final(self).started == old(self).started,
            final(self).completed == old(self).completed + 1,
            final(self).pool@ == old(self).pool@.update(user as int, false),
    {
        proof {
            lemma_count_busy_update(self.pool@, user as int, false);
            lemma_count_busy_le_len(self.pool@.update(user as int, false));
        }
        self.pool.release(user);
        self.completed = self.completed + 1;
    }
}

/// A shared-iterations controller never overdraws its budget, and whenever
/// it finishes for a reason other than the deadline, it has consumed the
/// budget exactly: `iterations` operations were started and all of them
/// completed.  Together with `poll`'s `Done` case this bounds the total at
/// completion to the configured range.
pub proof fn lemma_shared_iterations_bounds(m: &SharedIterations)
    requires
        m.wf(),
    ensures
        m.completed <= m.started <= m.iterations,
        count_busy(m.pool@) == 0 ==> m.completed == m.started,
{
}

/// Each user performs exactly `iterations` operations.
pub struct PerUserIteration {
    pub pool: UserPool,
    pub users: usize,
    pub iterations: usize,
    pub started: Vec<usize>,
    pub completed: Vec<usize>,
}

/// The sum of a sequence of counts.
pub open spec fn sum_seq(s: Seq<usize>) -> int
    decreases s.len(),
{
    if s.len() == 0 {
        0
    } else {
        sum_seq(s.drop_last()) + s.last()
    }
}

/// The sum of a constant sequence.
pub proof fn lemma_sum_seq_const(s: Seq<usize>, c: usize)
    requires
        forall|i: int| 0 <= i < s.len() ==> s[i] == c,
    ensures
        sum_seq(s) == s.len() * c,
    decreases s.len(),
{
    if s.len() == 0 {
        assert(s.len() * c == 0) by (nonlinear_arith)
            requires
                s.len() == 0,
        ;
    } else {
        assert(forall|i: int| 0 <= i < s.drop_last().len() ==> s.drop_last()[i] == s[i]);
        lemma_sum_seq_const(s.drop_last(), c);
        assert(s.len() * c == s.drop_last().len() * c + c) by (nonlinear_arith)
            requires
                s.len() == s.drop_last().len() + 1,
        ;
    }
}

impl PerUserIteration {
    /// The controller's invariant: per-user accounting matches the pool.
    pub open spec fn wf(&self) -> bool {
        &&& self.pool.wf()
        &&& self.pool@.len() == self.users
        &&& self.started@.len() == self.users
        &&& self.completed@.len() == self.users
        &&& forall|u: int|
            0 <= u < self.users ==> #[trigger] self.completed@[u] <= self.started@[u]
                <= self.iterations
        &&& forall|u: int|
            0 <= u < self.users ==> self.started@[u] - self.completed@[u] == if self.pool@[u] {
                1int
            } else {
                0
            }
    }

    /// A fresh controller: each of `users` drivers owes `iterations`
    /// operations.
    pub fn new(users: usize, iterations: usize) -> (r: PerUserIteration)
        ensures
            r.wf(),
            r.users == users,
            r.iterations == iterations,
            forall|u: int| 0 <= u < users ==> #[trigger] r.started@[u] == 0,
            forall|u: int| 0 <= u < users ==> #[trigger] r.completed@[u] == 0,
    {
        let pool = UserPool::new(users);
        let mut started: Vec<usize> = Vec::new();
        let mut completed: Vec<usize> = Vec::new();
        let mut i: usize = 0;
        while i < users
            invariant
                0 <= i <= users,
                started@.len() == i,
                completed@.len() == i,
                forall|u: int| 0 <= u < i ==> #[trigger] started@[u] == 0,
                forall|u: int| 0 <= u < i ==> #[trigger] completed@[u] == 0,
            decreases users - i,
        {
            started.push(0);
            completed.push(0);
            i += 1;
        }
        PerUserIteration { pool, users, iterations, started, completed }
    }

    /// Decide the next step: grant a start to any free user that still owes
    /// iterations; otherwise wait for in-flight work, and finish when every
    /// user has completed its quota.
    pub fn poll(&mut self) -> (d: Directive)
        requires
            old(self).wf(),
        ensures
            final(self).wf(),
            final(self).users == old(self).users,
            final(self).iterations == old(self).iterations,
            final(self).completed@ == old(self).completed@,
            final(self).pool@.len() == old(self).pool@.len(),
            match d {
                Directive::Start { user } => {
                    &&& (user as int) < old(self).pool@.len()
                    &&& !old(self).pool@[user as int]
                    &&& old(self).started@[user as int] < old(self).iterations
                    &&& final(self).pool@ == old(self).pool@.update(user as int, true)
                    &&& final(self).started@ == old(self).started@.update(
                        user as int,
                        (old(self).started@[user as int] + 1) as usize,
                    )
                },
                Directive::WaitBusy => {
                    &&& *final(self) == *old(self)
                    &&& count_busy(old(self).pool@) > 0
                    &&& forall|u: int|
                        0 <= u < old(self).users ==> old(self).pool@[u] || #[trigger] old(
                        self).started@[u] == old(self).iterations
                },
                Directive::Done => {
                    &&& *final(self) == *old(self)
                    &&& forall|u: int|
                        0 <= u < old(self).users ==> #[trigger] old(self).completed@[u] == old(
                        self).iterations
                },
                _ => false,
            },
    {
        let n = self.users;
        let mut u: usize = 0;
        while u < n
            invariant
                self.wf(),
                self == old(self),
                n == self.users,
                0 <= u <= n,
                forall|j: int|
                    0 <= j < u ==> self.pool@[j] || #[trigger] self.started@[j] == self.iterations,
            decreases n - u,
        {
            if !self.pool.is_busy(u) && self.started[u] < self.iterations {
                let _ = self.pool.try_acquire(u);
                let s = self.started[u];
                self.started.set(u, s + 1);
                return Directive::Start { user: u };
            }
            u += 1;
        }
        let busy = self.pool.busy_count();
        if busy > 0 {
            Directive::WaitBusy
        } else {
            proof {
                assert forall|v: int| 0 <= v < self.users implies #[trigger] self.completed@[v]
                    == self.iterations by {
                    assert(!self.pool@[v]) by {
                        if self.pool@[v] {
                            lemma_busy_at_count(self.pool@, v);
                        }
                    }
                    assert(self.started@[v] == self.iterations);
                }
            }
            Directive::Done
        }
    }

    /// Report that the iteration running on `user` finished.
    pub fn complete(&mut self, user: usize)
        requires
            old(self).wf(),
            (user as int) < old(self).pool@.len(),
            old(self).pool@[user as int],
        ensures
            final(self).wf(),
            final(self).users == old(self).users,
            final(self).iterations == old(self).iterations,
            final(self).started@ == old(self).started@,
            final(self).completed@ == old(self).completed@.update(
                user as int,
                (old(self).completed@[user as int] + 1) as usize,
            ),
            final(self).pool@ == old(self).pool@.update(user as int, false),
    {
        self.pool.release(user);
        let c = self.completed[user];
        self.completed.set(user, c + 1);
    }
}

/// When a per-user controller is done — every user has completed its quota —
/// the total number of completed iterations is exactly `users * iterations`.
pub proof fn lemma_per_user_total(m: &PerUserIteration)
    requires
        m.wf(),
        forall|u: int| 0 <= u < m.users ==> #[trigger] m.completed@[u] == m.iterations,
    ensures
        sum_seq(m.completed@) == m.users * m.iterations,
{
    lemma_sum_seq_const(m.completed@, m.iterations);
}

/// The larger of two counts.
pub open spec fn max2(a: int, b: int) -> int {
    if a >= b {
        a
    } else {
        b
    }
}

/// The largest target among the first `k` stages of a ramping profile
/// (zero when no stage is counted).
pub open spec fn max_target_upto(stages: Seq<(u64, usize)>, k: int) -> int
    decreases k,
{
    if k <= 0 {
        0
    } else {
        max2(max_target_upto(stages, k - 1), stages[k - 1].1 as int)
    }
}

/// A pool of users that steps to each stage's target count, running
/// continuously within each stage.  Users are never removed: the pool is
/// monotonically non-decreasing.
pub struct RampingUser {
    pub pool: UserPool,
    pub pre_allocate_users: usize,
    pub stages: Vec<(u64, usize)>,
    pub stage: usize,
    pub deadline_ms: Option<u64>,
    pub allocated: bool,
    pub started: u64,
    pub completed: u64,
}

impl RampingUser {
    /// How many stages have begun running.
    pub open spec fn stages_reached(&self) -> int {
        self.stage + if self.deadline_ms is Some {
            1int
        } else {
            0
        }
    }

    /// The controller's invariant.  The pool size always equals the larger
    /// of the pre-allocation and the largest target among the stages reached
    /// so far.
    pub open spec fn wf(&self) -> bool {
        &&& self.pool.wf()
        &&& self.stage <= self.stages@.len()
        &&& (self.deadline_ms is Some ==> self.stage < self.stages@.len())
        &&& (!self.allocated ==> self.stage == 0 && self.deadline_ms is None && self.started == 0
            && self.completed == 0)
        &&& self.pool@.len() == if self.allocated {
            max2(self.pre_allocate_users as int, max_target_upto(self.stages@, self.stages_reached()))
        } else {
            0int
        }
        &&& self.completed <= self.started
        &&& self.started - self.completed == count_busy(self.pool@)
    }

    /// A fresh controller from the ramping profile.
    pub fn new(stages: Vec<(u64, usize)>, initial_users: usize) -> (r: RampingUser)
        ensures
            r.wf(),
            r.stages == stages,
            r.pre_allocate_users == initial_users,
            !r.allocated,
            r.stage == 0usize,
            r.started == 0u64,
            r.completed == 0u64,
    {
        RampingUser {
            pool: UserPool::new(0),
            pre_allocate_users: initial_users,
            stages,
            stage: 0,
            deadline_ms: None,
            allocated: false,
            started: 0,
            completed: 0,
        }
    }

    /// Decide the next step: allocate the initial users, then for each stage
    /// grow the pool to the stage's target if needed, run all users until
    /// the stage deadline, drain, and move on.
    pub fn poll(&mut self, now_ms: u64) -> (d: Directive)
        requires
            old(self).wf(),
            old(self).started < u64::MAX,
            old(self).stage < old(self).stages@.len() && old(self).deadline_ms is None ==> now_ms
                + old(self).stages@[old(self).stage as int].0 <= u64::MAX,
        ensures
            final(self).wf(),
            final(self).pre_allocate_users == old(self).pre_allocate_users,
            final(self).stages == old(self).stages,
            final(self).completed == old(self).completed,
            final(self).pool@.len() >= old(self).pool@.len(),
            final(self).stages_reached() >= old(self).stages_reached(),
            match d {
                Directive::Build { count } => {
                    &&& *final(self) == *old(self)
                    &&& (if !old(self).allocated {
                        count == old(self).pre_allocate_users
                    } else {
                        &&& old(self).deadline_ms is None
                        &&& old(self).stage < old(self).stages@.len()
                        &&& old(self).pool@.len() < old(self).stages@[old(self).stage as int].1
                        &&& count == old(self).stages@[old(self).stage as int].1 - old(
                            self,
                        ).pool@.len()
                    })
                },
                Directive::Start { user } => {
                    &&& old(self).deadline_ms is Some
                    &&& now_ms < old(self).deadline_ms.unwrap()
                    &&& (user as int) < old(self).pool@.len()
                    &&& !old(self).pool@[user as int]
                    &&& final(self).pool@ == old(self).pool@.update(user as int, true)
                    &&& final(self).started == old(self).started + 1
                    &&& final(self).stage == old(self).stage
                    &&& final(self).deadline_ms == old(self).deadline_ms
                    &&& final(self).allocated == old(self).allocated
                },
                Directive::WaitBusy => {
                    &&& final(self).pool@ == old(self).pool@
                    &&& final(self).pool.history() == old(self).pool.history()
                    &&& final(self).started == old(self).started
                    &&& final(self).stage == old(self).stage
                    &&& final(self).deadline_ms == old(self).deadline_ms
                    &&& final(self).allocated == old(self).allocated
                    &&& count_busy(old(self).pool@) > 0
                },
                Directive::Continue => {
                    &&& old(self).allocated
                    &&& final(self).allocated
                    &&& final(self).pool@ == old(self).pool@
                    &&& final(self).started == old(self).started
                    &&& (if old(self).deadline_ms is None {
                        // the stage's users are all in place: its deadline is fixed
                        &&& old(self).stage < old(self).stages@.len()
                        &&& old(self).pool@.len() >= old(self).stages@[old(self).stage as int].1
                        &&& final(self).stage == old(self).stage
                        &&& final(self).deadline_ms == Some(
                            (now_ms + old(self).stages@[old(self).stage as int].0) as u64,
                        )
                    } else {
                        // the stage is drained and its deadline has passed — or it
                        // has no users and so no work: move on
                        &&& (now_ms >= old(self).deadline_ms.unwrap() || old(self).pool@.len()
                            == 0)
                        &&& count_busy(old(self).pool@) == 0
                        &&& final(self).stage == old(self).stage + 1
                        &&& final(self).deadline_ms is None
                    })
                },
                Directive::Done => {
                    &&& old(self).stage == old(self).stages@.len()
                    &&& count_busy(old(self).pool@) == 0
                    &&& *final(self) == *old(self)
                    &&& old(self).completed == old(self).started
                },
                _ => false,
            },
    {
        if !self.allocated {
            return Directive::Build { count: self.pre_allocate_users };
        }
        if self.stage == self.stages.len() {
            let busy = self.pool.busy_count();
            if busy > 0 {
                return Directive::WaitBusy;
            } else {
                return Directive::Done;
            }
        }
        match self.deadline_ms {
            None => {
                let target = self.stages[self.stage].1;
                let len = self.pool.len();
                if len < target {
                    Directive::Build { count: target - len }
                } else {
                    let dur = self.stages[self.stage].0;
                    self.deadline_ms = Some(now_ms + dur);
                    proof {
                        assert(max_target_upto(self.stages@, self.stage + 1) == max2(
                            max_target_upto(self.stages@, self.stage as int),
                            self.stages@[self.stage as int].1 as int,
                        ));
                    }
                    Directive::Continue
                }
            },
            Some(dl) => {
                if now_ms < dl {
                    if self.pool.len() == 0 {
                        // an empty pool has no work: the stage completes at once
                        let ghost reached0 = self.stages_reached();
                        self.stage = self.stage + 1;
                        self.deadline_ms = None;
                        proof {
                            assert(self.stages_reached() == reached0);
                            lemma_all_free_count(self.pool@);
                        }
                        return Directive::Continue;
                    }
                    let ghost p0 = self.pool@;
                    match self.pool.acquire_from(0) {
                        Some(u) => {
                            proof {
                                lemma_count_busy_update(p0, u as int, true);
                            }
                            self.started = self.started + 1;
                            Directive::Start { user: u }
                        },
                        None => {
                            proof {
                                lemma_all_busy_count(self.pool@);
                            }
                            Directive::WaitBusy
                        },
                    }
                } else {
                    let busy = self.pool.busy_count();
                    if busy > 0 {
                        Directive::WaitBusy
                    } else {
                        let ghost reached0 = self.stages_reached();
                        self.stage = self.stage + 1;
                        self.deadline_ms = None;
                        proof {
                            assert(self.stages_reached() == reached0);
                        }
                        Directive::Continue
                    }
                }
            },
        }
    }

    /// Report that the requested users were built and added to the pool.
    pub fn users_built(&mut self, count: usize, now_ms: u64)
        requires
            old(self).wf(),
            old(self).pool@.len() + count <= usize::MAX,
            if !old(self).allocated {
                count == old(self).pre_allocate_users
            } else {
                &&& old(self).deadline_ms is None
                &&& old(self).stage < old(self).stages@.len()
                &&& old(self).pool@.len() < old(self).stages@[old(self).stage as int].1
                &&& count == old(self).stages@[old(self).stage as int].1 - old(self).pool@.len()
                &&& now_ms + old(self).stages@[old(self).stage as int].0 <= u64::MAX
            },
        ensures
            final(self).wf(),
            final(self).allocated,
            final(self).pre_allocate_users == old(self).pre_allocate_users,
            final(self).stages == old(self).stages,
            final(self).stage == old(self).stage,
            final(self).started == old(self).started,
            final(self).completed == old(self).completed,
            final(self).pool@ == old(self).pool@ + Seq::new(count as nat, |i: int| false),
            final(self).pool@.len() == old(self).pool@.len() + count,
            final(self).deadline_ms == if old(self).allocated {
                // a stage build starts the stage at once
                Some((now_ms + old(self).stages@[old(self).stage as int].0) as u64)
            } else {
                // the pre-allocation precedes any stage
                Option::<u64>::None
            },
    {
        let ghost p0 = self.pool@;
        self.pool.grow(count);
        proof {
            crate::pool::lemma_count_busy_grow(p0, count as nat);
        }
        if !self.allocated {
            self.allocated = true;
            proof {
                assert(max_target_upto(self.stages@, 0) == 0);
            }
        } else {
            let dur = self.stages[self.stage].0;
            self.deadline_ms = Some(now_ms + dur);
            proof {
                assert(max_target_upto(self.stages@, self.stage + 1) == max2(
                    max_target_upto(self.stages@, self.stage as int),
                    self.stages@[self.stage as int].1 as int,
                ));
            }
        }
    }

    /// Report that the iteration running on `user` finished.
    pub fn complete(&mut self, user: usize)
        requires
            old(self).wf(),
            (user as int) < old(self).pool@.len(),
            old(self).pool@[user as int],
        ensures
            final(self).wf(),
            final(self).pre_allocate_users == old(self).pre_allocate_users,
            final(self).stages == old(self).stages,
            final(self).stage == old(self).stage,
            final(self).deadline_ms == old(self).deadline_ms,
            final(self).started == old(self).started,
            final(self).completed == old(self).completed + 1,
            final(self).pool@ == old(self).pool@.update(user as int, false),
    {
        proof {
            lemma_count_busy_update(self.pool@, user as int, false);
            lemma_count_busy_le_len(self.pool@.update(user as int, false));
        }
        self.pool.release(user);
        self.completed = self.completed + 1;
    }
}

/// Once allocated, a ramping-user pool is exactly as large as the greater of
/// the pre-allocation and the largest target among the stages reached so
/// far; `poll` and `users_built` further guarantee that the pool size and
/// the number of reached stages never decrease.
pub proof fn lemma_ramping_user_pool_size(m: &RampingUser)
    requires
        m.wf(),
        m.allocated,
    ensures
        m.pool@.len() == max2(
            m.pre_allocate_users as int,
            max_target_upto(m.stages@, m.stages_reached()),
        ),
{
}

/// Open-model load: start operations at each stage's rate regardless of the
/// in-flight count, up to `max_users` concurrent user slots.  Within a stage
/// the controller works in windows: it grants up to `rate.count` starts per
/// window of `rate.window` milliseconds, walking the pool cyclically and
/// picking only free users; when a window closes under-rate and the pool has
/// room, it grows the pool; if window time remains after the batch, it paces
/// by sleeping to the window's end.
pub struct RampingArrivalRate {
    pub pool: UserPool,
    pub pre_allocate_users: usize,
    pub max_users: usize,
    pub stages: Vec<(crate::logical::Rate, u64)>,
    pub stage: usize,
    pub stage_deadline_ms: Option<u64>,
    pub window_deadline_ms: Option<u64>,
    pub window_started: usize,
    pub grown_this_window: bool,
    pub rotate: usize,
    pub allocated: bool,
    pub started: u64,
    pub completed: u64,
}

impl RampingArrivalRate {
    /// The iteration-start budget of the current stage's window.
    pub open spec fn rate_count(&self) -> int {
        self.stages@[self.stage as int].0.0 as int
    }

    /// The controller's invariant.  The pool never exceeds the larger of
    /// the pre-allocation and `max_users`, and a window never grants more
    /// starts than the stage's rate.
    pub open spec fn wf(&self) -> bool {
        &&& self.pool.wf()
        &&& self.pre_allocate_users >= 1
        &&& self.stage <= self.stages@.len()
        &&& (self.stage_deadline_ms is Some ==> self.stage < self.stages@.len() && self.allocated)
        &&& (self.window_deadline_ms is Some ==> self.stage_deadline_ms is Some)
        &&& (!self.allocated ==> self.stage == 0 && self.stage_deadline_ms is None && self.started
            == 0 && self.completed == 0 && self.pool@.len() == 0)
        &&& (self.allocated ==> self.pre_allocate_users <= self.pool@.len() <= max2(
            self.pre_allocate_users as int,
            self.max_users as int,
        ))
        &&& (self.window_deadline_ms is Some ==> self.window_started <= self.rate_count())
        &&& (self.window_deadline_ms is None ==> self.window_started == 0)
        &&& self.completed <= self.started
        &&& self.started - self.completed == count_busy(self.pool@)
    }

    /// A fresh controller from the staged rates.  At least one user must be
    /// pre-allocated so that the cyclic walk always has a slot to wait on.
    pub fn new(pre_allocate_users: usize, stages: Vec<(crate::logical::Rate, u64)>, max_users: usize) -> (r:
        RampingArrivalRate)
        requires
            pre_allocate_users >= 1,
        ensures
            r.wf(),
            r.pre_allocate_users == pre_allocate_users,
            r.max_users == max_users,
            r.stages == stages,
            !r.allocated,
            r.stage == 0usize,
            r.started == 0u64,
            r.completed == 0u64,
    {
        RampingArrivalRate {
            pool: UserPool::new(0),
            pre_allocate_users,
            max_users,
            stages,
            stage: 0,
            stage_deadline_ms: None,
            window_deadline_ms: None,
            window_started: 0,
            grown_this_window: false,
            rotate: 0,
            allocated: false,
            started: 0,
            completed: 0,
        }
    }

    /// Decide the next step.
    pub fn poll(&mut self, now_ms: u64) -> (d: Directive)
        requires
            old(self).wf(),
            old(self).started < u64::MAX,
            old(self).stage < old(self).stages@.len() && old(self).stage_deadline_ms is None ==>
                now_ms + old(self).stages@[old(self).stage as int].1 <= u64::MAX,
            old(self).stage_deadline_ms is Some && old(self).window_deadline_ms is None ==> now_ms
                + old(self).stages@[old(self).stage as int].0.1 <= u64::MAX,
        ensures
            final(self).wf(),
            final(self).pre_allocate_users == old(self).pre_allocate_users,
            final(self).max_users == old(self).max_users,
            final(self).stages == old(self).stages,
            final(self).completed == old(self).completed,
            final(self).pool@.len() == old(self).pool@.len(),
            match d {
                Directive::Build { count } => {
                    &&& *final(self) == *old(self)
                    &&& (if !old(self).allocated {
                        count == old(self).pre_allocate_users
                    } else {
                        &&& old(self).window_deadline_ms is Some
                        &&& count_busy(old(self).pool@) == 0
                        &&& old(self).window_started < old(self).rate_count()
                        &&& old(self).pool@.len() < old(self).max_users
                        &&& !old(self).grown_this_window
                        &&& count == if old(self).rate_count() - old(self).window_started < old(
                            self,
                        ).max_users - old(self).pool@.len() {
                            old(self).rate_count() - old(self).window_started
                        } else {
                            old(self).max_users - old(self).pool@.len()
                        }
                    })
                },
                Directive::Start { user } => {
                    &&& old(self).window_deadline_ms is Some
                    &&& now_ms < old(self).window_deadline_ms.unwrap()
                    &&& now_ms < old(self).stage_deadline_ms.unwrap()
                    &&& old(self).window_started < old(self).rate_count()
                    &&& final(self).window_started == old(self).window_started + 1
                    &&& (user as int) < old(self).pool@.len()
                    &&& !old(self).pool@[user as int]
                    &&& final(self).pool@ == old(self).pool@.update(user as int, true)
                    &&& final(self).started == old(self).started + 1
                    &&& final(self).stage == old(self).stage
                    &&& final(self).stage_deadline_ms == old(self).stage_deadline_ms
                    &&& final(self).window_deadline_ms == old(self).window_deadline_ms
                    &&& final(self).rotate == user + 1
                    &&& final(self).grown_this_window == old(self).grown_this_window
                    &&& final(self).allocated == old(self).allocated
                },
                Directive::Wait { until_ms } => {
                    &&& *final(self) == *old(self)
                    &&& old(self).window_deadline_ms == Some(until_ms)
                    &&& now_ms < until_ms
                    &&& count_busy(old(self).pool@) == 0
                },
                Directive::WaitBusy => {
                    &&& final(self).pool@ == old(self).pool@
                    &&& final(self).pool.history() == old(self).pool.history()
                    &&& final(self).started == old(self).started
                    &&& final(self).stage == old(self).stage
                    &&& final(self).stage_deadline_ms == old(self).stage_deadline_ms
                    &&& final(self).window_deadline_ms == old(self).window_deadline_ms
                    &&& final(self).window_started == old(self).window_started
                    &&& final(self).grown_this_window == old(self).grown_this_window
                    &&& final(self).allocated == old(self).allocated
                    &&& count_busy(old(self).pool@) > 0
                },
                Directive::Continue => {
                    &&& old(self).allocated
                    &&& final(self).allocated
                    &&& final(self).pool@ == old(self).pool@
                    &&& final(self).started == old(self).started
                    &&& final(self).window_started == 0
                    &&& !final(self).grown_this_window
                    &&& old(self).stage < old(self).stages@.len()
                    &&& (if old(self).stage_deadline_ms is None {
                        // the stage's deadline is fixed
                        &&& final(self).stage == old(self).stage
                        &&& final(self).stage_deadline_ms == Some(
                            (now_ms + old(self).stages@[old(self).stage as int].1) as u64,
                        )
                        &&& final(self).window_deadline_ms is None
                    } else if now_ms >= old(self).stage_deadline_ms.unwrap() {
                        // the stage is past its deadline and drained: move on
                        &&& count_busy(old(self).pool@) == 0
                        &&& final(self).stage == old(self).stage + 1
                        &&& final(self).stage_deadline_ms is None
                        &&& final(self).window_deadline_ms is None
                    } else if old(self).window_deadline_ms is None {
                        // a new window opens
                        &&& final(self).stage == old(self).stage
                        &&& final(self).stage_deadline_ms == old(self).stage_deadline_ms
                        &&& final(self).window_deadline_ms == Some(
                            (now_ms + old(self).stages@[old(self).stage as int].0.1) as u64,
                        )
                    } else {
                        // the window is past its deadline and drained: it closes
                        &&& now_ms >= old(self).window_deadline_ms.unwrap()
                        &&& count_busy(old(self).pool@) == 0
                        &&& final(self).stage == old(self).stage
                        &&& final(self).stage_deadline_ms == old(self).stage_deadline_ms
                        &&& final(self).window_deadline_ms is None
                    })
                },
                Directive::Done => {
                    &&& old(self).stage == old(self).stages@.len()
                    &&& count_busy(old(self).pool@) == 0
                    &&& *final(self) == *old(self)
                    &&& old(self).completed == old(self).started
                },
            },
    {
        if !self.allocated {
            return Directive::Build { count: self.pre_allocate_users };
        }
        if self.stage == self.stages.len() {
            let busy = self.pool.busy_count();
            if busy > 0 {
                return Directive::WaitBusy;
            } else {
                return Directive::Done;
            }
        }
        let stage_duration = self.stages[self.stage].1;
        let rate = self.stages[self.stage].0;
        match self.stage_deadline_ms {
            None => {
                self.stage_deadline_ms = Some(now_ms + stage_duration);
                self.window_deadline_ms = None;
                self.window_started = 0;
                self.grown_this_window = false;
                Directive::Continue
            },
            Some(sdl) => {
                if now_ms >= sdl {
                    let busy = self.pool.busy_count();
                    if busy > 0 {
                        Directive::WaitBusy
                    } else {
                        self.stage = self.stage + 1;
                        self.stage_deadline_ms = None;
                        self.window_deadline_ms = None;
                        self.window_started = 0;
                        self.grown_this_window = false;
                        Directive::Continue
                    }
                } else {
                    match self.window_deadline_ms {
                        None => {
                            self.window_deadline_ms = Some(now_ms + rate.1);
                            self.window_started = 0;
                            self.grown_this_window = false;
                            Directive::Continue
                        },
                        Some(wdl) => {
                            if now_ms < wdl && self.window_started < rate.0 {
                                let ghost p0 = self.pool@;
                                match self.pool.acquire_from(self.rotate) {
                                    Some(u) => {
                                        proof {
                                            lemma_count_busy_update(p0, u as int, true);
                                        }
                                        self.rotate = u + 1;
                                        self.window_started = self.window_started + 1;
                                        self.started = self.started + 1;
                                        Directive::Start { user: u }
                                    },
                                    None => {
                                        proof {
                                            lemma_all_busy_count(self.pool@);
                                        }
                                        Directive::WaitBusy
                                    },
                                }
                            } else {
                                let busy = self.pool.busy_count();
                                if busy > 0 {
                                    Directive::WaitBusy
                                } else {
                                    let len = self.pool.len();
                                    if self.window_started < rate.0 && len < self.max_users
                                        && !self.grown_this_window {
                                        let need = rate.0 - self.window_started;
                                        let room = self.max_users - len;
                                        let count = if need < room {
                                            need
                                        } else {
                                            room
                                        };
                                        Directive::Build { count }
                                    } else if now_ms < wdl {
                                        Directive::Wait { until_ms: wdl }
                                    } else {
                                        self.window_deadline_ms = None;
                                        self.window_started = 0;
                                        self.grown_this_window = false;
                                        Directive::Continue
                                    }
                                }
                            }
                        },
                    }
                }
            },
        }
    }

    /// Report that the requested users were built and appended to the pool,
    /// each with its own free slot.
    pub fn users_built(&mut self, count: usize)
        requires
            old(self).wf(),
            old(self).pool@.len() + count <= usize::MAX,
            if !old(self).allocated {
                count == old(self).pre_allocate_users
            } else {
                &&& old(self).window_deadline_ms is Some
                &&& old(self).window_started < old(self).rate_count()
                &&& old(self).pool@.len() < old(self).max_users
                &&& count <= old(self).max_users - old(self).pool@.len()
            },
        ensures
            final(self).wf(),
            final(self).allocated,
            final(self).pre_allocate_users == old(self).pre_allocate_users,
            final(self).max_users == old(self).max_users,
            final(self).stages == old(self).stages,
            final(self).stage == old(self).stage,
            final(self).stage_deadline_ms == old(self).stage_deadline_ms,
            final(self).window_deadline_ms == old(self).window_deadline_ms,
            final(self).window_started == old(self).window_started,
            final(self).rotate == old(self).rotate,
            final(self).grown_this_window == (old(self).allocated || old(
                self,
            ).grown_this_window),
            final(self).started == old(self).started,
            final(self).completed == old(self).completed,
            final(self).pool@ == old(self).pool@ + Seq::new(count as nat, |i: int| false),
            final(self).pool@.len() == old(self).pool@.len() + count,
    {
        let ghost p0 = self.pool@;
        self.pool.grow(count);
        proof {
            crate::pool::lemma_count_busy_grow(p0, count as nat);
        }
        if !self.allocated {
            self.allocated = true;
        } else {
            self.grown_this_window = true;
        }
    }

    /// Report that the iteration running on `user` finished, freeing the
    /// user's slot.
    pub fn complete(&mut self, user: usize)
        requires
            old(self).wf(),
            (user as int) < old(self).pool@.len(),
            old(self).pool@[user as int],
        ensures
            final(self).wf(),
            final(self).pre_allocate_users == old(self).pre_allocate_users,
            final(self).max_users == old(self).max_users,
            final(self).stages == old(self).stages,
            final(self).stage == old(self).stage,
            final(self).stage_deadline_ms == old(self).stage_deadline_ms,
            final(self).window_deadline_ms == old(self).window_deadline_ms,
            final(self).window_started == old(self).window_started,
            final(self).started == old(self).started,
            final(self).completed == old(self).completed + 1,
            final(self).pool@ == old(self).pool@.update(user as int, false),
    {
        proof {
            lemma_count_busy_update(self.pool@, user as int, false);
            lemma_count_busy_le_len(self.pool@.update(user as int, false));
        }
        self.pool.release(user);
        self.completed = self.completed + 1;
    }
}

/// An arrival-rate controller's in-flight operations never outnumber its
/// pool, which never exceeds the larger of the pre-allocation and
/// `max_users`; when the pre-allocation does not exceed `max_users`, at
/// most `max_users` operations are ever in flight.  Within any window the
/// controller grants at most the stage's `rate.count` starts.
pub proof fn lemma_arrival_rate_caps(m: &RampingArrivalRate)
    requires
        m.wf(),
    ensures
        count_busy(m.pool@) <= m.pool@.len() <= max2(
            m.pre_allocate_users as int,
            m.max_users as int,
        ),
        m.pre_allocate_users <= m.max_users ==> count_busy(m.pool@) <= m.max_users,
        m.window_deadline_ms is Some ==> m.window_started <= m.rate_count(),
{
    lemma_count_busy_le_len(m.pool@);
}

/// An executor controller instantiated from a configuration.
pub enum DataExecutor {
    Once(Once),
    Constant(Constant),
    Shared(SharedIterations),
    PerUser(PerUserIteration),
    RampingUser(RampingUser),
    ConstantArrivalRate(RampingArrivalRate),
    RampingArrivalRate(RampingArrivalRate),
}

impl DataExecutor {
    /// The controller held is well-formed.
    pub open spec fn wf(&self) -> bool {
        match self {
            DataExecutor::Once(m) => m.wf(),
            DataExecutor::Constant(m) => m.wf(),
            DataExecutor::Shared(m) => m.wf(),
            DataExecutor::PerUser(m) => m.wf(),
            DataExecutor::RampingUser(m) => m.wf(),
            DataExecutor::ConstantArrivalRate(m) => m.wf(),
            DataExecutor::RampingArrivalRate(m) => m.wf(),
        }
    }

    /// Instantiate the controller a configuration calls for.  A constant
    /// arrival rate is a ramping arrival rate with a single stage.
    pub fn new(executor: crate::logical::Executor) -> (r: DataExecutor)
        requires
            match executor {
                crate::logical::Executor::ConstantArrivalRate { pre_allocate_users, .. } =>
                    pre_allocate_users >= 1,
                crate::logical::Executor::RampingArrivalRate { pre_allocate_users, .. } =>
                    pre_allocate_users >= 1,
                _ => true,
            },
        ensures
            r.wf(),
            match executor {
                crate::logical::Executor::Once => r matches DataExecutor::Once(m) && !m.started
                    && !m.finished,
                crate::logical::Executor::Constant { users, duration_ms } => r matches
                    DataExecutor::Constant(m) && m.users == users && m.duration_ms == duration_ms
                    && m.deadline_ms is None,
                crate::logical::Executor::Shared { users, iterations, duration_ms } => r matches
                    DataExecutor::Shared(m) && m.users == users && m.iterations == iterations
                    && m.duration_ms == duration_ms && m.deadline_ms is None,
                crate::logical::Executor::PerUser { users, iterations } => r matches
                    DataExecutor::PerUser(m) && m.users == users && m.iterations == iterations,
                crate::logical::Executor::ConstantArrivalRate {
                    pre_allocate_users,
                    rate,
                    max_users,
                    duration_ms,
                } => r matches DataExecutor::ConstantArrivalRate(m) && m.pre_allocate_users
                    == pre_allocate_users && m.max_users == max_users && m.stages@ == seq![
                    (rate, duration_ms),
                ] && !m.allocated,
                crate::logical::Executor::RampingUser { pre_allocate_users, stages } => r matches
                    DataExecutor::RampingUser(m) && m.pre_allocate_users == pre_allocate_users
                    && m.stages@ == stages@ && !m.allocated,
                crate::logical::Executor::RampingArrivalRate {
                    pre_allocate_users,
                    max_users,
                    stages,
                } => r matches DataExecutor::RampingArrivalRate(m) && m.pre_allocate_users
                    == pre_allocate_users && m.max_users == max_users && m.stages@ == stages@
                    && !m.allocated,
            },
    {
        match executor {
            crate::logical::Executor::Once => DataExecutor::Once(Once::new()),
            crate::logical::Executor::Constant { users, duration_ms } => DataExecutor::Constant(
                Constant::new(users, duration_ms),
            ),
            crate::logical::Executor::Shared { users, iterations, duration_ms } =>
                DataExecutor::Shared(SharedIterations::new(users, iterations, duration_ms)),
            crate::logical::Executor::PerUser { users, iterations } => DataExecutor::PerUser(
                PerUserIteration::new(users, iterations),
            ),
            crate::logical::Executor::ConstantArrivalRate {
                pre_allocate_users,
                rate,
                max_users,
                duration_ms,
            } => {
                let mut stages: Vec<(crate::logical::Rate, u64)> = Vec::new();
                stages.push((rate, duration_ms));
                proof {
                    assert(stages@ =~= seq![(rate, duration_ms)]);
                }
                DataExecutor::ConstantArrivalRate(
                    RampingArrivalRate::new(pre_allocate_users, stages, max_users),
                )
            },
            crate::logical::Executor::RampingUser { pre_allocate_users, stages } =>
                DataExecutor::RampingUser(RampingUser::new(stages, pre_allocate_users)),
            crate::logical::Executor::RampingArrivalRate {
                pre_allocate_users,
                max_users,
                stages,
            } => DataExecutor::RampingArrivalRate(
                RampingArrivalRate::new(pre_allocate_users, stages, max_users),
            ),
        }
    }
}

/// A busy user contributes to the busy count.
pub proof fn lemma_busy_at_count(s: Seq<bool>, i: int)
    requires
        0 <= i < s.len(),
        s[i],
    ensures
        count_busy(s) >= 1,
{
    lemma_count_busy_update(s, i, false);
    lemma_count_busy_le_len(s.update(i, false));
}

/// In a pool where every user is free, none is busy.
pub proof fn lemma_all_free_count(s: Seq<bool>)
    requires
        forall|i: int| 0 <= i < s.len() ==> !s[i],
    ensures
        count_busy(s) == 0,
    decreases s.len(),
{
    if s.len() > 0 {
        assert(forall|i: int| 0 <= i < s.drop_last().len() ==> s.drop_last()[i] == s[i]);
        lemma_all_free_count(s.drop_last());
    }
}

/// In a pool where every user is busy, the busy count is the pool size.
pub proof fn lemma_all_busy_count(s: Seq<bool>)
    requires
        forall|i: int| 0 <= i < s.len() ==> s[i],
    ensures
        count_busy(s) == s.len(),
    decreases s.len(),
{
    if s.len() > 0 {
        assert(forall|i: int| 0 <= i < s.drop_last().len() ==> s.drop_last()[i] == s[i]);
        lemma_all_busy_count(s.drop_last());
    }
}

} // verus!
