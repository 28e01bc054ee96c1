//! The shared pool of virtual users.
//!
//! Every executor drives its iterations through a `UserPool`: a user must be
//! acquired before an iteration starts on it and is released when the
//! iteration finishes.  The pool records its whole acquire/release history,
//! which lets the crate state — and prove — that for any user at most one
//! in-flight operation exists at any time.

use vstd::prelude::*;

verus! {

/// One step of a pool's life: an iteration start was granted on a user, an
/// iteration on a user finished, or the pool grew by some users.
#[derive(Clone, Copy, PartialEq, Eq, Structural, Debug)]
pub enum PoolEvent {
    Acquire(usize),
    Release(usize),
    Grow(usize),
}

/// The busy flags that a history of events leaves the pool with, starting
/// from an empty pool.
pub open spec fn trace_state(t: Seq<PoolEvent>) -> Seq<bool>
    decreases t.len(),
{
    if t.len() == 0 {
        Seq::empty()
    } else {
        let prev = trace_state(t.drop_last());
        match t.last() {
            PoolEvent::Acquire(u) => prev.update(u as int, true),
            PoolEvent::Release(u) => prev.update(u as int, false),
            PoolEvent::Grow(k) => prev + Seq::new(k as nat, |i: int| false),
        }
    }
}

/// Whether a history is one the pool admits: a user is only acquired while
/// free and only released while busy.
pub open spec fn trace_ok(t: Seq<PoolEvent>) -> bool
    decreases t.len(),
{
    if t.len() == 0 {
        true
    } else {
        let prev = trace_state(t.drop_last());
        trace_ok(t.drop_last()) && match t.last() {
            PoolEvent::Acquire(u) => (u as int) < prev.len() && !prev[u as int],
            PoolEvent::Release(u) => (u as int) < prev.len() && prev[u as int],
            PoolEvent::Grow(k) => true,
        }
    }
}

/// How many iteration starts a history grants on one user.
pub open spec fn acquire_count(t: Seq<PoolEvent>, u: usize) -> int
    decreases t.len(),
{
    if t.len() == 0 {
        0
    } else {
        acquire_count(t.drop_last(), u) + match t.last() {
            PoolEvent::Acquire(v) => if v == u {
                1int
            } else {
                0
            },
            _ => 0,
        }
    }
}

/// How many iteration completions a history records on one user.
pub open spec fn release_count(t: Seq<PoolEvent>, u: usize) -> int
    decreases t.len(),
{
    if t.len() == 0 {
        0
    } else {
        release_count(t.drop_last(), u) + match t.last() {
            PoolEvent::Release(v) => if v == u {
                1int
            } else {
                0
            },
            _ => 0,
        }
    }
}

/// The number of in-flight operations of one user after a history: starts
/// granted minus completions recorded.
pub open spec fn in_flight(t: Seq<PoolEvent>, u: usize) -> int {
    acquire_count(t, u) - release_count(t, u)
}

/// For any user in any executor, at most one in-flight operation exists at
/// any time: along every history the pool admits, the number of starts
/// granted on a user exceeds the number of completions recorded on it by at
/// most one — by exactly one while the user is busy, and by zero otherwise.
pub proof fn lemma_at_most_one_in_flight(t: Seq<PoolEvent>, u: usize)
    requires
        trace_ok(t),
    ensures
        in_flight(t, u) == if (u as int) < trace_state(t).len() && trace_state(t)[u as int] {
            1int
        } else {
            0
        },
        0 <= in_flight(t, u) <= 1,
    decreases t.len(),
{
    if t.len() > 0 {
        lemma_at_most_one_in_flight(t.drop_last(), u);
        let prev = trace_state(t.drop_last());
        let cur = trace_state(t);
        match t.last() {
            PoolEvent::Acquire(v) => {
                if v == u {
                    assert(cur[u as int]);
                } else {
                    assert(cur.len() == prev.len());
                    if (u as int) < prev.len() {
                        assert(cur[u as int] == prev[u as int]);
                    }
                }
            },
            PoolEvent::Release(v) => {
                if v == u {
                    assert(!cur[u as int]);
                } else {
                    assert(cur.len() == prev.len());
                    if (u as int) < prev.len() {
                        assert(cur[u as int] == prev[u as int]);
                    }
                }
            },
            PoolEvent::Grow(k) => {
                if (u as int) < prev.len() {
                    assert(cur[u as int] == prev[u as int]);
                } else if (u as int) < cur.len() {
                    assert(!cur[u as int]);
                }
            },
        }
    }
}

/// How many users of the pool are busy.
pub open spec fn count_busy(s: Seq<bool>) -> int
    decreases s.len(),
{
    if s.len() == 0 {
        0
    } else {
        count_busy(s.drop_last()) + if s.last() {
            1int
        } else {
            0
        }
    }
}

/// Busy users never outnumber the pool.
pub proof fn lemma_count_busy_le_len(s: Seq<bool>)
    ensures
        0 <= count_busy(s) <= s.len(),
    decreases s.len(),
{
    if s.len() > 0 {
        lemma_count_busy_le_len(s.drop_last());
    }
}

pub proof fn lemma_count_busy_update(s: Seq<bool>, i: int, b: bool)
    requires
        0 <= i < s.len(),
    ensures
        count_busy(s.update(i, b)) == count_busy(s) + (if b {
            1int
        } else {
            0
        }) - (if s[i] {
            1int
        } else {
            0
        }),
    decreases s.len(),
{
    let t = s.update(i, b);
    if i == s.len() - 1 {
        assert(t.drop_last() =~= s.drop_last());
    } else {
        assert(t.drop_last() =~= s.drop_last().update(i, b));
        lemma_count_busy_update(s.drop_last(), i, b);
    }
}

pub proof fn lemma_count_busy_grow(s: Seq<bool>, k: nat)
    ensures
        count_busy(s + Seq::new(k, |i: int| false)) == count_busy(s),
    decreases k,
{
    if k == 0 {
        assert(s + Seq::new(0, |i: int| false) =~= s);
    } else {
        let t = s + Seq::new(k, |i: int| false);
        assert(t.drop_last() =~= s + Seq::new((k - 1) as nat, |i: int| false));
        assert(!t.last());
        lemma_count_busy_grow(s, (k - 1) as nat);
    }
}

/// A pool of virtual users, each either free or with one operation in
/// flight.
pub struct UserPool {
    busy: Vec<bool>,
    history: Ghost<Seq<PoolEvent>>,
}

impl View for UserPool {
    type V = Seq<bool>;

    /// One busy flag per user.
    closed spec fn view(&self) -> Seq<bool> {
        self.busy@
    }
}

impl UserPool {
    /// The acquire/release history the pool has gone through.
    pub closed spec fn history(&self) -> Seq<PoolEvent> {
        self.history@
    }

    /// The pool admits its own history, and the history accounts for the
    /// current busy flags.
    pub closed spec fn wf(&self) -> bool {
        trace_ok(self.history@) && trace_state(self.history@) == self.busy@
    }

    /// A live pool admits its own history, and the history accounts for
    /// the current busy flags — so `lemma_at_most_one_in_flight` applies to
    /// the history of any well-formed pool, not only to abstract traces.
    pub proof fn lemma_history_admitted(&self)
        requires
            self.wf(),
        ensures
            trace_ok(self.history()),
            trace_state(self.history()) == self@,
    {
    }

    /// A pool of `n` users, all free.
    pub fn new(n: usize) -> (r: UserPool)
        ensures
            r.wf(),
            r@.len() == n,
            forall|i: int| 0 <= i < n ==> !r@[i],
            r.history() == seq![PoolEvent::Grow(n)],
    {
        let mut busy: Vec<bool> = Vec::new();
        let mut i: usize = 0;
        while i < n
            invariant
                0 <= i <= n,
                busy@.len() == i,
                forall|j: int| 0 <= j < i ==> !busy@[j],
            decreases n - i,
        {
            busy.push(false);
            i += 1;
        }
        let ghost h: Seq<PoolEvent> = seq![PoolEvent::Grow(n)];
        let r = UserPool { busy, history: Ghost(h) };
        proof {
            let t = seq![PoolEvent::Grow(n)];
            assert(t.drop_last() =~= Seq::<PoolEvent>::empty());
            assert(trace_state(Seq::<PoolEvent>::empty()) == Seq::<bool>::empty());
            assert(trace_ok(Seq::<PoolEvent>::empty()));
            assert(trace_state(t) =~= r.busy@);
        }
        r
    }

    /// How many users the pool holds.
    pub fn len(&self) -> (r: usize)
        ensures
            r == self@.len(),
    {
        self.busy.len()
    }

    /// Whether an operation of user `u` is in flight.
    pub fn is_busy(&self, u: usize) -> (r: bool)
        requires
            (u as int) < self@.len(),
        ensures
            r == self@[u as int],
    {
        self.busy[u]
    }

    /// Append `k` new, free users; existing users keep their state.
    pub fn grow(&mut self, k: usize)
        requires
            old(self).wf(),
            old(self)@.len() + k <= usize::MAX,
        ensures
            final(self).wf(),
            final(self)@ == old(self)@ + Seq::new(k as nat, |i: int| false),
            final(self).history() == old(self).history().push(PoolEvent::Grow(k)),
    {
        let mut i: usize = 0;
        let ghost base = self.busy@;
        while i < k
            invariant
                0 <= i <= k,
                base.len() + k <= usize::MAX,
                base == old(self).busy@,
                self.history == old(self).history,
                self.busy@ == base + Seq::new(i as nat, |j: int| false),
            decreases k - i,
        {
            self.busy.push(false);
            proof {
                assert(self.busy@ =~= base + Seq::new((i + 1) as nat, |j: int| false));
            }
            i += 1;
        }
        proof {
            self.history@ = self.history@.push(PoolEvent::Grow(k));
            assert(self.history@.drop_last() =~= old(self).history@);
            assert(trace_state(self.history@) =~= self.busy@);
        }
    }

    /// Try to grant an iteration start on user `u`: succeeds exactly when no
    /// operation of `u` is in flight, and marks `u` busy in that case.
    pub fn try_acquire(&mut self, u: usize) -> (r: bool)
        requires
            old(self).wf(),
            (u as int) < old(self)@.len(),
        ensures
            final(self).wf(),
            r == !old(self)@[u as int],
            final(self)@ == if r {
                old(self)@.update(u as int, true)
            } else {
                old(self)@
            },
            final(self).history() == if r {
                old(self).history().push(PoolEvent::Acquire(u))
            } else {
                old(self).history()
            },
    {
        if self.busy[u] {
            false
        } else {
            self.busy.set(u, true);
            proof {
                self.history@ = self.history@.push(PoolEvent::Acquire(u));
                assert(self.history@.drop_last() =~= old(self).history@);
            }
            true
        }
    }

    /// Record that the in-flight operation of user `u` finished.
    pub fn release(&mut self, u: usize)
        requires
            old(self).wf(),
            (u as int) < old(self)@.len(),
            old(self)@[u as int],
        ensures
            final(self).wf(),
            final(self)@ == old(self)@.update(u as int, false),
            final(self).history() == old(self).history().push(PoolEvent::Release(u)),
    {
        self.busy.set(u, false);
        proof {
            self.history@ = self.history@.push(PoolEvent::Release(u));
            assert(self.history@.drop_last() =~= old(self).history@);
        }
    }

    /// Grant a start on some free user, scanning cyclically from `start`.
    /// Returns the granted user, or `None` when every user is busy.
    pub fn acquire_from(&mut self, start: usize) -> (r: Option<usize>)
        requires
            old(self).wf(),
        ensures
            final(self).wf(),
            match r {
                Some(u) => (u as int) < old(self)@.len() && !old(self)@[u as int] && final(self)@
                    == old(self)@.update(u as int, true) && final(self).history() == old(
                self).history().push(PoolEvent::Acquire(u)),
                None => final(self)@ == old(self)@ && final(self).history() == old(self).history()
                    && forall|i: int| 0 <= i < old(self)@.len() ==> old(self)@[i],
            },
    {
        let n = self.busy.len();
        let mut step: usize = 0;
        while step < n
            invariant
                self.wf(),
                self == old(self),
                n == self@.len(),
                0 <= step <= n,
                forall|s: int|
                    0 <= s < step ==> self@[#[trigger] (((start as int) + s) % (n as int))],
            decreases n - step,
        {
            let u = if start < n {
                // steps wrap around the pool from `start`
                let off = n - start;
                if step < off {
                    start + step
                } else {
                    step - off
                }
            } else {
                let m = start % n;
                let off = n - m;
                if step < off {
                    m + step
                } else {
                    step - off
                }
            };
            proof {
                assert((u as int) == ((start as int) + (step as int)) % (n as int)) by (
                nonlinear_arith)
                    requires
                        n > 0,
                        0 <= step < n,
                        0 <= start,
                        (start as int) < (n as int) ==> (u as int) == if (step as int) < (n as int)
                            - (start as int) {
                            (start as int) + (step as int)
                        } else {
                            (step as int) - ((n as int) - (start as int))
                        },
                        (start as int) >= (n as int) ==> (u as int) == if (step as int) < (n as int)
                            - ((start as int) % (n as int)) {
                            ((start as int) % (n as int)) + (step as int)
                        } else {
                            (step as int) - ((n as int) - ((start as int) % (n as int)))
                        },
                ;
            }
            if !self.busy[u] {
                let _ = self.try_acquire(u);
                return Some(u);
            }
            step += 1;
        }
        proof {
            if self@.len() > 0 {
                assert forall|i: int| 0 <= i < self@.len() implies self@[i] by {
                    let s = (i - (start as int)) % (n as int);
                    assert(0 <= s < n);
                    assert((((start as int) + s) % (n as int)) == i) by (nonlinear_arith)
                        requires
                            n > 0,
                            0 <= i < n,
                            0 <= start,
                            s == (i - (start as int)) % (n as int),
                    ;
                }
            }
        }
        None
    }

    /// How many users are busy.
    pub fn busy_count(&self) -> (r: usize)
        ensures
            r == count_busy(self@),
    {
        let n = self.busy.len();
        let mut count: usize = 0;
        let mut i: usize = 0;
        proof {
            lemma_count_busy_le_len(self@);
        }
        while i < n
            invariant
                n == self@.len(),
                0 <= i <= n,
                count == count_busy(self@.take(i as int)),
                count <= i,
            decreases n - i,
        {
            proof {
                assert(self@.take((i + 1) as int).drop_last() =~= self@.take(i as int));
                assert(self@.take((i + 1) as int).last() == self@[i as int]);
            }
            if self.busy[i] {
                count += 1;
            }
            i += 1;
        }
        proof {
            assert(self@.take(n as int) =~= self@);
        }
        count
    }
}

} // verus!
