//! The telemetry bridge: it receives task spans and structured events,
//! folds measurements into the metric set, and emits the message stream.
//!
//! The bridge's invariant pins the stream's shape down: `End` is emitted
//! exactly once and only as the last message, and a message tagged with a
//! scenario is always preceded by that scenario's `ScenarioChanged`.

use vstd::prelude::*;
use crate::telemetry::message::{Message, message_scenario};
use crate::telemetry::metrics::{MetricValue, metric_corresponds, metric_updated, metric_init};
use crate::telemetry::task_event::{
    MetricSet, MetricSetKey, TaskEvent, TaskSpanData, Attribute, key_matches, spec_find_key,
    lemma_spec_find_key, set_updated,
};

verus! {

/// Whether the stream already announced a scenario.
pub open spec fn has_scenario_changed(ms: Seq<Message>, s: usize) -> bool {
    exists|j: int| 0 <= j < ms.len() && ms[j] == (Message::ScenarioChanged { scenario_id: s })
}

/// Appending a message keeps every prefix, and so every announcement, of
/// the stream.
proof fn lemma_stream_push(ms: Seq<Message>, m: Message)
    ensures
        forall|i: int| 0 <= i < ms.len() ==> #[trigger] ms.push(m)[i] == ms[i],
        forall|i: int| 0 <= i <= ms.len() ==> #[trigger] ms.push(m).take(i) == ms.take(i),
        forall|s: usize|
            has_scenario_changed(ms, s) ==> #[trigger] has_scenario_changed(ms.push(m), s),
{
    assert forall|i: int| 0 <= i <= ms.len() implies #[trigger] ms.push(m).take(i) == ms.take(
    i) by {
        assert(ms.push(m).take(i) =~= ms.take(i));
    }
    assert forall|s: usize| has_scenario_changed(ms, s) implies #[trigger] has_scenario_changed(
        ms.push(m),
        s,
    ) by {
        let j = choose|j: int|
            0 <= j < ms.len() && ms[j] == (Message::ScenarioChanged { scenario_id: s });
        assert(ms.push(m)[j] == ms[j]);
    }
}

/// The bridge: the metric set, the open task spans, and the message stream
/// emitted so far.
pub struct TelemetryBridge {
    pub messages: Vec<Message>,
    pub current_scenario: Option<usize>,
    pub ended: bool,
    pub metrics: MetricSet,
    pub spans: Vec<(u64, TaskSpanData)>,
}

impl TelemetryBridge {
    /// Whether a span with this identity is open.
    pub open spec fn spec_has_span(&self, id: u64) -> bool {
        exists|k: int| 0 <= k < self.spans@.len() && (#[trigger] self.spans@[k]).0 == id
    }

    /// The bridge's invariant.  In particular: `End` appears exactly when
    /// the stream has ended, and only as its last message; every message
    /// tagged with a scenario is preceded by that scenario's announcement;
    /// every open span belongs to an announced scenario.
    pub open spec fn wf(&self) -> bool {
        &&& self.metrics.wf()
        &&& (self.ended ==> self.messages@.len() >= 1)
        &&& forall|i: int|
            0 <= i < self.messages@.len() ==> ((#[trigger] self.messages@[i]) is End <==> (
            self.ended && i == self.messages@.len() - 1))
        &&& forall|i: int|
            0 <= i < self.messages@.len() ==> match message_scenario(#[trigger] self.messages@[i]) {
                Some(s) => has_scenario_changed(self.messages@.take(i), s),
                None => true,
            }
        &&& match self.current_scenario {
            Some(s) => has_scenario_changed(self.messages@, s),
            None => true,
        }
        &&& forall|k: int|
            0 <= k < self.spans@.len() ==> has_scenario_changed(
                self.messages@,
                (#[trigger] self.spans@[k]).1.scenario_id,
            )
        &&& forall|k: int, l: int|
            0 <= k < l < self.spans@.len() ==> (#[trigger] self.spans@[k]).0 != (
            #[trigger] self.spans@[l]).0
    }

    /// A fresh bridge with an empty stream.
    pub fn new() -> (r: TelemetryBridge)
        ensures
            r.wf(),
            r.messages@ == Seq::<Message>::empty(),
            !r.ended,
            r.current_scenario is None,
            r.metrics.entries@ == Seq::<
                (MetricSetKey, crate::telemetry::metrics::Metric),
            >::empty(),
            r.spans@ == Seq::<(u64, TaskSpanData)>::empty(),
    {
        TelemetryBridge {
            messages: Vec::new(),
            current_scenario: None,
            ended: false,
            metrics: MetricSet::new(),
            spans: Vec::new(),
        }
    }

    /// Announce that the stream now concerns the given scenario.
    pub fn scenario_changed(&mut self, scenario_id: usize)
        requires
            old(self).wf(),
            !old(self).ended,
        ensures
            final(self).wf(),
            !final(self).ended,
            final(self).messages@ == old(self).messages@.push(
                (Message::ScenarioChanged { scenario_id }),
            ),
            final(self).current_scenario == Some(scenario_id),
            final(self).metrics == old(self).metrics,
            final(self).spans == old(self).spans,
    {
        proof {
            lemma_stream_push(self.messages@, (Message::ScenarioChanged { scenario_id }));
        }
        self.messages.push(Message::ScenarioChanged { scenario_id });
        self.current_scenario = Some(scenario_id);
        proof {
            let ms1 = self.messages@;
            assert(ms1[ms1.len() - 1] == (Message::ScenarioChanged { scenario_id }));
        }
    }

    /// Emit one message that carries no scenario tag and is not `End`.
    fn emit(&mut self, m: Message)
        requires
            old(self).wf(),
            !old(self).ended,
            !(m is End),
            message_scenario(m) is None,
        ensures
            final(self).wf(),
            !final(self).ended,
            final(self).messages@ == old(self).messages@.push(m),
            final(self).current_scenario == old(self).current_scenario,
            final(self).metrics == old(self).metrics,
            final(self).spans == old(self).spans,
    {
        proof {
            lemma_stream_push(self.messages@, m);
        }
        self.messages.push(m);
    }

    /// Announce that an executor began running.
    pub fn executor_start(&mut self, id: usize, start_time_epoch_ms: i64, prior_executor_duration_ms: u64)
        requires
            old(self).wf(),
            !old(self).ended,
        ensures
            final(self).wf(),
            !final(self).ended,
            final(self).messages@ == old(self).messages@.push(
                (Message::ExecutorStart { id, start_time_epoch_ms, prior_executor_duration_ms }),
            ),
            final(self).current_scenario == old(self).current_scenario,
            final(self).metrics == old(self).metrics,
            final(self).spans == old(self).spans,
    {
        self.emit(Message::ExecutorStart { id, start_time_epoch_ms, prior_executor_duration_ms });
    }

    /// Announce that an executor finished.
    pub fn executor_end(&mut self, id: usize)
        requires
            old(self).wf(),
            !old(self).ended,
        ensures
            final(self).wf(),
            !final(self).ended,
            final(self).messages@ == old(self).messages@.push((Message::ExecutorEnd { id })),
            final(self).current_scenario == old(self).current_scenario,
            final(self).metrics == old(self).metrics,
            final(self).spans == old(self).spans,
    {
        self.emit(Message::ExecutorEnd { id });
    }

    /// Report a non-fatal error.
    pub fn error(&mut self, err: String)
        requires
            old(self).wf(),
            !old(self).ended,
        ensures
            final(self).wf(),
            !final(self).ended,
            final(self).messages@ == old(self).messages@.push((Message::Error { err })),
            final(self).current_scenario == old(self).current_scenario,
            final(self).metrics == old(self).metrics,
            final(self).spans == old(self).spans,
    {
        self.emit(Message::Error { err });
    }

    /// Report a fatal error.
    pub fn terminated_error(&mut self, err: String)
        requires
            old(self).wf(),
            !old(self).ended,
        ensures
            final(self).wf(),
            !final(self).ended,
            final(self).messages@ == old(self).messages@.push((Message::TerminatedError { err })),
            final(self).current_scenario == old(self).current_scenario,
            final(self).metrics == old(self).metrics,
            final(self).spans == old(self).spans,
    {
        self.emit(Message::TerminatedError { err });
    }

    /// Whether a span with this identity is open.
    pub fn has_span(&self, id: u64) -> (r: bool)
        ensures
            r == self.spec_has_span(id),
    {
        let n = self.spans.len();
        let mut k: usize = 0;
        while k < n
            invariant
                n == self.spans@.len(),
                0 <= k <= n,
                forall|j: int| 0 <= j < k ==> (#[trigger] self.spans@[j]).0 != id,
            decreases n - k,
        {
            if self.spans[k].0 == id {
                return true;
            }
            k += 1;
        }
        false
    }

    /// Open a per-iteration span under the current scenario: record its
    /// start time, its owning executor, and its inherited attributes.
    pub fn open_span(&mut self, id: u64, execution_id: usize, now_ms: u64, attributes: Vec<Attribute>)
        requires
            old(self).wf(),
            !old(self).ended,
            old(self).current_scenario is Some,
            !old(self).spec_has_span(id),
        ensures
            final(self).wf(),
            !final(self).ended,
            final(self).messages@ == old(self).messages@,
            final(self).current_scenario == old(self).current_scenario,
            final(self).metrics == old(self).metrics,
            final(self).spans@.len() == old(self).spans@.len() + 1,
            forall|k: int|
                0 <= k < old(self).spans@.len() ==> #[trigger] final(self).spans@[k] == old(
                self).spans@[k],
            final(self).spans@.last().0 == id,
            final(self).spans@.last().1.start_time_ms == now_ms,
            final(self).spans@.last().1.execution_id == execution_id,
            final(self).spans@.last().1.scenario_id == old(self).current_scenario.unwrap(),
            final(self).spans@.last().1.attributes == attributes,
    {
        let scenario_id = match self.current_scenario {
            Some(s) => s,
            None => 0,
        };
        let data = TaskSpanData {
            start_time_ms: now_ms,
            execution_id,
            scenario_id,
            attributes,
        };
        self.spans.push((id, data));
        proof {
            let sp1 = self.spans@;
            assert(forall|k: int| 0 <= k < sp1.len() - 1 ==> #[trigger] sp1[k] == old(self).spans@[k]);
        }
    }

    /// Close an open span: emit the `TaskTime` message whose duration is
    /// exactly the span's close time minus its open time.
    pub fn close_span(&mut self, id: u64, now_ms: u64)
        requires
            old(self).wf(),
            !old(self).ended,
            old(self).spec_has_span(id),
            forall|k: int|
                0 <= k < old(self).spans@.len() && (#[trigger] old(self).spans@[k]).0 == id ==>
                    old(self).spans@[k].1.start_time_ms <= now_ms,
        ensures
            final(self).wf(),
            !final(self).ended,
            final(self).current_scenario == old(self).current_scenario,
            final(self).metrics == old(self).metrics,
            final(self).spans@.len() == old(self).spans@.len() - 1,
            !final(self).spec_has_span(id),
            exists|k: int|
                {
                    &&& 0 <= k < old(self).spans@.len()
                    &&& (#[trigger] old(self).spans@[k]).0 == id
                    &&& final(self).spans@ == old(self).spans@.remove(k)
                    &&& final(self).messages@ == old(self).messages@.push(
                        (Message::TaskTime {
                            execution_id: old(self).spans@[k].1.execution_id,
                            scenario_id: old(self).spans@[k].1.scenario_id,
                            duration_ms: (now_ms - old(self).spans@[k].1.start_time_ms) as u64,
                        }),
                    )
                },
    {
        let ghost sp0 = self.spans@;
        let ghost ms0 = self.messages@;
        let n = self.spans.len();
        let mut k: usize = 0;
        while k < n
            invariant
                self.wf(),
                self == old(self),
                sp0 == self.spans@,
                ms0 == self.messages@,
                !self.ended,
                n == sp0.len(),
                0 <= k <= n,
                self.spec_has_span(id),
                forall|j: int|
                    0 <= j < sp0.len() && (#[trigger] sp0[j]).0 == id ==> sp0[j].1.start_time_ms
                        <= now_ms,
                forall|j: int| 0 <= j < k ==> (#[trigger] sp0[j]).0 != id,
            decreases n - k,
        {
            if self.spans[k].0 == id {
                let pair = self.spans.remove(k);
                let span = pair.1;
                let m = Message::TaskTime {
                    execution_id: span.execution_id,
                    scenario_id: span.scenario_id,
                    duration_ms: now_ms - span.start_time_ms,
                };
                proof {
                    lemma_stream_push(ms0, m);
                }
                self.messages.push(m);
                proof {
                    let ms1 = self.messages@;
                    assert(ms1.take(ms1.len() - 1) =~= ms0);
                    assert(has_scenario_changed(ms0, span.scenario_id));
                    assert forall|a: int, b: int|
                        0 <= a < b < self.spans@.len() implies (#[trigger] self.spans@[a]).0 != (
                    #[trigger] self.spans@[b]).0 by {
                        if a < k {
                            assert(self.spans@[a] == sp0[a]);
                        } else {
                            assert(self.spans@[a] == sp0[a + 1]);
                        }
                        if b < k {
                            assert(self.spans@[b] == sp0[b]);
                        } else {
                            assert(self.spans@[b] == sp0[b + 1]);
                        }
                    }
                    assert(!self.spec_has_span(id)) by {
                        if self.spec_has_span(id) {
                            let j = choose|j: int|
                                0 <= j < self.spans@.len() && (#[trigger] self.spans@[j]).0 == id;
                            if j < k {
                                assert(self.spans@[j] == sp0[j]);
                            } else {
                                assert(self.spans@[j] == sp0[j + 1]);
                            }
                        }
                    }
                    assert forall|j: int|
                        0 <= j < self.spans@.len() implies has_scenario_changed(
                        self.messages@,
                        (#[trigger] self.spans@[j]).1.scenario_id,
                    ) by {
                        if j < k {
                            assert(self.spans@[j] == sp0[j]);
                        } else {
                            assert(self.spans@[j] == sp0[j + 1]);
                        }
                    }
                    assert(0 <= k < sp0.len() && (sp0[k as int]).0 == id && self.spans@ == sp0.remove(
                        k as int,
                    ) && self.messages@ == ms0.push(
                        (Message::TaskTime {
                            execution_id: sp0[k as int].1.execution_id,
                            scenario_id: sp0[k as int].1.scenario_id,
                            duration_ms: (now_ms - sp0[k as int].1.start_time_ms) as u64,
                        }),
                    ));
                }
                return ;
            }
            k += 1;
        }
        proof {
            assert(false);
        }
    }

    /// Whether `record` can accept this event, tested at run time.
    pub fn can_record(&self, event: &TaskEvent) -> (r: bool)
        requires
            self.wf(),
        ensures
            r == self.metrics.update_ok(*event),
    {
        self.metrics.can_update(event)
    }

    /// Fold one structured event into the metric set.  No message is
    /// emitted here: snapshots are coalesced into periodic updates.
    pub fn record(&mut self, event: TaskEvent)
        requires
            old(self).wf(),
            !old(self).ended,
            old(self).metrics.update_ok(event),
        ensures
            final(self).wf(),
            !final(self).ended,
            final(self).messages@ == old(self).messages@,
            final(self).current_scenario == old(self).current_scenario,
            final(self).spans == old(self).spans,
            set_updated(old(self).metrics.entries@, event, final(self).metrics.entries@),
    {
        self.metrics.update(event);
    }

    /// Emit a periodic progress report for an executor, carrying a snapshot
    /// of every metric's current value.
    pub fn executor_update(
        &mut self,
        id: usize,
        users: u64,
        max_users: u64,
        total_iteration: Option<u64>,
        total_duration_ms: Option<u64>,
        stage: Option<usize>,
        stage_duration_ms: Option<u64>,
        stages: Option<usize>,
    )
        requires
            old(self).wf(),
            !old(self).ended,
        ensures
            final(self).wf(),
            !final(self).ended,
            final(self).current_scenario == old(self).current_scenario,
            final(self).metrics == old(self).metrics,
            final(self).spans == old(self).spans,
            final(self).messages@.len() == old(self).messages@.len() + 1,
            forall|i: int|
                0 <= i < old(self).messages@.len() ==> #[trigger] final(self).messages@[i] == old(
                self).messages@[i],
            ({
                let m = final(self).messages@.last();
                &&& m matches Message::ExecutorUpdate {
                    id: id2,
                    users: u2,
                    max_users: x2,
                    total_iteration: ti2,
                    total_duration_ms: td2,
                    stage: st2,
                    stage_duration_ms: sd2,
                    stages: ss2,
                    metrics: mv,
                }
                &&& id2 == id
                &&& u2 == users
                &&& x2 == max_users
                &&& ti2 == total_iteration
                &&& td2 == total_duration_ms
                &&& st2 == stage
                &&& sd2 == stage_duration_ms
                &&& ss2 == stages
                &&& mv@.len() == old(self).metrics.entries@.len()
                &&& forall|i: int|
                    0 <= i < mv@.len() ==> key_matches(
                        (#[trigger] old(self).metrics.entries@[i]).0,
                        mv@[i].0,
                    ) && metric_corresponds(old(self).metrics.entries@[i].1, mv@[i].1)
            }),
    {
        let metrics = self.metrics.entries();
        let m = Message::ExecutorUpdate {
            id,
            users,
            max_users,
            total_iteration,
            total_duration_ms,
            stage,
            stage_duration_ms,
            stages,
            metrics,
        };
        proof {
            lemma_stream_push(self.messages@, m);
        }
        self.messages.push(m);
    }

    /// Close the stream: emit the one and only `End`, as its last message.
    pub fn end(&mut self)
        requires
            old(self).wf(),
            !old(self).ended,
        ensures
            final(self).wf(),
            final(self).ended,
            final(self).messages@ == old(self).messages@.push(Message::End),
            final(self).current_scenario == old(self).current_scenario,
            final(self).metrics == old(self).metrics,
            final(self).spans == old(self).spans,
    {
        proof {
            lemma_stream_push(self.messages@, Message::End);
        }
        self.messages.push(Message::End);
        self.ended = true;
    }
}

/// The stream a finished bridge leaves behind is well-formed: it ends with
/// exactly one `End` — its last message — and every message tagged with a
/// scenario is preceded by that scenario's `ScenarioChanged`.
pub proof fn lemma_stream_valid(b: &TelemetryBridge)
    requires
        b.wf(),
        b.ended,
    ensures
        b.messages@.len() >= 1,
        b.messages@.last() is End,
        forall|i: int| 0 <= i < b.messages@.len() - 1 ==> !((#[trigger] b.messages@[i]) is End),
        forall|i: int|
            0 <= i < b.messages@.len() ==> match message_scenario(#[trigger] b.messages@[i]) {
                Some(s) => has_scenario_changed(b.messages@.take(i), s),
                None => true,
            },
{
    assert(b.messages@[b.messages@.len() - 1] is End);
}

/// Two keys matching a common key match each other.
proof fn lemma_key_matches_trans(a: MetricSetKey, b: MetricSetKey, c: MetricSetKey)
    requires
        key_matches(a, b),
        key_matches(a, c),
    ensures
        key_matches(b, c),
{
    assert forall|i: int|
        0 <= i < b.attributes@.len() implies (#[trigger] b.attributes@[i]).0@ == c.attributes@[i].0@
        && crate::telemetry::task_event::value_matches(b.attributes@[i].1, c.attributes@[i].1) by {
        assert((a.attributes@[i]).0@ == b.attributes@[i].0@);
        assert((a.attributes@[i]).0@ == c.attributes@[i].0@);
        assert(crate::telemetry::task_event::value_matches(a.attributes@[i].1, b.attributes@[i].1));
        assert(crate::telemetry::task_event::value_matches(a.attributes@[i].1, c.attributes@[i].1));
    }
}

/// Every observation recorded through the bridge is reflected in the next
/// snapshot: after a measurement is folded into the aggregators, any
/// snapshot of them — as carried by a subsequent `ExecutorUpdate` — holds
/// an entry for the measurement's key whose value reports the aggregator
/// that absorbed it.
pub proof fn lemma_observation_reflected(
    s0: Seq<(MetricSetKey, crate::telemetry::metrics::Metric)>,
    event: TaskEvent,
    s1: Seq<(MetricSetKey, crate::telemetry::metrics::Metric)>,
    snap: Seq<(MetricSetKey, MetricValue)>,
)
    requires
        set_updated(s0, event, s1),
        snap.len() == s1.len(),
        forall|i: int|
            0 <= i < snap.len() ==> key_matches((#[trigger] s1[i]).0, snap[i].0)
                && metric_corresponds(s1[i].1, snap[i].1),
    ensures
        exists|i: int|
            {
                &&& 0 <= i < snap.len()
                &&& key_matches(event.key, (#[trigger] snap[i]).0)
                &&& metric_corresponds(s1[i].1, snap[i].1)
                &&& (if spec_find_key(s0, event.key) >= 0 {
                    metric_updated(s0[spec_find_key(s0, event.key)].1, event.value, s1[i].1)
                } else {
                    metric_init(event.key.metric_type, event.value, s1[i].1)
                })
            },
{
    lemma_spec_find_key(s0, event.key);
    let j = spec_find_key(s0, event.key);
    if j >= 0 {
        assert(key_matches(s0[j].0, event.key));
        assert(s1[j].0 == s0[j].0);
        assert(key_matches(s1[j].0, snap[j].0));
        lemma_key_matches_trans(s1[j].0, event.key, snap[j].0);
        assert(0 <= j < snap.len() && key_matches(event.key, (snap[j]).0) && metric_corresponds(
            s1[j].1,
            snap[j].1,
        ) && metric_updated(s0[j].1, event.value, s1[j].1));
    } else {
        let i = s1.len() - 1;
        assert(s1.last().0 == event.key);
        assert(key_matches(s1[i].0, snap[i].0));
        assert(key_matches(event.key, snap[i].0)) by {
            assert(s1[i].0 == event.key);
        }
        assert(0 <= i < snap.len() && key_matches(event.key, (snap[i]).0) && metric_corresponds(
            s1[i].1,
            snap[i].1,
        ) && metric_init(event.key.metric_type, event.value, s1[i].1));
    }
}

} // verus!
