//! Task events and spans: the structured measurements emitted from inside
//! user operations, and the keyed set of aggregators they update.
//!
//! An event carries a metric key — name, metric type and an ordered
//! attribute list — and one measurement.  Events within a task span inherit
//! the span's attributes; each span is timed and reported when it closes.

use vstd::prelude::*;
use crate::telemetry::metrics::{
    Metric, MetricType, MetricValue, metric_wf, metric_nonempty, metric_updated, metric_init,
    metric_corresponds, valid_combo,
};

verus! {

/// A scalar allowed in an attribute set or as a measurement.  Durations are
/// in milliseconds.
#[derive(Debug, Clone)]
pub enum Value {
    String(String),
    Number(i64),
    UnsignedNumber(u64),
    Duration(u64),
}

/// Whether two values are the same scalar.
pub open spec fn value_matches(a: Value, b: Value) -> bool {
    match (a, b) {
        (Value::String(x), Value::String(y)) => x@ == y@,
        (Value::Number(x), Value::Number(y)) => x == y,
        (Value::UnsignedNumber(x), Value::UnsignedNumber(y)) => x == y,
        (Value::Duration(x), Value::Duration(y)) => x == y,
        _ => false,
    }
}

/// Compare two values.
pub fn value_eq(a: &Value, b: &Value) -> (r: bool)
    ensures
        r == value_matches(*a, *b),
{
    match (a, b) {
        (Value::String(x), Value::String(y)) => x.eq(y),
        (Value::Number(x), Value::Number(y)) => x == y,
        (Value::UnsignedNumber(x), Value::UnsignedNumber(y)) => x == y,
        (Value::Duration(x), Value::Duration(y)) => x == y,
        _ => false,
    }
}

/// Copy a value.
pub fn value_clone(a: &Value) -> (r: Value)
    ensures
        value_matches(*a, r),
{
    match a {
        Value::String(x) => Value::String(x.clone()),
        Value::Number(x) => Value::Number(*x),
        Value::UnsignedNumber(x) => Value::UnsignedNumber(*x),
        Value::Duration(x) => Value::Duration(*x),
    }
}

/// One named attribute.
pub type Attribute = (String, Value);

/// Whether two attribute lists carry the same names and values in the same
/// order.
pub open spec fn attrs_match(a: Seq<Attribute>, b: Seq<Attribute>) -> bool {
    a.len() == b.len() && forall|i: int|
        0 <= i < a.len() ==> (#[trigger] a[i]).0@ == b[i].0@ && value_matches(a[i].1, b[i].1)
}

/// The identity of a metric: name, type, and ordered attribute list.  The
/// attribute order is preserved so that stable labels are emitted.
#[derive(Debug)]
pub struct MetricSetKey {
    pub name: String,
    pub metric_type: MetricType,
    pub attributes: Vec<Attribute>,
}

/// Whether two keys identify the same metric.
pub open spec fn key_matches(a: MetricSetKey, b: MetricSetKey) -> bool {
    a.name@ == b.name@ && a.metric_type == b.metric_type && attrs_match(a.attributes@, b.attributes@)
}

/// Compare two keys.
pub fn key_eq(a: &MetricSetKey, b: &MetricSetKey) -> (r: bool)
    ensures
        r == key_matches(*a, *b),
{
    if !a.name.eq(&b.name) {
        return false;
    }
    let type_eq = match (a.metric_type, b.metric_type) {
        (MetricType::Counter, MetricType::Counter) => true,
        (MetricType::Gauge, MetricType::Gauge) => true,
        (MetricType::Histogram, MetricType::Histogram) => true,
        _ => false,
    };
    if !type_eq {
        return false;
    }
    let n = a.attributes.len();
    if n != b.attributes.len() {
        return false;
    }
    let mut i: usize = 0;
    while i < n
        invariant
            n == a.attributes@.len() == b.attributes@.len(),
            0 <= i <= n,
            forall|j: int|
                0 <= j < i ==> (#[trigger] a.attributes@[j]).0@ == b.attributes@[j].0@
                    && value_matches(a.attributes@[j].1, b.attributes@[j].1),
        decreases n - i,
    {
        if !a.attributes[i].0.eq(&b.attributes[i].0) {
            return false;
        }
        if !value_eq(&a.attributes[i].1, &b.attributes[i].1) {
            return false;
        }
        i += 1;
    }
    true
}

/// Copy a key.
pub fn key_clone(a: &MetricSetKey) -> (r: MetricSetKey)
    ensures
        key_matches(*a, r),
{
    let mut attributes: Vec<Attribute> = Vec::new();
    let n = a.attributes.len();
    let mut i: usize = 0;
    while i < n
        invariant
            n == a.attributes@.len(),
            0 <= i <= n,
            attributes@.len() == i,
            forall|j: int|
                0 <= j < i ==> (#[trigger] a.attributes@[j]).0@ == attributes@[j].0@
                    && value_matches(a.attributes@[j].1, attributes@[j].1),
        decreases n - i,
    {
        attributes.push((a.attributes[i].0.clone(), value_clone(&a.attributes[i].1)));
        i += 1;
    }
    MetricSetKey { name: a.name.clone(), metric_type: a.metric_type, attributes }
}

/// One structured measurement: a key and a value.
pub struct TaskEvent {
    pub key: MetricSetKey,
    pub value: Value,
}

impl TaskEvent {
    /// An event from its parts.
    pub fn new(name: String, metric_type: MetricType, attributes: Vec<Attribute>, value: Value) -> (r:
        TaskEvent)
        ensures
            r.key.name == name,
            r.key.metric_type == metric_type,
            r.key.attributes == attributes,
            r.value == value,
    {
        TaskEvent { key: MetricSetKey { name, metric_type, attributes }, value }
    }

    /// Record one field of the event: the field named `value` supplies the
    /// measurement; every other field becomes an attribute appended to the
    /// key.
    pub fn record_field(&mut self, name: String, value: Value)
        ensures
            final(self).key.name == old(self).key.name,
            final(self).key.metric_type == old(self).key.metric_type,
            if name@ == "value"@ {
                &&& final(self).value == value
                &&& final(self).key.attributes == old(self).key.attributes
            } else {
                &&& final(self).value == old(self).value
                &&& final(self).key.attributes@ == old(self).key.attributes@.push((name, value))
            },
    {
        if name.eq(&String::from_str("value")) {
            self.value = value;
        } else {
            self.key.attributes.push((name, value));
        }
    }
}

/// The data a per-iteration span records: its start time, the identities of
/// the executor and scenario that own it, and its inherited attributes.
pub struct TaskSpanData {
    pub start_time_ms: u64,
    pub execution_id: usize,
    pub scenario_id: usize,
    pub attributes: Vec<Attribute>,
}

impl TaskSpanData {
    /// A span opened now under the given executor and scenario.
    pub fn new(start_time_ms: u64, execution_id: usize, scenario_id: usize) -> (r: TaskSpanData)
        ensures
            r.start_time_ms == start_time_ms,
            r.execution_id == execution_id,
            r.scenario_id == scenario_id,
            r.attributes@ == Seq::<Attribute>::empty(),
    {
        TaskSpanData { start_time_ms, execution_id, scenario_id, attributes: Vec::new() }
    }

    /// Record one field of the span as an inherited attribute.
    pub fn record_field(&mut self, name: String, value: Value)
        ensures
            final(self).start_time_ms == old(self).start_time_ms,
            final(self).execution_id == old(self).execution_id,
            final(self).scenario_id == old(self).scenario_id,
            final(self).attributes@ == old(self).attributes@.push((name, value)),
    {
        self.attributes.push((name, value));
    }
}

/// The first entry matching a key, or `-1` when none does.
pub open spec fn spec_find_key(s: Seq<(MetricSetKey, Metric)>, k: MetricSetKey) -> int
    decreases s.len(),
{
    if s.len() == 0 {
        -1
    } else if key_matches(s[0].0, k) {
        0
    } else {
        let r = spec_find_key(s.drop_first(), k);
        if r < 0 {
            -1
        } else {
            r + 1
        }
    }
}

/// What `spec_find_key` finds: the first match, or nothing.
pub proof fn lemma_spec_find_key(s: Seq<(MetricSetKey, Metric)>, k: MetricSetKey)
    ensures
        spec_find_key(s, k) == -1 ==> forall|j: int|
            0 <= j < s.len() ==> !key_matches((#[trigger] s[j]).0, k),
        spec_find_key(s, k) >= 0 ==> spec_find_key(s, k) < s.len() && key_matches(
            s[spec_find_key(s, k)].0,
            k,
        ) && forall|j: int| 0 <= j < spec_find_key(s, k) ==> !key_matches((#[trigger] s[j]).0, k),
    decreases s.len(),
{
    if s.len() > 0 && !key_matches(s[0].0, k) {
        lemma_spec_find_key(s.drop_first(), k);
        let r0 = spec_find_key(s.drop_first(), k);
        if r0 < 0 {
            assert(spec_find_key(s, k) == -1);
            assert forall|j: int| 0 <= j < s.len() implies !key_matches((#[trigger] s[j]).0, k) by {
                if j > 0 {
                    assert(s.drop_first()[j - 1] == s[j]);
                }
            }
        } else {
            assert(spec_find_key(s, k) == r0 + 1);
            assert(s.drop_first()[r0] == s[r0 + 1]);
            assert forall|j: int| 0 <= j < r0 + 1 implies !key_matches((#[trigger] s[j]).0, k) by {
                if j > 0 {
                    assert(s.drop_first()[j - 1] == s[j]);
                }
            }
        }
    }
}

/// How folding one measurement into a keyed aggregator sequence changes it:
/// the aggregator under the event's key absorbs the measurement — it is
/// created first when the key is new — and every other entry stays as it
/// was.
pub open spec fn set_updated(
    s0: Seq<(MetricSetKey, Metric)>,
    event: TaskEvent,
    s1: Seq<(MetricSetKey, Metric)>,
) -> bool {
    let j = spec_find_key(s0, event.key);
    if j >= 0 {
        &&& s1.len() == s0.len()
        &&& forall|i: int| 0 <= i < s0.len() && i != j ==> #[trigger] s1[i] == s0[i]
        &&& s1[j].0 == s0[j].0
        &&& metric_updated(s0[j].1, event.value, s1[j].1)
    } else {
        &&& s1.len() == s0.len() + 1
        &&& forall|i: int| 0 <= i < s0.len() ==> #[trigger] s1[i] == s0[i]
        &&& s1.last().0 == event.key
        &&& metric_init(event.key.metric_type, event.value, s1.last().1)
    }
}

/// The set of aggregators, keyed by metric key; at most one aggregator per
/// key.
#[derive(Debug)]
pub struct MetricSet {
    pub entries: Vec<(MetricSetKey, Metric)>,
}

impl MetricSet {
    /// The set's invariant: keys are distinct and every aggregator is
    /// well-formed and has received at least one measurement.
    pub open spec fn wf(&self) -> bool {
        &&& forall|i: int, j: int|
            0 <= i < j < self.entries@.len() ==> !key_matches(
                (#[trigger] self.entries@[i]).0,
                (#[trigger] self.entries@[j]).0,
            )
        &&& forall|i: int|
            0 <= i < self.entries@.len() ==> metric_wf((#[trigger] self.entries@[i]).1)
                && metric_nonempty(self.entries@[i].1)
    }

    /// An empty set.
    pub fn new() -> (r: MetricSet)
        ensures
            r.wf(),
            r.entries@ == Seq::<(MetricSetKey, Metric)>::empty(),
    {
        MetricSet { entries: Vec::new() }
    }

    /// Whether an update for this event can be accepted: a fresh key must
    /// carry a measurement its metric type accepts, and an existing
    /// histogram must have room for one more observation.
    pub open spec fn update_ok(&self, event: TaskEvent) -> bool {
        let j = spec_find_key(self.entries@, event.key);
        if j >= 0 {
            match self.entries@[j].1 {
                Metric::Duration(h) => match event.value {
                    Value::Duration(_) => h.values@.len() + 1 <= usize::MAX as int / 99,
                    _ => true,
                },
                _ => true,
            }
        } else {
            valid_combo(event.key.metric_type, event.value)
        }
    }

    /// Whether `update` can accept this event, tested at run time: a fresh
    /// key must carry a measurement its metric type accepts, and an
    /// existing histogram must have room for one more observation.
    pub fn can_update(&self, event: &TaskEvent) -> (r: bool)
        requires
            self.wf(),
        ensures
            r == self.update_ok(*event),
    {
        proof {
            lemma_spec_find_key(self.entries@, event.key);
        }
        let ghost s0 = self.entries@;
        let n = self.entries.len();
        let mut i: usize = 0;
        while i < n
            invariant
                self.wf(),
                s0 == self.entries@,
                n == s0.len(),
                0 <= i <= n,
                forall|j: int| 0 <= j < i ==> !key_matches((#[trigger] s0[j]).0, event.key),
            decreases n - i,
        {
            if key_eq(&self.entries[i].0, &event.key) {
                proof {
                    lemma_spec_find_key(s0, event.key);
                    if spec_find_key(s0, event.key) != i {
                        assert(false);
                    }
                }
                let r = match (&self.entries[i].1, &event.value) {
                    (Metric::Duration(h), Value::Duration(_)) => h.values.len() < usize::MAX / 99,
                    _ => true,
                };
                return r;
            }
            i += 1;
        }
        proof {
            lemma_spec_find_key(s0, event.key);
            if spec_find_key(s0, event.key) >= 0 {
                assert(false);
            }
        }
        match (event.key.metric_type, &event.value) {
            (MetricType::Counter, Value::UnsignedNumber(_)) => true,
            (MetricType::Gauge, Value::Number(_)) => true,
            (MetricType::Gauge, Value::UnsignedNumber(_)) => true,
            (MetricType::Gauge, Value::Duration(_)) => true,
            (MetricType::Histogram, Value::Duration(_)) => true,
            _ => false,
        }
    }

    /// Fold one measurement into the set: update the aggregator under the
    /// event's key, creating it first if the key is new.
    pub fn update(&mut self, event: TaskEvent)
        requires
            old(self).wf(),
            old(self).update_ok(event),
        ensures
            final(self).wf(),
            set_updated(old(self).entries@, event, final(self).entries@),
    {
        proof {
            lemma_spec_find_key(self.entries@, event.key);
        }
        let ghost s0 = self.entries@;
        let n = self.entries.len();
        let mut i: usize = 0;
        while i < n
            invariant
                self.wf(),
                self == old(self),
                s0 == self.entries@,
                n == s0.len(),
                0 <= i <= n,
                old(self).update_ok(event),
                forall|j: int| 0 <= j < i ==> !key_matches((#[trigger] s0[j]).0, event.key),
            decreases n - i,
        {
            if key_eq(&self.entries[i].0, &event.key) {
                proof {
                    lemma_spec_find_key(s0, event.key);
                    if spec_find_key(s0, event.key) != i {
                        assert(false);
                    }
                }
                let pair = self.entries.remove(i);
                let k = pair.0;
                let mut m = pair.1;
                m.update(event.value);
                self.entries.insert(i, (k, m));
                proof {
                    assert(self.entries@ =~= s0.update(i as int, (s0[i as int].0, m)));
                }
                return ;
            }
            i += 1;
        }
        proof {
            lemma_spec_find_key(s0, event.key);
            if spec_find_key(s0, event.key) >= 0 {
                assert(false);
            }
        }
        let mut m = Metric::new(event.key.metric_type, &event.value);
        m.update(event.value);
        self.entries.push((event.key, m));
        proof {
            assert(self.entries@.drop_last() =~= s0);
        }
    }

    /// A well-formed set holds at most one entry per key: any two indices
    /// whose keys match a common key are the same index, so a snapshot
    /// yields exactly one pair for each recorded key.
    pub proof fn lemma_unique_key_entry(&self, k: MetricSetKey, i: int, j: int)
        requires
            self.wf(),
            0 <= i < self.entries@.len(),
            0 <= j < self.entries@.len(),
            key_matches(self.entries@[i].0, k),
            key_matches(self.entries@[j].0, k),
        ensures
            i == j,
    {
        if i != j {
            let a = self.entries@[i].0;
            let b = self.entries@[j].0;
            assert(key_matches(a, b)) by {
                assert(forall|p: int|
                    0 <= p < a.attributes@.len() ==> (#[trigger] a.attributes@[p]).0@
                        == k.attributes@[p].0@ && value_matches(a.attributes@[p].1, k.attributes@[p].1));
                assert(forall|p: int|
                    0 <= p < b.attributes@.len() ==> (#[trigger] b.attributes@[p]).0@
                        == k.attributes@[p].0@ && value_matches(b.attributes@[p].1, k.attributes@[p].1));
                assert forall|p: int|
                    0 <= p < a.attributes@.len() implies (#[trigger] a.attributes@[p]).0@
                    == b.attributes@[p].0@ && value_matches(a.attributes@[p].1, b.attributes@[p].1) by {
                    assert(value_matches(a.attributes@[p].1, k.attributes@[p].1));
                    assert(value_matches(b.attributes@[p].1, k.attributes@[p].1));
                }
            }
        }
    }

    /// A snapshot of every metric's key and current value, in insertion
    /// order.
    pub fn entries(&self) -> (r: Vec<(MetricSetKey, MetricValue)>)
        requires
            self.wf(),
        ensures
            r@.len() == self.entries@.len(),
            forall|i: int|
                0 <= i < r@.len() ==> key_matches((#[trigger] self.entries@[i]).0, r@[i].0)
                    && metric_corresponds(self.entries@[i].1, r@[i].1),
    {
        let mut r: Vec<(MetricSetKey, MetricValue)> = Vec::new();
        let n = self.entries.len();
        let mut i: usize = 0;
        while i < n
            invariant
                self.wf(),
                n == self.entries@.len(),
                0 <= i <= n,
                r@.len() == i,
                forall|j: int|
                    0 <= j < i ==> key_matches((#[trigger] self.entries@[j]).0, r@[j].0)
                        && metric_corresponds(self.entries@[j].1, r@[j].1),
            decreases n - i,
        {
            let key = key_clone(&self.entries[i].0);
            let value = self.entries[i].1.value();
            r.push((key, value));
            i += 1;
        }
        r
    }
}

} // verus!
