//! Metric aggregators: counters, gauges and duration histograms keyed by
//! (name, type, attribute set).
//!
//! The aggregators here keep exact integer state; their concurrent,
//! floating-point counterparts (atomics, streaming percentile estimation)
//! live with the asynchronous runtime, which consults this model for the
//! aggregation discipline.

use vstd::prelude::*;
use vstd::seq_lib::group_to_multiset_ensures;
use vstd::multiset::Multiset;

verus! {

/// How a metric aggregates its observations.
#[derive(Debug, Hash, PartialEq, Eq, Clone, Copy, Structural)]
pub enum MetricType {
    Counter,
    Gauge,
    Histogram,
}

/// The lower-case name of a metric type.
pub open spec fn spec_metric_type_name(t: MetricType) -> Seq<char> {
    match t {
        MetricType::Counter => "counter"@,
        MetricType::Gauge => "gauge"@,
        MetricType::Histogram => "histogram"@,
    }
}

impl MetricType {
    /// Render the lower-case name of this metric type.
    pub fn to_string(&self) -> (r: String)
        ensures
            r@ == spec_metric_type_name(*self),
    {
        match self {
            MetricType::Counter => String::from_str("counter"),
            MetricType::Gauge => String::from_str("gauge"),
            MetricType::Histogram => String::from_str("histogram"),
        }
    }

    /// Parse a lower-case metric type name.
    pub fn parse(s: &str) -> (r: Option<MetricType>)
        ensures
            match r {
                Some(t) => s@ == spec_metric_type_name(t),
                None => s@ != "counter"@ && s@ != "gauge"@ && s@ != "histogram"@,
            },
    {
        let owned = s.to_owned();
        if owned.eq(&String::from_str("counter")) {
            Some(MetricType::Counter)
        } else if owned.eq(&String::from_str("gauge")) {
            Some(MetricType::Gauge)
        } else if owned.eq(&String::from_str("histogram")) {
            Some(MetricType::Histogram)
        } else {
            None
        }
    }
}

impl core::str::FromStr for MetricType {
    type Err = ();

    /// Parse a lower-case metric type name.
    fn from_str(s: &str) -> Result<MetricType, ()> {
        match MetricType::parse(s) {
            Some(t) => Ok(t),
            None => Err(()),
        }
    }
}

/// A reported snapshot of one metric.  Durations are in milliseconds.
#[derive(Debug, Copy, Clone, PartialEq, Eq)]
pub enum MetricValue {
    Counter(u64),
    GaugeI64(i64),
    GaugeU64(u64),
    GaugeDuration(u64),
    /// Histogram values ((p50, p90, p95, p99), sum).
    DurationHistogram(((u64, u64, u64, u64), u128)),
}

/// Whether two metric values are gauges of the same kind, so that they can
/// be compared.
pub open spec fn comparable_gauges(a: MetricValue, b: MetricValue) -> bool {
    ||| (a is GaugeI64 && b is GaugeI64)
    ||| (a is GaugeU64 && b is GaugeU64)
    ||| (a is GaugeDuration && b is GaugeDuration)
}

/// The number a gauge holds, as an integer.
pub open spec fn gauge_value(a: MetricValue) -> int {
    match a {
        MetricValue::GaugeI64(x) => x as int,
        MetricValue::GaugeU64(x) => x as int,
        MetricValue::GaugeDuration(x) => x as int,
        _ => 0,
    }
}

impl MetricValue {
    /// The smaller of two gauges of the same kind (the right one on ties).
    pub fn min_gauge<'a>(&'a self, other: &'a Self) -> (r: &'a Self)
        requires
            comparable_gauges(*self, *other),
        ensures
            *r == if gauge_value(*self) < gauge_value(*other) {
                *self
            } else {
                *other
            },
    {
        match (self, other) {
            (MetricValue::GaugeU64(x), MetricValue::GaugeU64(y)) => if x < y {
                self
            } else {
                other
            },
            (MetricValue::GaugeI64(x), MetricValue::GaugeI64(y)) => if x < y {
                self
            } else {
                other
            },
            (MetricValue::GaugeDuration(x), MetricValue::GaugeDuration(y)) => if x < y {
                self
            } else {
                other
            },
            _ => other,
        }
    }

    /// The larger of two gauges of the same kind (the right one on ties).
    pub fn max_gauge<'a>(&'a self, other: &'a Self) -> (r: &'a Self)
        requires
            comparable_gauges(*self, *other),
        ensures
            *r == if gauge_value(*self) > gauge_value(*other) {
                *self
            } else {
                *other
            },
    {
        match (self, other) {
            (MetricValue::GaugeU64(x), MetricValue::GaugeU64(y)) => if x > y {
                self
            } else {
                other
            },
            (MetricValue::GaugeI64(x), MetricValue::GaugeI64(y)) => if x > y {
                self
            } else {
                other
            },
            (MetricValue::GaugeDuration(x), MetricValue::GaugeDuration(y)) => if x > y {
                self
            } else {
                other
            },
            _ => other,
        }
    }

    /// The midpoint of two gauges of the same kind, with the division
    /// truncated towards zero.
    pub fn mid<'a>(&'a self, other: &'a Self) -> (r: Self)
        requires
            comparable_gauges(*self, *other),
        ensures
            comparable_gauges(*self, r),
            gauge_value(r) == spec_trunc_div2(gauge_value(*self) + gauge_value(*other)),
    {
        match (self, other) {
            (MetricValue::GaugeU64(x), MetricValue::GaugeU64(y)) => {
                let m = if x <= y {
                    *x + (*y - *x) / 2
                } else {
                    *y + (*x - *y) / 2
                };
                MetricValue::GaugeU64(m)
            },
            (MetricValue::GaugeI64(x), MetricValue::GaugeI64(y)) => {
                let s: i128 = (*x as i128) + (*y as i128);
                let h: i128 = if s >= 0 {
                    s / 2
                } else {
                    -((-s) / 2)
                };
                MetricValue::GaugeI64(h as i64)
            },
            (MetricValue::GaugeDuration(x), MetricValue::GaugeDuration(y)) => {
                let m = if x <= y {
                    *x + (*y - *x) / 2
                } else {
                    *y + (*x - *y) / 2
                };
                MetricValue::GaugeDuration(m)
            },
            _ => MetricValue::GaugeU64(0),
        }
    }
}

/// Division by two truncated towards zero.
pub open spec fn spec_trunc_div2(s: int) -> int {
    if s >= 0 {
        s / 2
    } else {
        -((-s) / 2)
    }
}

/// A monotonic counter.
#[derive(Debug)]
pub struct Counter {
    pub value: u64,
}

/// Addition that wraps around the `u64` range, as a hardware add does.
pub open spec fn spec_wrap_add(a: u64, b: u64) -> int {
    if a + b <= u64::MAX {
        a + b
    } else {
        a + b - 0x1_0000_0000_0000_0000
    }
}

impl Counter {
    /// A counter at zero.
    pub fn new() -> (r: Counter)
        ensures
            r.value == 0u64,
    {
        Counter { value: 0 }
    }

    /// Add to the counter, wrapping on overflow.
    pub fn add(&mut self, amount: u64)
        ensures
            final(self).value == spec_wrap_add(old(self).value, amount),
    {
        if amount <= u64::MAX - self.value {
            self.value = self.value + amount;
        } else {
            self.value = amount - (u64::MAX - self.value) - 1;
        }
    }

    /// The current count.
    pub fn get(&self) -> (r: u64)
        ensures
            r == self.value,
    {
        self.value
    }
}

/// A last-write-wins scalar.
#[derive(Debug)]
pub struct Gauge<T: Copy> {
    pub value: T,
}

impl<T: Copy> Gauge<T> {
    /// A gauge holding the given initial value.
    pub fn new(value: T) -> (r: Gauge<T>)
        ensures
            r.value == value,
    {
        Gauge { value }
    }

    /// Overwrite the gauge.
    pub fn set(&mut self, value: T)
        ensures
            final(self).value == value,
    {
        self.value = value;
    }

    /// The last value written.
    pub fn get(&self) -> (r: T)
        ensures
            r == self.value,
    {
        self.value
    }
}

/// The sum of a sequence of observations.
pub open spec fn sum_u64(s: Seq<u64>) -> int
    decreases s.len(),
{
    if s.len() == 0 {
        0
    } else {
        sum_u64(s.drop_last()) + s.last()
    }
}

/// The sum of observations is bounded by their number times the largest
/// observation possible.
pub proof fn lemma_sum_u64_bound(s: Seq<u64>)
    ensures
        0 <= sum_u64(s) <= s.len() * (u64::MAX as int),
    decreases s.len(),
{
    if s.len() > 0 {
        lemma_sum_u64_bound(s.drop_last());
        assert(s.len() * (u64::MAX as int) == s.drop_last().len() * (u64::MAX as int) + (
        u64::MAX as int)) by (nonlinear_arith)
            requires
                s.len() == s.drop_last().len() + 1,
        ;
    }
}

/// The elements of a sequence are in non-decreasing order.
pub open spec fn sorted_u64(s: Seq<u64>) -> bool {
    forall|i: int, j: int| 0 <= i < j < s.len() ==> s[i] <= s[j]
}

/// An exact histogram of duration observations, in milliseconds: every
/// observation is kept, and percentiles are read from the sorted
/// observations.  Memory therefore grows with the observation count; a
/// constant-size streaming estimator is floating-point and so lives with
/// the runtime, outside the verified core.
#[derive(Debug)]
pub struct Histogram {
    pub values: Vec<u64>,
    pub sum: u128,
}

impl Histogram {
    /// The running sum accounts for every observation.
    pub open spec fn wf(&self) -> bool {
        self.sum == sum_u64(self.values@)
    }

    /// An empty histogram.
    pub fn new() -> (r: Histogram)
        ensures
            r.wf(),
            r.values@ == Seq::<u64>::empty(),
            r.sum == 0u128,
    {
        Histogram { values: Vec::new(), sum: 0 }
    }

    /// Record one observation.
    pub fn observe(&mut self, value: u64)
        requires
            old(self).wf(),
            old(self).values@.len() < usize::MAX,
        ensures
            final(self).wf(),
            final(self).values@ == old(self).values@.push(value),
            final(self).sum == old(self).sum + value,
    {
        proof {
            lemma_sum_u64_bound(self.values@);
            assert((self.values@.len() as int) * (u64::MAX as int) + (u64::MAX as int) <= (
            u128::MAX as int)) by (nonlinear_arith)
                requires
                    self.values@.len() < usize::MAX,
                    usize::MAX <= u64::MAX,
            ;
        }
        self.values.push(value);
        self.sum = self.sum + (value as u128);
        proof {
            assert(self.values@.drop_last() =~= old(self).values@);
            assert(self.values@.last() == value);
        }
    }

    /// Read the `u/l` percentile: the observation at index
    /// `len * u / l` of the sorted observations.
    pub fn get_percentile(&self, u: usize, l: usize) -> (r: u64)
        requires
            self.values@.len() > 0,
            0 < u < l,
            self.values@.len() * u <= usize::MAX,
        ensures
            exists|t: Seq<u64>|
                #[trigger] t.to_multiset() == self.values@.to_multiset() && sorted_u64(t) && r
                    == t[(self.values@.len() as int) * (u as int) / (l as int)],
    {
        let sorted = sorted_copy(&self.values);
        let index = (self.values.len() * u) / l;
        proof {
            broadcast use group_to_multiset_ensures;

            assert(sorted@.to_multiset().len() == self.values@.to_multiset().len());
            assert((self.values@.len() as int) * (u as int) / (l as int) < self.values@.len() as int)
                by (nonlinear_arith)
                requires
                    0 < (u as int) < (l as int),
                    self.values@.len() > 0,
            ;
        }
        let r = sorted[index];
        proof {
            let t = sorted@;
            assert(t.to_multiset() == self.values@.to_multiset() && sorted_u64(t) && r == t[(self.values@.len() as int) * (u as int) / (l as int)]);
        }
        r
    }

    /// Read the (p50, p90, p95, p99) percentiles, all from one sorted view
    /// of the observations.
    pub fn get_percentiles(&self) -> (r: (u64, u64, u64, u64))
        requires
            self.values@.len() > 0,
            self.values@.len() * 99 <= usize::MAX,
        ensures
            exists|t: Seq<u64>|
                {
                    let n = self.values@.len() as int;
                    &&& #[trigger] t.to_multiset() == self.values@.to_multiset()
                    &&& sorted_u64(t)
                    &&& r.0 == t[n * 1 / 2]
                    &&& r.1 == t[n * 9 / 10]
                    &&& r.2 == t[n * 95 / 100]
                    &&& r.3 == t[n * 99 / 100]
                },
    {
        let sorted = sorted_copy(&self.values);
        let n = self.values.len();
        proof {
            broadcast use group_to_multiset_ensures;

            assert(sorted@.to_multiset().len() == self.values@.to_multiset().len());
            assert forall|u: int, l: int| 0 < u < l implies #[trigger] ((n as int) * u / l) < (
            n as int) by {
                assert((n as int) * u / l < (n as int)) by (nonlinear_arith)
                    requires
                        0 < u < l,
                        n > 0,
                ;
            }
            assert forall|u: int| 0 <= u <= 99 implies #[trigger] ((n as int) * u) <= (n as int)
                * 99 by {
                assert((n as int) * u <= (n as int) * 99) by (nonlinear_arith)
                    requires
                        0 <= u <= 99,
                        n >= 0,
                ;
            }
        }
        let r = ((sorted[(n * 1) / 2]), (sorted[(n * 9) / 10]), (sorted[(n * 95) / 100]), (
        sorted[(n * 99) / 100]));
        proof {
            let t = sorted@;
            let ni = self.values@.len() as int;
            assert(t.to_multiset() == self.values@.to_multiset() && sorted_u64(t) && r.0 == t[ni * 1
                / 2] && r.1 == t[ni * 9 / 10] && r.2 == t[ni * 95 / 100] && r.3 == t[ni * 99
                / 100]);
        }
        r
    }

    /// The sum of all observations.
    pub fn get_sum(&self) -> (r: u128)
        ensures
            r == self.sum,
    {
        self.sum
    }
}

/// One keyed aggregator: the storage the metric's type calls for.
/// Durations are gauged as milliseconds.
#[derive(Debug)]
pub enum Metric {
    Counter(Counter),
    GaugeI64(Gauge<i64>),
    GaugeU64(Gauge<u64>),
    GaugeDuration(Gauge<u64>),
    Duration(Histogram),
}

/// The aggregator's invariant: a histogram accounts for its sum and stays
/// small enough for its percentiles to be read.
pub open spec fn metric_wf(m: Metric) -> bool {
    match m {
        Metric::Duration(h) => h.wf() && h.values@.len() <= usize::MAX as int / 99,
        _ => true,
    }
}

/// A histogram only reports percentiles once it holds an observation.
pub open spec fn metric_nonempty(m: Metric) -> bool {
    match m {
        Metric::Duration(h) => h.values@.len() >= 1,
        _ => true,
    }
}

/// The measurement kinds each metric type accepts.
pub open spec fn valid_combo(ty: MetricType, v: crate::telemetry::task_event::Value) -> bool {
    match (ty, v) {
        (MetricType::Counter, crate::telemetry::task_event::Value::UnsignedNumber(_)) => true,
        (MetricType::Gauge, crate::telemetry::task_event::Value::Number(_)) => true,
        (MetricType::Gauge, crate::telemetry::task_event::Value::UnsignedNumber(_)) => true,
        (MetricType::Gauge, crate::telemetry::task_event::Value::Duration(_)) => true,
        (MetricType::Histogram, crate::telemetry::task_event::Value::Duration(_)) => true,
        _ => false,
    }
}

/// How one measurement changes an aggregator: counters accumulate, gauges
/// keep the last write, histograms record the observation; a measurement of
/// the wrong kind changes nothing.
pub open spec fn metric_updated(
    m0: Metric,
    v: crate::telemetry::task_event::Value,
    m1: Metric,
) -> bool {
    match (m0, v) {
        (Metric::Counter(c), crate::telemetry::task_event::Value::UnsignedNumber(x)) => m1 matches
            Metric::Counter(c1) && c1.value == spec_wrap_add(c.value, x),
        (Metric::GaugeI64(_), crate::telemetry::task_event::Value::Number(x)) => m1
            == Metric::GaugeI64(Gauge { value: x }),
        (Metric::GaugeU64(_), crate::telemetry::task_event::Value::UnsignedNumber(x)) => m1
            == Metric::GaugeU64(Gauge { value: x }),
        (Metric::GaugeDuration(_), crate::telemetry::task_event::Value::Duration(d)) => m1
            == Metric::GaugeDuration(Gauge { value: d }),
        (Metric::Duration(h), crate::telemetry::task_event::Value::Duration(d)) => m1 matches
            Metric::Duration(h1) && h1.values@ == h.values@.push(d) && h1.sum == h.sum + d,
        _ => m1 == m0,
    }
}

/// A chain of aggregator states: `ms[0]` is the initial aggregator, and
/// each later state results from folding the next measurement into its
/// predecessor — exactly what a sequence of `update` calls produces.
pub open spec fn metric_chain(
    ms: Seq<Metric>,
    vs: Seq<crate::telemetry::task_event::Value>,
) -> bool {
    ms.len() == vs.len() + 1 && forall|i: int|
        0 <= i < vs.len() ==> metric_updated(#[trigger] ms[i], vs[i], ms[i + 1])
}

/// The count a counter aggregator holds.
pub open spec fn counter_value(m: Metric) -> int {
    match m {
        Metric::Counter(c) => c.value as int,
        _ => 0,
    }
}

/// The sum of a sequence of unsigned measurements.
pub open spec fn sum_unsigned(vs: Seq<crate::telemetry::task_event::Value>) -> int
    decreases vs.len(),
{
    if vs.len() == 0 {
        0
    } else {
        sum_unsigned(vs.drop_last()) + match vs.last() {
            crate::telemetry::task_event::Value::UnsignedNumber(x) => x as int,
            _ => 0,
        }
    }
}

/// Folding any number of unsigned measurements into a counter accumulates
/// exactly their sum, modulo the `u64` range.
pub proof fn lemma_counter_fold_sum(
    ms: Seq<Metric>,
    vs: Seq<crate::telemetry::task_event::Value>,
)
    requires
        metric_chain(ms, vs),
        ms[0] is Counter,
        forall|i: int|
            0 <= i < vs.len() ==> (#[trigger] vs[i]) matches
                crate::telemetry::task_event::Value::UnsignedNumber(_),
    ensures
        ms.last() is Counter,
        counter_value(ms.last()) == (counter_value(ms[0]) + sum_unsigned(vs))
            % 0x1_0000_0000_0000_0000,
    decreases vs.len(),
{
    let n: int = 0x1_0000_0000_0000_0000;
    if vs.len() == 0 {
        assert(ms.last() == ms[0]);
        assert(counter_value(ms[0]) % n == counter_value(ms[0])) by (nonlinear_arith)
            requires
                0 <= counter_value(ms[0]) < n,
        ;
    } else {
        let ms1 = ms.drop_last();
        let vs1 = vs.drop_last();
        assert(forall|i: int| 0 <= i < ms1.len() ==> #[trigger] ms1[i] == ms[i]);
        assert(forall|i: int| 0 <= i < vs1.len() ==> #[trigger] vs1[i] == vs[i]);
        assert(metric_chain(ms1, vs1));
        lemma_counter_fold_sum(ms1, vs1);
        let mid = ms[ms.len() - 2];
        assert(ms1.last() == mid);
        assert(metric_updated(mid, vs[vs.len() - 1], ms.last()));
        let a = counter_value(ms[0]) + sum_unsigned(vs1);
        let x = match vs.last() {
            crate::telemetry::task_event::Value::UnsignedNumber(x) => x as int,
            _ => 0,
        };
        assert(counter_value(ms.last()) == (counter_value(mid) + x) % n) by (nonlinear_arith)
            requires
                0 <= counter_value(mid) < n,
                0 <= x < n,
                counter_value(ms.last()) == if counter_value(mid) + x < n {
                    counter_value(mid) + x
                } else {
                    counter_value(mid) + x - n
                },
        ;
        assert((a % n + x) % n == (a + x) % n) by (nonlinear_arith)
            requires
                n > 0,
                0 <= x < n,
        ;
    }
}

/// Folding any number of signed measurements into a signed gauge leaves
/// exactly the last one written.
pub proof fn lemma_gauge_fold_last(
    ms: Seq<Metric>,
    vs: Seq<crate::telemetry::task_event::Value>,
)
    requires
        metric_chain(ms, vs),
        ms[0] is GaugeI64,
        vs.len() > 0,
        forall|i: int|
            0 <= i < vs.len() ==> (#[trigger] vs[i]) matches
                crate::telemetry::task_event::Value::Number(_),
    ensures
        ms.last() matches Metric::GaugeI64(g1) && vs.last() matches
            crate::telemetry::task_event::Value::Number(x) && g1.value == x,
    decreases vs.len(),
{
    if vs.len() > 1 {
        let ms1 = ms.drop_last();
        let vs1 = vs.drop_last();
        assert(forall|i: int| 0 <= i < ms1.len() ==> #[trigger] ms1[i] == ms[i]);
        assert(forall|i: int| 0 <= i < vs1.len() ==> #[trigger] vs1[i] == vs[i]);
        assert(metric_chain(ms1, vs1));
        lemma_gauge_fold_last(ms1, vs1);
    }
    assert(metric_updated(ms[vs.len() - 1], vs[vs.len() - 1], ms[vs.len() as int]));
}

/// The observations a duration histogram holds.
pub open spec fn histogram_values(m: Metric) -> Seq<u64> {
    match m {
        Metric::Duration(h) => h.values@,
        _ => Seq::empty(),
    }
}

/// The running sum a duration histogram holds.
pub open spec fn histogram_sum(m: Metric) -> int {
    match m {
        Metric::Duration(h) => h.sum as int,
        _ => 0,
    }
}

/// The durations carried by a sequence of duration measurements.
pub open spec fn durations_of(vs: Seq<crate::telemetry::task_event::Value>) -> Seq<u64>
    decreases vs.len(),
{
    if vs.len() == 0 {
        Seq::empty()
    } else {
        durations_of(vs.drop_last()).push(
            match vs.last() {
                crate::telemetry::task_event::Value::Duration(d) => d,
                _ => 0u64,
            },
        )
    }
}

/// Folding any number of duration measurements into a histogram records
/// every observation, in order, and accumulates their exact sum.
pub proof fn lemma_histogram_fold(
    ms: Seq<Metric>,
    vs: Seq<crate::telemetry::task_event::Value>,
)
    requires
        metric_chain(ms, vs),
        ms[0] is Duration,
        forall|i: int|
            0 <= i < vs.len() ==> (#[trigger] vs[i]) matches
                crate::telemetry::task_event::Value::Duration(_),
    ensures
        ms.last() is Duration,
        histogram_values(ms.last()) == histogram_values(ms[0]) + durations_of(vs),
        histogram_sum(ms.last()) == histogram_sum(ms[0]) + sum_u64(durations_of(vs)),
    decreases vs.len(),
{
    if vs.len() == 0 {
        assert(ms.last() == ms[0]);
        assert(histogram_values(ms[0]) + durations_of(vs) =~= histogram_values(ms[0]));
    } else {
        let ms1 = ms.drop_last();
        let vs1 = vs.drop_last();
        assert(forall|i: int| 0 <= i < ms1.len() ==> #[trigger] ms1[i] == ms[i]);
        assert(forall|i: int| 0 <= i < vs1.len() ==> #[trigger] vs1[i] == vs[i]);
        assert(metric_chain(ms1, vs1));
        lemma_histogram_fold(ms1, vs1);
        let mid = ms[ms.len() - 2];
        assert(ms1.last() == mid);
        assert(metric_updated(mid, vs[vs.len() - 1], ms.last()));
        let d = match vs.last() {
            crate::telemetry::task_event::Value::Duration(d) => d,
            _ => 0u64,
        };
        assert(histogram_values(ms.last()) =~= histogram_values(ms[0]) + durations_of(vs));
        assert(durations_of(vs).drop_last() =~= durations_of(vs1));
        assert(sum_u64(durations_of(vs)) == sum_u64(durations_of(vs1)) + d);
    }
}


/// The aggregator a first measurement leaves behind: a fresh store of the
/// metric type's kind with the measurement applied.
pub open spec fn metric_init(
    ty: MetricType,
    v: crate::telemetry::task_event::Value,
    m: Metric,
) -> bool {
    match (ty, v) {
        (MetricType::Counter, crate::telemetry::task_event::Value::UnsignedNumber(x)) => m matches
            Metric::Counter(c) && c.value == x,
        (MetricType::Gauge, crate::telemetry::task_event::Value::Number(x)) => m
            == Metric::GaugeI64(Gauge { value: x }),
        (MetricType::Gauge, crate::telemetry::task_event::Value::UnsignedNumber(x)) => m
            == Metric::GaugeU64(Gauge { value: x }),
        (MetricType::Gauge, crate::telemetry::task_event::Value::Duration(d)) => m
            == Metric::GaugeDuration(Gauge { value: d }),
        (MetricType::Histogram, crate::telemetry::task_event::Value::Duration(d)) => m matches
            Metric::Duration(h) && h.values@ == seq![d] && h.sum == d,
        _ => false,
    }
}

/// The snapshot an aggregator reports: counters and gauges verbatim, a
/// histogram as its percentiles over some sorted view of its observations
/// together with its exact sum.
pub open spec fn metric_corresponds(m: Metric, v: MetricValue) -> bool {
    match m {
        Metric::Counter(c) => v == MetricValue::Counter(c.value),
        Metric::GaugeI64(g) => v == MetricValue::GaugeI64(g.value),
        Metric::GaugeU64(g) => v == MetricValue::GaugeU64(g.value),
        Metric::GaugeDuration(g) => v == MetricValue::GaugeDuration(g.value),
        Metric::Duration(h) => v matches MetricValue::DurationHistogram(
            ((p50, p90, p95, p99), sum),
        ) && sum == h.sum && exists|t: Seq<u64>|
            {
                let n = h.values@.len() as int;
                &&& #[trigger] t.to_multiset() == h.values@.to_multiset()
                &&& sorted_u64(t)
                &&& p50 == t[n * 1 / 2]
                &&& p90 == t[n * 9 / 10]
                &&& p95 == t[n * 95 / 100]
                &&& p99 == t[n * 99 / 100]
            },
    }
}

impl Metric {
    /// A fresh aggregator of the kind the metric type and the first
    /// measurement's kind call for.
    pub fn new(ty: MetricType, value: &crate::telemetry::task_event::Value) -> (r: Metric)
        requires
            valid_combo(ty, *value),
        ensures
            metric_wf(r),
            match (ty, *value) {
                (MetricType::Counter, crate::telemetry::task_event::Value::UnsignedNumber(_)) => r
                    == Metric::Counter(Counter { value: 0u64 }),
                (MetricType::Gauge, crate::telemetry::task_event::Value::Number(_)) => r
                    == Metric::GaugeI64(Gauge { value: 0i64 }),
                (MetricType::Gauge, crate::telemetry::task_event::Value::UnsignedNumber(_)) => r
                    == Metric::GaugeU64(Gauge { value: 0u64 }),
                (MetricType::Gauge, crate::telemetry::task_event::Value::Duration(_)) => r
                    == Metric::GaugeDuration(Gauge { value: 0u64 }),
                (MetricType::Histogram, crate::telemetry::task_event::Value::Duration(_)) => r
                    matches Metric::Duration(h) && h.values@ == Seq::<u64>::empty() && h.sum
                    == 0u128,
                _ => false,
            },
    {
        match (ty, value) {
            (MetricType::Counter, crate::telemetry::task_event::Value::UnsignedNumber(_)) =>
                Metric::Counter(Counter::new()),
            (MetricType::Gauge, crate::telemetry::task_event::Value::Number(_)) => Metric::GaugeI64(
                Gauge::new(0),
            ),
            (MetricType::Gauge, crate::telemetry::task_event::Value::UnsignedNumber(_)) =>
                Metric::GaugeU64(Gauge::new(0)),
            (MetricType::Gauge, crate::telemetry::task_event::Value::Duration(_)) =>
                Metric::GaugeDuration(Gauge::new(0)),
            _ => Metric::Duration(Histogram::new()),
        }
    }

    /// Apply one measurement.
    pub fn update(&mut self, value: crate::telemetry::task_event::Value)
        requires
            metric_wf(*old(self)),
            match *old(self) {
                Metric::Duration(h) => match value {
                    crate::telemetry::task_event::Value::Duration(_) => h.values@.len() + 1
                        <= usize::MAX as int / 99,
                    _ => true,
                },
                _ => true,
            },
        ensures
            metric_wf(*final(self)),
            metric_updated(*old(self), value, *final(self)),
            metric_nonempty(*old(self)) ==> metric_nonempty(*final(self)),
    {
        match self {
            Metric::Counter(c) => {
                match value {
                    crate::telemetry::task_event::Value::UnsignedNumber(x) => c.add(x),
                    _ => {},
                }
            },
            Metric::GaugeI64(g) => {
                match value {
                    crate::telemetry::task_event::Value::Number(x) => g.set(x),
                    _ => {},
                }
            },
            Metric::GaugeU64(g) => {
                match value {
                    crate::telemetry::task_event::Value::UnsignedNumber(x) => g.set(x),
                    _ => {},
                }
            },
            Metric::GaugeDuration(g) => {
                match value {
                    crate::telemetry::task_event::Value::Duration(d) => g.set(d),
                    _ => {},
                }
            },
            Metric::Duration(h) => {
                match value {
                    crate::telemetry::task_event::Value::Duration(d) => h.observe(d),
                    _ => {},
                }
            },
        }
    }

    /// The snapshot this aggregator currently reports.
    pub fn value(&self) -> (r: MetricValue)
        requires
            metric_wf(*self),
            metric_nonempty(*self),
        ensures
            metric_corresponds(*self, r),
    {
        match self {
            Metric::Counter(c) => MetricValue::Counter(c.get()),
            Metric::GaugeI64(g) => MetricValue::GaugeI64(g.get()),
            Metric::GaugeU64(g) => MetricValue::GaugeU64(g.get()),
            Metric::GaugeDuration(g) => MetricValue::GaugeDuration(g.get()),
            Metric::Duration(h) => {
                proof {
                    assert(h.values@.len() * 99 <= usize::MAX) by (nonlinear_arith)
                        requires
                            h.values@.len() <= usize::MAX as int / 99,
                    ;
                }
                let p = h.get_percentiles();
                MetricValue::DurationHistogram(((p.0, p.1, p.2, p.3), h.get_sum()))
            },
        }
    }
}

/// A sorted copy of the observations: selection sort into a fresh vector.
fn sorted_copy(v: &Vec<u64>) -> (out: Vec<u64>)
    ensures
        sorted_u64(out@),
        out@.to_multiset() == v@.to_multiset(),
        out@.len() == v@.len(),
{
    proof {
        broadcast use group_to_multiset_ensures;

    }
    let mut rest: Vec<u64> = Vec::new();
    let n = v.len();
    let mut i: usize = 0;
    while i < n
        invariant
            0 <= i <= n,
            n == v@.len(),
            rest@ == v@.take(i as int),
        decreases n - i,
    {
        rest.push(v[i]);
        proof {
            assert(rest@ =~= v@.take((i + 1) as int));
        }
        i += 1;
    }
    proof {
        assert(rest@ =~= v@);
    }
    let mut out: Vec<u64> = Vec::new();
    while rest.len() > 0
        invariant
            sorted_u64(out@),
            out@.to_multiset().add(rest@.to_multiset()) == v@.to_multiset(),
            out@.len() + rest@.len() == v@.len(),
            forall|a: int, b: int|
                0 <= a < out@.len() && 0 <= b < rest@.len() ==> out@[a] <= rest@[b],
        decreases rest@.len(),
    {
        proof {
            broadcast use group_to_multiset_ensures;

        }
        let mut m: usize = 0;
        let mut k: usize = 1;
        while k < rest.len()
            invariant
                0 <= m < k <= rest@.len(),
                forall|j: int| 0 <= j < k ==> rest@[m as int] <= rest@[j],
            decreases rest@.len() - k,
        {
            if rest[k] < rest[m] {
                m = k;
            }
            k += 1;
        }
        let ghost rest0 = rest@;
        let ghost out0 = out@;
        let x = rest.remove(m);
        out.push(x);
        proof {
            broadcast use group_to_multiset_ensures;

            assert(rest@ =~= rest0.remove(m as int));
            assert(out@ =~= out0.push(x));
            assert(out@.to_multiset() =~= out0.to_multiset().insert(x));
            assert(rest0.to_multiset() =~= rest@.to_multiset().insert(x));
            assert(out@.to_multiset().add(rest@.to_multiset()) =~= v@.to_multiset());
            assert forall|a: int, b: int|
                0 <= a < out@.len() && 0 <= b < rest@.len() implies out@[a] <= rest@[b] by {
                if b < m {
                    assert(rest@[b] == rest0[b]);
                } else {
                    assert(rest@[b] == rest0[b + 1]);
                }
                if a < out0.len() {
                    assert(out@[a] == out0[a]);
                } else {
                    assert(out@[a] == x);
                    assert(x == rest0[m as int]);
                }
            }
            assert(sorted_u64(out@)) by {
                assert forall|a: int, b: int| 0 <= a < b < out@.len() implies out@[a] <= out@[b] by {
                    if b < out0.len() {
                        assert(out@[a] == out0[a] && out@[b] == out0[b]);
                    } else {
                        assert(out@[b] == x && x == rest0[m as int]);
                        assert(out@[a] == out0[a]);
                        assert(out0[a] <= rest0[m as int]);
                    }
                }
            }
        }
    }
    proof {
        broadcast use group_to_multiset_ensures;

        assert(rest@.to_multiset() =~= Multiset::<u64>::empty());
        assert(out@.to_multiset() =~= v@.to_multiset());
        assert(out@.to_multiset().len() == v@.to_multiset().len());
    }
    out
}

} // verus!
