use rusher::telemetry::bridge::TelemetryBridge;
use rusher::telemetry::message::{rfc3339_millis, Message};
use rusher::telemetry::metrics::{Counter, Histogram, MetricType, MetricValue};
use rusher::telemetry::task_event::{MetricSet, TaskEvent, TaskSpanData, Value};

#[test]
fn counter_accumulates() {
    let mut set = MetricSet::new();
    set.update(TaskEvent::new(
        "requests".to_string(),
        MetricType::Counter,
        vec![],
        Value::UnsignedNumber(2),
    ));
    set.update(TaskEvent::new(
        "requests".to_string(),
        MetricType::Counter,
        vec![],
        Value::UnsignedNumber(3),
    ));
    let entries = set.entries();
    assert_eq!(entries.len(), 1);
    assert_eq!(entries[0].0.name, "requests");
    assert_eq!(entries[0].1, MetricValue::Counter(5));
}

#[test]
fn gauge_keeps_last_write() {
    let mut set = MetricSet::new();
    set.update(TaskEvent::new(
        "inflight".to_string(),
        MetricType::Gauge,
        vec![],
        Value::Number(4),
    ));
    set.update(TaskEvent::new(
        "inflight".to_string(),
        MetricType::Gauge,
        vec![],
        Value::Number(-1),
    ));
    let entries = set.entries();
    assert_eq!(entries.len(), 1);
    assert_eq!(entries[0].1, MetricValue::GaugeI64(-1));
}

#[test]
fn distinct_attributes_make_distinct_metrics() {
    let mut set = MetricSet::new();
    let attr = |v: &str| vec![("path".to_string(), Value::String(v.to_string()))];
    set.update(TaskEvent::new(
        "hits".to_string(),
        MetricType::Counter,
        attr("/a"),
        Value::UnsignedNumber(1),
    ));
    set.update(TaskEvent::new(
        "hits".to_string(),
        MetricType::Counter,
        attr("/b"),
        Value::UnsignedNumber(1),
    ));
    set.update(TaskEvent::new(
        "hits".to_string(),
        MetricType::Counter,
        attr("/a"),
        Value::UnsignedNumber(1),
    ));
    let entries = set.entries();
    assert_eq!(entries.len(), 2);
    assert_eq!(entries[0].1, MetricValue::Counter(2));
    assert_eq!(entries[1].1, MetricValue::Counter(1));
}

#[test]
fn histogram_percentiles_and_sum() {
    let mut h = Histogram::new();
    for v in [30u64, 10, 20, 40] {
        h.observe(v);
    }
    assert_eq!(h.get_percentile(1, 2), 30);
    assert_eq!(h.get_percentile(9, 10), 40);
    assert_eq!(h.get_percentiles(), (30, 40, 40, 40));
    assert_eq!(h.get_sum(), 100);
}

#[test]
fn duration_histogram_through_the_set() {
    let mut set = MetricSet::new();
    for d in [5u64, 15, 10] {
        set.update(TaskEvent::new(
            "latency".to_string(),
            MetricType::Histogram,
            vec![],
            Value::Duration(d),
        ));
    }
    let entries = set.entries();
    assert_eq!(entries.len(), 1);
    match entries[0].1 {
        MetricValue::DurationHistogram(((p50, _, _, p99), sum)) => {
            // sorted observations: 5, 10, 15; p50 index 3*1/2 = 1
            assert_eq!(p50, 10);
            assert_eq!(p99, 15);
            assert_eq!(sum, 30);
        }
        ref v => panic!("unexpected value {:?}", v),
    }
}

#[test]
fn counter_wraps_on_overflow() {
    let mut c = Counter::new();
    c.add(u64::MAX);
    c.add(2);
    assert_eq!(c.get(), 1);
}

#[test]
fn metric_type_names_round_trip() {
    assert_eq!(MetricType::Counter.to_string(), "counter");
    assert_eq!(MetricType::Gauge.to_string(), "gauge");
    assert_eq!(MetricType::Histogram.to_string(), "histogram");
    assert_eq!("histogram".parse::<MetricType>(), Ok(MetricType::Histogram));
    assert_eq!("elephant".parse::<MetricType>(), Err(()));
}

#[test]
fn gauge_min_max_mid() {
    let a = MetricValue::GaugeU64(10);
    let b = MetricValue::GaugeU64(4);
    assert_eq!(*a.min_gauge(&b), MetricValue::GaugeU64(4));
    assert_eq!(*a.max_gauge(&b), MetricValue::GaugeU64(10));
    assert_eq!(a.mid(&b), MetricValue::GaugeU64(7));
    let c = MetricValue::GaugeI64(-3);
    let d = MetricValue::GaugeI64(0);
    assert_eq!(c.mid(&d), MetricValue::GaugeI64(-1));
}

#[test]
fn task_event_value_field_is_the_measurement() {
    let mut e = TaskEvent::new(
        "latency".to_string(),
        MetricType::Histogram,
        vec![],
        Value::Duration(0),
    );
    e.record_field("path".to_string(), Value::String("/x".to_string()));
    e.record_field("value".to_string(), Value::Duration(25));
    assert_eq!(e.key.attributes.len(), 1);
    assert_eq!(e.key.attributes[0].0, "path");
    match e.value {
        Value::Duration(d) => assert_eq!(d, 25),
        ref v => panic!("unexpected value {:?}", v),
    }
}

#[test]
fn span_fields_become_attributes() {
    let mut s = TaskSpanData::new(100, 2, 1);
    s.record_field("target".to_string(), Value::String("api".to_string()));
    assert_eq!(s.start_time_ms, 100);
    assert_eq!(s.execution_id, 2);
    assert_eq!(s.scenario_id, 1);
    assert_eq!(s.attributes.len(), 1);
}

#[test]
fn task_time_is_close_minus_open() {
    let mut b = TelemetryBridge::new();
    b.scenario_changed(3);
    b.open_span(7, 1, 100, vec![]);
    b.close_span(7, 250);
    match b.messages.last().unwrap() {
        Message::TaskTime { execution_id, scenario_id, duration_ms } => {
            assert_eq!(*execution_id, 1);
            assert_eq!(*scenario_id, 3);
            assert_eq!(*duration_ms, 150);
        }
        _ => panic!("expected a task time message"),
    }
}

#[test]
fn stream_ends_once_and_announces_scenarios_first() {
    let mut b = TelemetryBridge::new();
    b.scenario_changed(0);
    b.executor_start(0, 0, 0);
    b.open_span(1, 0, 10, vec![]);
    b.close_span(1, 35);
    b.record(TaskEvent::new(
        "requests".to_string(),
        MetricType::Counter,
        vec![],
        Value::UnsignedNumber(1),
    ));
    b.executor_update(0, 1, 1, None, None, None, None, None);
    b.executor_end(0);
    b.end();

    let msgs = &b.messages;
    let ends = msgs.iter().filter(|m| matches!(m, Message::End)).count();
    assert_eq!(ends, 1);
    assert!(matches!(msgs.last().unwrap(), Message::End));
    // every TaskTime comes after its scenario's announcement
    for (i, m) in msgs.iter().enumerate() {
        if let Message::TaskTime { scenario_id, .. } = m {
            let announced = msgs[..i].iter().any(
                |p| matches!(p, Message::ScenarioChanged { scenario_id: s } if s == scenario_id),
            );
            assert!(announced);
        }
    }
}

#[test]
fn update_snapshot_reflects_recorded_observation() {
    let mut b = TelemetryBridge::new();
    b.scenario_changed(0);
    b.record(TaskEvent::new(
        "requests".to_string(),
        MetricType::Counter,
        vec![],
        Value::UnsignedNumber(4),
    ));
    b.executor_update(0, 2, 2, Some(10), None, None, None, None);
    match b.messages.last().unwrap() {
        Message::ExecutorUpdate { id, users, metrics, .. } => {
            assert_eq!(*id, 0);
            assert_eq!(*users, 2);
            assert_eq!(metrics.len(), 1);
            assert_eq!(metrics[0].0.name, "requests");
            assert_eq!(metrics[0].1, MetricValue::Counter(4));
        }
        _ => panic!("expected an executor update"),
    }
}

#[test]
fn rfc3339_rendering() {
    assert_eq!(
        rfc3339_millis(0).unwrap(),
        "1970-01-01T00:00:00.000+00:00"
    );
    assert_eq!(
        rfc3339_millis(947_638_923_004).unwrap(),
        "2000-01-12T01:02:03.004+00:00"
    );
    assert!(rfc3339_millis(-5).is_none());
}
