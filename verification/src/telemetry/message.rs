//! The messages the engine emits for display consumers.  Durations are in
//! milliseconds; absolute times are milliseconds since the Unix epoch.

use vstd::prelude::*;
use crate::telemetry::task_event::MetricSetKey;
use crate::telemetry::metrics::MetricValue;

verus! {

/// One message of the stream handed to a display consumer.
pub enum Message {
    /// One iteration finished, with its elapsed time.
    TaskTime { execution_id: usize, scenario_id: usize, duration_ms: u64 },
    /// An executor began running.
    ExecutorStart { id: usize, start_time_epoch_ms: i64, prior_executor_duration_ms: u64 },
    /// A periodic progress report with the current metric snapshot.
    ExecutorUpdate {
        id: usize,
        users: u64,
        max_users: u64,
        total_iteration: Option<u64>,
        total_duration_ms: Option<u64>,
        stage: Option<usize>,
        stage_duration_ms: Option<u64>,
        stages: Option<usize>,
        metrics: Vec<(MetricSetKey, MetricValue)>,
    },
    /// An executor finished.
    ExecutorEnd { id: usize },
    /// A non-fatal error was observed; execution continues.
    Error { err: String },
    /// A fatal error was observed; the remaining plan is aborted.
    TerminatedError { err: String },
    /// The stream now concerns this scenario.
    ScenarioChanged { scenario_id: usize },
    /// The last message of the stream.
    End,
}

/// The scenario a message is tagged with, if any.
pub open spec fn message_scenario(m: Message) -> Option<usize> {
    match m {
        Message::TaskTime { scenario_id, .. } => Some(scenario_id),
        _ => None,
    }
}

/// The RFC 3339 rendering, with millisecond precision and a numeric
/// offset, of a time given in milliseconds since the Unix epoch.
pub uninterp spec fn rfc3339_millis_of(ms: i64) -> Seq<char>;

/// Relies on chrono's `DateTime::to_rfc3339_opts` with millisecond
/// precision and a numeric offset; `DateTime::from_timestamp_millis`
/// converts the argument, and cannot fail within the required range.  The
/// result depends on the argument alone; between the Unix epoch and the
/// year 9999 it is 29 characters long (`1970-01-01T00:00:00.000+00:00`).
#[verifier::external_body]
fn chrono_rfc3339_millis(ms: i64) -> (r: String)
    requires
        0 <= ms <= 253_402_300_799_999i64,
    ensures
        r@ == rfc3339_millis_of(ms),
        r@.len() == 29,
{
    let dt = chrono::DateTime::<chrono::Utc>::from_timestamp_millis(ms).unwrap();
    dt.to_rfc3339_opts(chrono::SecondsFormat::Millis, false)
}

/// Render a start time for display: its RFC 3339 form with millisecond
/// precision, or `None` when the time lies outside the years 1970 to 9999.
pub fn rfc3339_millis(ms: i64) -> (r: Option<String>)
    ensures
        match r {
            Some(s) => 0 <= ms <= 253_402_300_799_999i64 && s@ == rfc3339_millis_of(ms) && s@.len()
                == 29,
            None => !(0 <= ms <= 253_402_300_799_999i64),
        },
{
    if 0 <= ms && ms <= 253_402_300_799_999i64 {
        Some(chrono_rfc3339_millis(ms))
    } else {
        None
    }
}

} // verus!
