//! The telemetry pipeline: metric aggregation, task events and spans, the
//! message stream to the display, and the bridge that ties them together.

pub mod metrics;
pub mod task_event;
pub mod message;
pub mod bridge;
