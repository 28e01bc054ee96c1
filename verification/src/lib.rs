//! Core of an asynchronous load-generation engine.
//!
//! The engine drives user-defined workloads ("virtual users") at configurable
//! concurrency and arrival patterns.  This crate holds the verified core: the
//! concurrency controllers (executors) that decide, step by step, which user
//! starts an iteration and when, the scenario runner that sequences executors
//! and propagates early termination, the metric aggregators, and the telemetry
//! bridge that turns task spans and events into a well-formed message stream.
//! The asynchronous plumbing that carries these decisions out (task spawning,
//! timers, channels, terminal rendering) lives outside this crate and consults
//! the controllers defined here.

pub mod error;
pub mod strutil;
pub mod data;
pub mod pool;
pub mod logical;
pub mod executor;
pub mod runner;
pub mod telemetry;
pub mod display;
