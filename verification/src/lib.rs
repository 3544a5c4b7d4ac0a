//! Event-driven test orchestration and verification engine.
//!
//! The crate models the core of an integration-test harness for an external
//! driver-management service: per-subject event collectors with FIFO
//! buffering and deadline-bounded waits, a multi-subject test helper,
//! pass/fail/skip result aggregation with performance measurements,
//! retry backoff schedules, and the configuration and report types the
//! harness shares between test tasks.
//!
//! Everything time-, network- or randomness-dependent is polled or handed
//! in as plain values: the surrounding runtime performs the I/O and the
//! sleeps, and the decisions proved here tell it what to do next.

pub mod api;
pub mod config;
pub mod event_helper;
pub mod events;
pub mod host;
pub mod reports;
pub mod results;
pub mod retry;
pub mod strnum;
