//! In-memory core of an activity-tracking bridge: bounded FIFO stores, a
//! rule table with monotonic id allocation, an activity log with recency and
//! time-range queries, a single-producer broadcast bridge with per-subscriber
//! bounded backlogs, and the decision logic of the HTTP ingestion endpoint.
//!
//! All timestamps in this crate are integers counting milliseconds since the
//! Unix epoch; callers that speak another unit convert at the boundary.

pub mod bounded;
pub mod clock;
pub mod database;
pub mod extension;
pub mod bridge;
pub mod ingest;
pub mod keywords;
