//! Fan-out / fan-in aggregation of a batch of delayed work units, and the
//! timestamped change record that accompanies it.
//!
//! The crate holds the decisions only: which unit to launch next, how a
//! completion is folded into the running sum, and when the sum may be
//! reported. Scheduling, sleeping and logging are left to the caller.

pub mod aggregator;
pub mod model;
pub mod record;
pub mod series;
pub mod work;
