//! Task subsystem: definition, execution, and lifecycle tracking.
//!
//! A task is a unit of work one node delegates to another. [`task`]
//! defines the payload, [`executor`] runs it, [`result`] carries the
//! outcome back, and [`tracker`] records every task this node has seen
//! as it moves `Queued -> Running -> Completed | Failed`.

pub mod executor;
pub mod result;
pub mod task;
pub mod tracker;

pub use tracker::{StatusCounts, TaskDirection, TaskRecord, TaskStatus, TaskTracker};
