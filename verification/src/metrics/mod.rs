//! Local-machine metrics: the bounded history of samples behind the
//! dashboard charts, and the arithmetic the sampler does on raw readings.
//!
//! The samples themselves (CPU share, throughput rates) are floating
//! point and are produced and stored by the caller; the store is generic
//! over the sample type.

pub mod collector;
pub mod store;

pub use collector::{bytes_to_mib, effective_interval_ms, total_traffic, DEFAULT_INTERVAL_MS};
pub use store::{MetricsStore, DEFAULT_HISTORY_CAPACITY};
