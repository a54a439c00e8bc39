//! Structured logging bus for runtime events.
//!
//! Each entry carries a timestamp, level, source module and message.
//! Consumers either subscribe to the live broadcast stream or read the
//! recent history; every emit is appended to the history before it is
//! published, so a late subscriber that backfills from the history never
//! sees a hole.

pub mod bus;

pub use bus::{LogBus, LogEntry, LogLevel, DEFAULT_HISTORY_CAPACITY};
