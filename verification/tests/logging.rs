use sangam::clock::epoch_millis;
use sangam::logging::{LogBus, LogEntry, LogLevel, DEFAULT_HISTORY_CAPACITY};

#[test]
fn emit_appends_to_history() {
    let mut bus = LogBus::with_defaults();
    bus.info("discovery", "peer joined");
    let entries = bus.recent();
    assert_eq!(entries.len(), 1);
    assert_eq!(entries[0].source, "discovery");
    assert_eq!(entries[0].message, "peer joined");
    assert_eq!(entries[0].level, LogLevel::Info);
}

#[test]
fn convenience_methods_set_correct_levels() {
    let mut bus = LogBus::with_defaults();
    bus.debug("x", "d");
    bus.info("x", "i");
    bus.warn("x", "w");
    bus.error("x", "e");
    let entries = bus.recent();
    assert_eq!(
        entries.iter().map(|e| e.level).collect::<Vec<_>>(),
        vec![LogLevel::Debug, LogLevel::Info, LogLevel::Warn, LogLevel::Error]
    );
}

#[test]
fn history_evicts_oldest_at_capacity() {
    let mut bus = LogBus::new(3);
    for i in 0..5 {
        bus.info("x", &format!("msg-{}", i));
    }
    let entries = bus.recent();
    assert_eq!(entries.len(), 3);
    assert_eq!(entries[0].message, "msg-2");
    assert_eq!(entries[2].message, "msg-4");
}

#[test]
fn capacity_zero_is_clamped_to_one() {
    let mut bus = LogBus::new(0);
    bus.info("x", "first");
    bus.info("x", "second");
    let entries = bus.recent();
    assert_eq!(entries.len(), 1);
    assert_eq!(entries[0].message, "second");
}

#[test]
fn emit_with_no_subscribers_does_not_panic() {
    let mut bus = LogBus::with_defaults();
    bus.info("x", "noop");
    assert_eq!(bus.recent().len(), 1);
    assert_eq!(bus.receiver_count(), 0);
}

#[test]
fn subscriber_receives_emitted_entries() {
    let mut bus = LogBus::with_defaults();
    let mut rx = bus.subscribe();
    bus.info("discovery", "hello");
    let received = rx.try_recv().unwrap();
    assert_eq!(received.source, "discovery");
    assert_eq!(received.message, "hello");
}

#[test]
fn multiple_subscribers_each_get_a_copy() {
    let mut bus = LogBus::with_defaults();
    let mut rx1 = bus.subscribe();
    let mut rx2 = bus.subscribe();
    assert_eq!(bus.receiver_count(), 2);
    bus.info("x", "broadcast");
    assert_eq!(rx1.try_recv().unwrap().message, "broadcast");
    assert_eq!(rx2.try_recv().unwrap().message, "broadcast");
}

#[test]
fn emit_keeps_the_entry_as_given() {
    let mut bus = LogBus::new(2);
    let entry = LogEntry {
        timestamp_ms: 1_700_000_000_000,
        level: LogLevel::Warn,
        source: "discovery".into(),
        message: "stale peer".into(),
    };
    bus.emit(entry);
    let e = &bus.recent()[0];
    assert_eq!(e.timestamp_ms, 1_700_000_000_000);
    assert_eq!(e.level, LogLevel::Warn);
    assert_eq!(e.source, "discovery");
    assert_eq!(e.message, "stale peer");
}

#[test]
fn default_bus_uses_default_capacity() {
    let mut bus = LogBus::default();
    for i in 0..(DEFAULT_HISTORY_CAPACITY + 5) {
        bus.debug("x", &i.to_string());
    }
    let entries = bus.recent();
    assert_eq!(entries.len(), DEFAULT_HISTORY_CAPACITY);
    assert_eq!(entries[0].message, "5");
}

#[test]
fn clock_readings_map_to_epoch_milliseconds() {
    assert_eq!(epoch_millis(Some(1_700_000_000_000)), 1_700_000_000_000);
    assert_eq!(epoch_millis(None), 0);
    assert_eq!(epoch_millis(Some(u64::MAX as u128 + 5)), 4);
}

#[test]
fn entry_at_a_given_time_keeps_its_fields() {
    let e = LogEntry::at(LogLevel::Warn, "discovery", "stale peer", 1_700_000_000_000);
    assert_eq!(e.timestamp_ms, 1_700_000_000_000);
    assert_eq!(e.level, LogLevel::Warn);
    assert_eq!(e.source, "discovery");
    assert_eq!(e.message, "stale peer");
}

#[test]
fn entry_now_is_stamped_after_the_epoch() {
    let e = LogEntry::now(LogLevel::Info, "runtime", "started");
    assert!(e.timestamp_ms > 1_600_000_000_000);
    assert_eq!(e.level, LogLevel::Info);
}
