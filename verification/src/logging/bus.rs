//! `LogBus`: a bounded history of entries plus a broadcast channel.

use tokio::sync::broadcast::{Receiver, Sender};
use vstd::prelude::*;

use crate::clock::{now_ms, spec_epoch_millis};
use crate::ring::{clamped_capacity, pushed, RingBuffer};
use crate::text::owned;

verus! {

/// Default history capacity: enough to backfill a console on launch.
pub const DEFAULT_HISTORY_CAPACITY: usize = 200;

/// Depth of the broadcast channel; subscribers further behind lag.
pub const DEFAULT_BROADCAST_DEPTH: usize = 256;

#[verifier::external_type_specification]
#[verifier::external_body]
#[verifier::reject_recursive_types(T)]
pub struct ExBroadcastSender<T>(Sender<T>);

#[verifier::external_type_specification]
#[verifier::external_body]
#[verifier::reject_recursive_types(T)]
pub struct ExBroadcastReceiver<T>(Receiver<T>);

/// Severity of an entry.
#[derive(Clone, Copy, Debug, PartialEq, Eq, Structural)]
pub enum LogLevel {
    Debug,
    Info,
    Warn,
    Error,
}

/// One structured log entry.
#[derive(Debug)]
pub struct LogEntry {
    /// Wall-clock milliseconds since the Unix epoch.
    pub timestamp_ms: u64,
    pub level: LogLevel,
    /// The module that produced the entry, e.g. `"discovery"`.
    pub source: String,
    pub message: String,
}

/// The mathematical content of a [`LogEntry`].
pub struct LogEntryView {
    pub timestamp_ms: u64,
    pub level: LogLevel,
    pub source: Seq<char>,
    pub message: Seq<char>,
}

impl View for LogEntry {
    type V = LogEntryView;

    open spec fn view(&self) -> LogEntryView {
        LogEntryView {
            timestamp_ms: self.timestamp_ms,
            level: self.level,
            source: self.source@,
            message: self.message@,
        }
    }
}

impl Clone for LogEntry {
    fn clone(&self) -> (r: Self)
        ensures
            r@ == self@,
    {
        LogEntry {
            timestamp_ms: self.timestamp_ms,
            level: self.level,
            source: self.source.clone(),
            message: self.message.clone(),
        }
    }
}

impl LogEntry {
    /// An entry stamped with the given wall-clock time.
    pub fn at(level: LogLevel, source: &str, message: &str, timestamp_ms: u64) -> (e: LogEntry)
        ensures
            e.timestamp_ms == timestamp_ms,
            e.level == level,
            e.source@ == source@,
            e.message@ == message@,
    {
        LogEntry { timestamp_ms, level, source: owned(source), message: owned(message) }
    }

    /// An entry stamped with the current wall-clock time: the milliseconds
    /// since the Unix epoch of the clock reading, 0 before the epoch.
    pub fn now(level: LogLevel, source: &str, message: &str) -> (e: LogEntry)
        ensures
            exists|reading: Option<u128>| e.timestamp_ms == spec_epoch_millis(reading),
            e.level == level,
            e.source@ == source@,
            e.message@ == message@,
    {
        LogEntry::at(level, source, message, now_ms())
    }
}

/// `tokio::sync::broadcast::channel`: a channel holding up to `capacity`
/// unread values per subscriber. It panics for a capacity of zero or above
/// `usize::MAX / 2`, which `requires` rules out.
#[verifier::external_body]
fn broadcast_channel(capacity: usize) -> (Sender<LogEntry>, Receiver<LogEntry>)
    requires
        0 < capacity <= usize::MAX / 2,
{
    tokio::sync::broadcast::channel(capacity)
}

/// `Sender::send`: publish to the current subscribers. `Some(n)` is the
/// number of subscribers (at least one); `None` when there are none.
/// Which of the two happens depends on the live receivers.
#[verifier::external_body]
fn broadcast_send(sender: &Sender<LogEntry>, entry: LogEntry) -> (r: Option<usize>)
    ensures
        r matches Some(n) ==> n >= 1,
{
    match sender.send(entry) {
        Ok(n) => Some(n),
        Err(_) => None,
    }
}

/// `Sender::subscribe`: a receiver of the values sent after this call.
#[verifier::external_body]
fn broadcast_subscribe(sender: &Sender<LogEntry>) -> Receiver<LogEntry> {
    sender.subscribe()
}

/// `Sender::receiver_count`: the number of live receivers, which depends
/// on receivers held elsewhere; nothing is claimed of it.
#[verifier::external_body]
fn broadcast_receiver_count(sender: &Sender<LogEntry>) -> usize {
    sender.receiver_count()
}

/// The views of a sequence of entries.
pub open spec fn entry_views(s: Seq<LogEntry>) -> Seq<LogEntryView> {
    s.map_values(|e: LogEntry| e@)
}

/// Shared logging sink: a bounded history and a live broadcast stream.
pub struct LogBus {
    sender: Sender<LogEntry>,
    history: RingBuffer<LogEntry>,
    /// Every entry handed to the broadcast channel so far, in order.
    sent: Ghost<Seq<LogEntryView>>,
}

impl View for LogBus {
    type V = Seq<LogEntryView>;

    /// The retained entries, oldest first.
    closed spec fn view(&self) -> Seq<LogEntryView> {
        entry_views(self.history@)
    }
}

impl Default for LogBus {
    fn default() -> (b: Self)
        ensures
            b@ == Seq::<LogEntryView>::empty(),
            b.published() == Seq::<LogEntryView>::empty(),
            b.capacity() == DEFAULT_HISTORY_CAPACITY,
    {
        LogBus::with_defaults()
    }
}

impl LogBus {
    /// The number of entries the history retains.
    pub closed spec fn capacity(&self) -> nat {
        self.history.cap()
    }

    /// Every bus retains at least one entry.
    pub proof fn lemma_capacity_at_least_one(&self)
        ensures
            self.capacity() >= 1,
    {
        self.history.lemma_cap_at_least_one();
    }

    /// The entries handed to the broadcast channel since the bus was made,
    /// oldest first. Which subscribers receive them depends on the
    /// receivers alive at each send.
    pub closed spec fn published(&self) -> Seq<LogEntryView> {
        self.sent@
    }

    /// A bus whose history holds `history_capacity` entries (at least one).
    pub fn new(history_capacity: usize) -> (b: Self)
        ensures
            b@ == Seq::<LogEntryView>::empty(),
            b.published() == Seq::<LogEntryView>::empty(),
            b.capacity() == clamped_capacity(history_capacity as nat),
    {
        let (sender, _) = broadcast_channel(DEFAULT_BROADCAST_DEPTH);
        let history = RingBuffer::new(history_capacity);
        let b = LogBus { sender, history, sent: Ghost(Seq::empty()) };
        assert(b@ =~= Seq::<LogEntryView>::empty());
        b
    }

    /// A bus with the default history capacity.
    pub fn with_defaults() -> (b: Self)
        ensures
            b@ == Seq::<LogEntryView>::empty(),
            b.published() == Seq::<LogEntryView>::empty(),
            b.capacity() == DEFAULT_HISTORY_CAPACITY,
    {
        LogBus::new(DEFAULT_HISTORY_CAPACITY)
    }

    /// Subscribe to the live stream of entries emitted from now on.
    pub fn subscribe(&self) -> Receiver<LogEntry> {
        broadcast_subscribe(&self.sender)
    }

    /// Emit an entry: it is appended to the history (evicting the oldest
    /// entry when full) and then published to the subscribers, if any.
    /// Publishing to no subscriber is not an error.
    pub fn emit(&mut self, entry: LogEntry)
        ensures
            final(self)@ == pushed(old(self)@, old(self).capacity(), entry@),
            final(self).published() == old(self).published().push(entry@),
            final(self).capacity() == old(self).capacity(),
            final(self)@.len() <= final(self).capacity(),
    {
        let ghost before = self.history@;
        let ghost view = entry@;
        let copy = entry.clone();
        self.history.push(copy);
        proof {
            let t = before.push(copy);
            let cap = self.history.cap();
            assert(entry_views(t) =~= entry_views(before).push(entry@));
            if t.len() > cap {
                assert(entry_views(t.subrange(t.len() - cap, t.len() as int)) =~= entry_views(
                    t,
                ).subrange(t.len() - cap, t.len() as int));
            }
        }
        let _ = broadcast_send(&self.sender, entry);
        self.sent = Ghost(self.sent@.push(view));
    }

    /// Every retained entry, oldest first.
    pub fn recent(&self) -> (v: Vec<LogEntry>)
        ensures
            entry_views(v@) == self@,
    {
        let v = self.history.to_vec();
        assert(entry_views(v@) =~= self@);
        v
    }

    /// Number of receivers currently subscribed.
    pub fn receiver_count(&self) -> usize {
        broadcast_receiver_count(&self.sender)
    }

    /// Emit at `Info` level, stamped now.
    pub fn info(&mut self, source: &str, message: &str)
        ensures
            exists|reading: Option<u128>|
                final(self)@ == pushed(
                    old(self)@,
                    old(self).capacity(),
                    LogEntryView { timestamp_ms: spec_epoch_millis(reading), level: LogLevel::Info, source: source@, message: message@ },
                ) && final(self).published() == old(self).published().push(
                    LogEntryView { timestamp_ms: spec_epoch_millis(reading), level: LogLevel::Info, source: source@, message: message@ },
                ),
            final(self).capacity() == old(self).capacity(),
    {
        let e = LogEntry::now(LogLevel::Info, source, message);
        self.emit(e);
    }

    /// Emit at `Warn` level, stamped now.
    pub fn warn(&mut self, source: &str, message: &str)
        ensures
            exists|reading: Option<u128>|
                final(self)@ == pushed(
                    old(self)@,
                    old(self).capacity(),
                    LogEntryView { timestamp_ms: spec_epoch_millis(reading), level: LogLevel::Warn, source: source@, message: message@ },
                ) && final(self).published() == old(self).published().push(
                    LogEntryView { timestamp_ms: spec_epoch_millis(reading), level: LogLevel::Warn, source: source@, message: message@ },
                ),
            final(self).capacity() == old(self).capacity(),
    {
        let e = LogEntry::now(LogLevel::Warn, source, message);
        self.emit(e);
    }

    /// Emit at `Error` level, stamped now.
    pub fn error(&mut self, source: &str, message: &str)
        ensures
            exists|reading: Option<u128>|
                final(self)@ == pushed(
                    old(self)@,
                    old(self).capacity(),
                    LogEntryView { timestamp_ms: spec_epoch_millis(reading), level: LogLevel::Error, source: source@, message: message@ },
                ) && final(self).published() == old(self).published().push(
                    LogEntryView { timestamp_ms: spec_epoch_millis(reading), level: LogLevel::Error, source: source@, message: message@ },
                ),
            final(self).capacity() == old(self).capacity(),
    {
        let e = LogEntry::now(LogLevel::Error, source, message);
        self.emit(e);
    }

    /// Emit at `Debug` level, stamped now.
    pub fn debug(&mut self, source: &str, message: &str)
        ensures
            exists|reading: Option<u128>|
                final(self)@ == pushed(
                    old(self)@,
                    old(self).capacity(),
                    LogEntryView { timestamp_ms: spec_epoch_millis(reading), level: LogLevel::Debug, source: source@, message: message@ },
                ) && final(self).published() == old(self).published().push(
                    LogEntryView { timestamp_ms: spec_epoch_millis(reading), level: LogLevel::Debug, source: source@, message: message@ },
                ),
            final(self).capacity() == old(self).capacity(),
    {
        let e = LogEntry::now(LogLevel::Debug, source, message);
        self.emit(e);
    }
}

/// An emitted entry is retained before it is published: after an emit on
/// a bus with history `h`, capacity `cap` and published entries `p`, the
/// newest retained entry is the entry last handed to the channel, so a
/// subscriber that backfills from the history misses nothing.
pub proof fn law_published_entry_is_retained(
    h: Seq<LogEntryView>,
    cap: nat,
    p: Seq<LogEntryView>,
    e: LogEntryView,
)
    requires
        cap >= 1,
    ensures
        pushed(h, cap, e).len() > 0,
        pushed(h, cap, e).last() == p.push(e).last(),
{
}

} // verus!
