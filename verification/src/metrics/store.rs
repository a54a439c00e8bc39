//! A bounded FIFO of recent metrics samples.
//!
//! Sized by default to hold one minute of samples at the default
//! one-second cadence. Reads copy samples out, oldest first.

use vstd::prelude::*;

use crate::ring::{clamped_capacity, pushed, RingBuffer};

verus! {

/// Default capacity: 60 samples, one minute at one sample per second.
pub const DEFAULT_HISTORY_CAPACITY: usize = 60;

/// The most recent samples of type `S`, oldest first.
pub struct MetricsStore<S> {
    samples: RingBuffer<S>,
}

impl<S> View for MetricsStore<S> {
    type V = Seq<S>;

    /// The retained samples, oldest first.
    closed spec fn view(&self) -> Seq<S> {
        self.samples@
    }
}

impl<S> MetricsStore<S> {
    /// The number of samples the store retains.
    pub closed spec fn capacity(&self) -> nat {
        self.samples.cap()
    }

    /// Every store retains at least one sample.
    pub proof fn lemma_capacity_at_least_one(&self)
        ensures
            self.capacity() >= 1,
    {
        self.samples.lemma_cap_at_least_one();
    }

    /// A store with `capacity` slots (at least one).
    pub fn new(capacity: usize) -> (m: Self)
        ensures
            m@ == Seq::<S>::empty(),
            m.capacity() == clamped_capacity(capacity as nat),
    {
        MetricsStore { samples: RingBuffer::new(capacity) }
    }

    /// Append a sample, evicting the oldest once the store is full.
    pub fn push(&mut self, sample: S)
        ensures
            final(self)@ == pushed(old(self)@, old(self).capacity(), sample),
            final(self).capacity() == old(self).capacity(),
            final(self)@.len() <= final(self).capacity(),
    {
        self.samples.push(sample);
    }

    /// Number of retained samples (at most the capacity).
    pub fn len(&self) -> (n: usize)
        ensures
            n == self@.len(),
            n <= self.capacity(),
    {
        self.samples.len()
    }

    /// True if no samples have been pushed yet.
    pub fn is_empty(&self) -> (b: bool)
        ensures
            b == (self@.len() == 0),
    {
        self.samples.is_empty()
    }
}

/// The newest of the samples `h`, if any.
pub open spec fn newest<S>(h: Seq<S>) -> Option<S> {
    if h.len() == 0 {
        None
    } else {
        Some(h.last())
    }
}

impl<S: Copy> MetricsStore<S> {
    /// A copy of the most recent sample, if any.
    pub fn latest(&self) -> (r: Option<S>)
        ensures
            r == newest(self@),
    {
        match self.samples.back() {
            Some(s) => Some(*s),
            None => None,
        }
    }

    /// A copy of every retained sample, oldest first.
    pub fn history(&self) -> (v: Vec<S>)
        ensures
            v@ == self@,
    {
        self.samples.copy_to_vec()
    }
}

/// The latest sample is the last one of the history: none before any
/// push, and otherwise the newest retained sample, which is the one
/// pushed last.
pub proof fn law_latest_is_last_of_history<S>(h: Seq<S>, cap: nat, x: S)
    requires
        cap >= 1,
    ensures
        newest(h) is None <==> h.len() == 0,
        h.len() > 0 ==> newest(h) == Some(h[h.len() - 1]),
        newest(pushed(h, cap, x)) == Some(x),
{
}

} // verus!
