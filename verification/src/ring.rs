//! A bounded FIFO that keeps the most recent entries.
//!
//! Both the log history and the metrics history are such buffers: every
//! push appends at the back and, once the buffer is full, drops the
//! oldest entry at the front. A capacity of zero is clamped to one so
//! that the most recent entry is always retained.

use std::collections::VecDeque;

use vstd::prelude::*;

verus! {

/// The last `cap` elements of `s` (all of `s` when it is not longer).
pub open spec fn retain_last<T>(s: Seq<T>, cap: nat) -> Seq<T> {
    if s.len() > cap {
        s.subrange(s.len() - cap, s.len() as int)
    } else {
        s
    }
}

/// The contents after pushing `x` onto contents `s` with capacity `cap`.
pub open spec fn pushed<T>(s: Seq<T>, cap: nat, x: T) -> Seq<T> {
    retain_last(s.push(x), cap)
}

/// The contents after pushing every element of `xs`, in order, onto `s`.
pub open spec fn pushed_all<T>(s: Seq<T>, cap: nat, xs: Seq<T>) -> Seq<T>
    decreases xs.len(),
{
    if xs.len() == 0 {
        s
    } else {
        pushed(pushed_all(s, cap, xs.drop_last()), cap, xs.last())
    }
}

/// The capacity a buffer gets when asked for `requested` slots.
pub open spec fn clamped_capacity(requested: nat) -> nat {
    if requested == 0 { 1 } else { requested }
}

/// A bounded history of values, oldest first.
pub struct RingBuffer<T> {
    entries: VecDeque<T>,
    capacity: usize,
}

impl<T> View for RingBuffer<T> {
    type V = Seq<T>;

    /// The retained entries, oldest first.
    closed spec fn view(&self) -> Seq<T> {
        self.entries@
    }
}

impl<T> RingBuffer<T> {
    #[verifier::type_invariant]
    closed spec fn bounded(self) -> bool {
        &&& 1 <= self.capacity
        &&& self.entries@.len() <= self.capacity
    }

    /// The number of entries the buffer retains.
    pub closed spec fn cap(&self) -> nat {
        clamped_capacity(self.capacity as nat)
    }

    /// Every buffer retains at least one entry.
    pub proof fn lemma_cap_at_least_one(&self)
        ensures
            self.cap() >= 1,
    {
    }

    /// An empty buffer with room for `capacity` entries (at least one).
    pub fn new(capacity: usize) -> (b: Self)
        ensures
            b@ == Seq::<T>::empty(),
            b.cap() == clamped_capacity(capacity as nat),
    {
        let cap = if capacity == 0 { 1 } else { capacity };
        RingBuffer { entries: VecDeque::with_capacity(cap), capacity: cap }
    }

    /// Append `x`, dropping the oldest entry when the buffer is full.
    pub fn push(&mut self, x: T)
        ensures
            final(self)@ == pushed(old(self)@, old(self).cap(), x),
            final(self).cap() == old(self).cap(),
            final(self)@.len() <= final(self).cap(),
    {
        proof { use_type_invariant(&*self); }
        let ghost s0 = self.entries@;
        let mut entries: VecDeque<T> = VecDeque::new();
        std::mem::swap(&mut entries, &mut self.entries);
        if entries.len() == self.capacity {
            let _ = entries.pop_front();
        }
        entries.push_back(x);
        proof {
            let t = s0.push(x);
            if t.len() > self.capacity {
                assert(entries@ =~= t.subrange(t.len() - self.capacity, t.len() as int));
            } else {
                assert(entries@ =~= t);
            }
        }
        self.entries = entries;
    }

    /// Number of retained entries.
    pub fn len(&self) -> (n: usize)
        ensures
            n == self@.len(),
            n <= self.cap(),
    {
        proof { use_type_invariant(self); }
        self.entries.len()
    }

    /// True when nothing has been pushed yet.
    pub fn is_empty(&self) -> (b: bool)
        ensures
            b == (self@.len() == 0),
    {
        self.entries.len() == 0
    }

    /// The most recently pushed entry, if any.
    pub fn back(&self) -> (r: Option<&T>)
        ensures
            self@.len() == 0 ==> r.is_none(),
            self@.len() > 0 ==> r == Some(&self@.last()),
    {
        let n = self.entries.len();
        if n == 0 {
            None
        } else {
            Some(&self.entries[n - 1])
        }
    }
}

impl<T: Clone> RingBuffer<T> {
    /// A copy of every retained entry, oldest first.
    pub fn to_vec(&self) -> (v: Vec<T>)
        ensures
            v@.len() == self@.len(),
            forall|i: int| 0 <= i < v@.len() ==> cloned(self@[i], #[trigger] v@[i]),
    {
        let n = self.entries.len();
        let mut out: Vec<T> = Vec::new();
        let mut i: usize = 0;
        while i < n
            invariant
                n == self@.len(),
                i <= n,
                out@.len() == i,
                forall|j: int| 0 <= j < i ==> cloned(self@[j], #[trigger] out@[j]),
            decreases n - i,
        {
            let c = self.entries[i].clone();
            out.push(c);
            i = i + 1;
        }
        out
    }
}

impl<T: Copy> RingBuffer<T> {
    /// Every retained entry, oldest first, copied out.
    pub fn copy_to_vec(&self) -> (v: Vec<T>)
        ensures
            v@ == self@,
    {
        let n = self.entries.len();
        let mut out: Vec<T> = Vec::new();
        let mut i: usize = 0;
        while i < n
            invariant
                n == self@.len(),
                i <= n,
                out@ == self@.take(i as int),
            decreases n - i,
        {
            out.push(self.entries[i]);
            proof {
                assert(self@.take(i + 1) =~= self@.take(i as int).push(self@[i as int]));
            }
            i = i + 1;
        }
        proof {
            assert(self@.take(n as int) =~= self@);
        }
        out
    }
}

/// Pushing onto a buffer never lets it grow past its capacity.
pub proof fn law_push_stays_within_capacity<T>(s: Seq<T>, cap: nat, x: T)
    requires
        cap >= 1,
        s.len() <= cap,
    ensures
        pushed(s, cap, x).len() <= cap,
        pushed(s, cap, x).len() == if s.len() < cap { s.len() + 1 } else { cap },
{
}

/// The entry pushed last is the newest entry of the buffer.
pub proof fn law_latest_is_last_pushed<T>(s: Seq<T>, cap: nat, x: T)
    requires
        cap >= 1,
    ensures
        pushed(s, cap, x).len() > 0,
        pushed(s, cap, x).last() == x,
{
}

/// Pushing a run of values onto a buffer that holds none leaves exactly
/// the last `cap` of them, oldest first: the buffer evicts in arrival
/// order and never reorders.
pub proof fn law_keeps_most_recent_in_order<T>(cap: nat, xs: Seq<T>)
    requires
        cap >= 1,
    ensures
        pushed_all(Seq::<T>::empty(), cap, xs) == retain_last(xs, cap),
    decreases xs.len(),
{
    if xs.len() > 0 {
        let init = xs.drop_last();
        law_keeps_most_recent_in_order(cap, init);
        let r = retain_last(init, cap);
        let t = r.push(xs.last());
        if init.len() > cap {
            assert(t.subrange(t.len() - cap, t.len() as int) =~= xs.subrange(
                xs.len() - cap,
                xs.len() as int,
            ));
        } else if init.len() == cap {
            assert(t.subrange(t.len() - cap, t.len() as int) =~= xs.subrange(
                xs.len() - cap,
                xs.len() as int,
            ));
        } else {
            assert(t =~= xs);
        }
    }
}

} // verus!
