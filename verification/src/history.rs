//! Bounded line history: a fixed-capacity FIFO of values.
//!
//! `RingBuffer` keeps at most `capacity` elements in insertion order. Adding
//! an element beyond capacity evicts the oldest one. The view of a buffer is
//! the sequence of retained elements, front (oldest) first.

use std::collections::VecDeque;
use vstd::prelude::*;
use vstd::std_specs::iter::IteratorSpec;

verus! {

/// What a buffer holding `s` with capacity `cap` retains after `v` is added:
/// `v` goes to the back, and if the buffer would exceed its capacity the
/// front (oldest) element is evicted.
pub open spec fn spec_ring_add<T>(s: Seq<T>, v: T, cap: usize) -> Seq<T> {
    let grown = s.push(v);
    if grown.len() > cap {
        grown.subrange(1, grown.len() as int)
    } else {
        grown
    }
}

/// Fixed-capacity FIFO of values; the oldest element is evicted first.
#[derive(Debug)]
pub struct RingBuffer<T> {
    buf: VecDeque<T>,
    capacity: usize,
}

impl<T> View for RingBuffer<T> {
    type V = Seq<T>;

    closed spec fn view(&self) -> Seq<T> {
        self.buf@
    }
}

impl<T> RingBuffer<T> {
    #[verifier::type_invariant]
    spec fn wf(&self) -> bool {
        self.buf@.len() <= self.capacity
    }

    /// The capacity fixed at construction.
    pub closed spec fn capacity(&self) -> usize {
        self.capacity
    }

    /// A buffer never retains more elements than its capacity.
    pub fn len_bounded(&self)
        ensures
            self@.len() <= self.capacity(),
    {
        proof {
            use_type_invariant(&*self);
        }
    }

    /// Creates an empty buffer that will retain at most `capacity` elements.
    pub fn new(capacity: usize) -> (r: Self)
        ensures
            r@ == Seq::<T>::empty(),
            r.capacity() == capacity,
    {
        RingBuffer { buf: VecDeque::with_capacity(capacity), capacity }
    }

    /// Appends `value`; if the buffer would exceed its capacity, the oldest
    /// element is evicted.
    pub fn add(&mut self, value: T)
        ensures
            final(self)@ == spec_ring_add(old(self)@, value, old(self).capacity()),
            final(self).capacity() == old(self).capacity(),
    {
        proof {
            use_type_invariant(&*self);
        }
        let mut buf: VecDeque<T> = VecDeque::new();
        std::mem::swap(&mut buf, &mut self.buf);
        buf.push_back(value);
        if buf.len() > self.capacity {
            buf.pop_front();
        }
        std::mem::swap(&mut buf, &mut self.buf);
        proof {
            assert(final(self)@ =~= spec_ring_add(old(self)@, value, old(self).capacity()));
        }
    }

    /// Returns the oldest retained element, or `None` on an empty buffer.
    pub fn peek(&self) -> (r: Option<&T>)
        ensures
            match r {
                Some(x) => self@.len() > 0 && x == &self@[0],
                None => self@.len() == 0,
            },
    {
        if self.buf.len() > 0 {
            Some(&self.buf[0])
        } else {
            None
        }
    }

    /// Iterates front to back over the currently retained elements.
    pub fn iter(&self) -> (it: std::collections::vec_deque::Iter<'_, T>)
        ensures
            it.remaining() == self@.as_ref(),
    {
        self.buf.iter()
    }
}

} // verus!
