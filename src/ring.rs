//! A bounded first-in first-out store of samples: once full, each new sample evicts
//! the oldest one.
use std::collections::VecDeque;
use vstd::prelude::*;

verus! {

/// How many samples a buffer created with `capacity` keeps: a capacity of 0 still
/// keeps the latest sample.
pub open spec fn limit(capacity: nat) -> nat {
    if capacity == 0 {
        1
    } else {
        capacity
    }
}

/// The last `n` elements of `s`, or all of `s` if it has no more than `n`.
pub open spec fn most_recent<T>(s: Seq<T>, n: nat) -> Seq<T> {
    if s.len() <= n {
        s
    } else {
        s.subrange(s.len() - n, s.len() as int)
    }
}

/// Samples, oldest first, up to a fixed capacity.
pub struct RingBuffer<T> {
    buffer: VecDeque<T>,
    capacity: usize,
}

impl<T> View for RingBuffer<T> {
    type V = Seq<T>;

    closed spec fn view(&self) -> Seq<T> {
        self.buffer@
    }
}

impl<T: Copy> RingBuffer<T> {
    /// The capacity the buffer was created with.
    pub closed spec fn capacity(&self) -> nat {
        self.capacity as nat
    }

    /// The buffer never holds more than its limit.
    pub closed spec fn wf(&self) -> bool {
        self.buffer@.len() <= limit(self.capacity as nat)
    }

    /// An empty buffer.
    pub fn new(capacity: usize) -> (r: Self)
        ensures
            r.wf(),
            r@ == Seq::<T>::empty(),
            r.capacity() == capacity,
    {
        RingBuffer { buffer: VecDeque::with_capacity(capacity), capacity }
    }

    /// Appends `samples` in order; once the buffer is full, each new sample evicts the
    /// oldest one.
    pub fn push(&mut self, samples: &[T])
        requires
            old(self).wf(),
        ensures
            final(self).wf(),
            final(self).capacity() == old(self).capacity(),
            final(self)@ == most_recent(old(self)@ + samples@, limit(old(self).capacity())),
    {
        let ghost cap0 = self.capacity;
        let ghost start = self.buffer@;
        let ghost lim = limit(self.capacity as nat);
        proof {
            assert(start + samples@.subrange(0, 0) =~= start);
        }
        let mut i: usize = 0;
        while i < samples.len()
            invariant
                i <= samples@.len(),
                lim == limit(self.capacity as nat),
                cap0 == self.capacity,
                self.buffer@.len() <= lim,
                self.buffer@ == most_recent(start + samples@.subrange(0, i as int), lim),
            decreases samples.len() - i,
        {
            let x = samples[i];
            let ghost prefix = start + samples@.subrange(0, i as int);
            let ghost next = start + samples@.subrange(0, i + 1);
            proof {
                assert(next =~= prefix.push(x));
            }
            if self.buffer.len() >= self.capacity {
                self.buffer.pop_front();
            }
            self.buffer.push_back(x);
            proof {
                if prefix.len() + 1 <= lim {
                    assert(self.buffer@ =~= next);
                } else {
                    assert(self.buffer@ =~= next.subrange(next.len() - lim, next.len() as int));
                }
            }
            i = i + 1;
        }
        proof {
            assert(samples@.subrange(0, samples@.len() as int) =~= samples@);
        }
    }

    /// Number of samples held.
    pub fn len(&self) -> (r: usize)
        ensures
            r == self@.len(),
    {
        self.buffer.len()
    }

    /// Whether no sample is held.
    pub fn is_empty(&self) -> (r: bool)
        ensures
            r == (self@.len() == 0),
    {
        self.buffer.len() == 0
    }

    /// Whether at least `required` samples are held.
    pub fn has_enough_samples(&self, required: usize) -> (r: bool)
        ensures
            r == (self@.len() >= required),
    {
        self.buffer.len() >= required
    }

    /// A copy of the most recent `count` samples (all of them if fewer are held), oldest
    /// first; the buffer is left as it is.
    pub fn peek(&self, count: usize) -> (r: Vec<T>)
        ensures
            r@ == most_recent(self@, count as nat),
    {
        let len = self.buffer.len();
        let available = if len < count { len } else { count };
        let start = len - available;
        let mut r: Vec<T> = Vec::new();
        let mut i: usize = start;
        while i < len
            invariant
                start <= i <= len,
                len == self.buffer@.len(),
                r@ == self.buffer@.subrange(start as int, i as int),
            decreases len - i,
        {
            r.push(self.buffer[i]);
            i = i + 1;
            assert(r@ =~= self.buffer@.subrange(start as int, i as int));
        }
        proof {
            if len <= count {
                assert(r@ =~= self.buffer@);
            }
        }
        r
    }

    /// Drops every sample; the capacity stays.
    pub fn clear(&mut self)
        ensures
            final(self).wf(),
            final(self)@ == Seq::<T>::empty(),
            final(self).capacity() == old(self).capacity(),
    {
        self.buffer.clear();
    }
}

/// Pushing past a positive capacity leaves the buffer exactly full, holding the most
/// recent `capacity` samples of everything pushed, in their original order.
pub proof fn lemma_push_past_capacity<T: Copy>(before: RingBuffer<T>, after: RingBuffer<T>, samples: Seq<T>)
    requires
        before.wf(),
        before.capacity() > 0,
        before@.len() + samples.len() >= before.capacity(),
        after@ == most_recent(before@ + samples, limit(before.capacity())),
    ensures
        after@.len() == before.capacity(),
        after@ == (before@ + samples).subrange(
            before@.len() + samples.len() - before.capacity(),
            (before@.len() + samples.len()) as int,
        ),
        most_recent(after@, before.capacity()) == after@,
{
}

} // verus!
