//! A ring buffer of audio samples that keeps the most recent ones.
use vstd::prelude::*;

use std::collections::VecDeque;

verus! {

/// The last `count` elements of `s` (all of them when `s` is shorter).
pub open spec fn last_n<T>(s: Seq<T>, count: nat) -> Seq<T> {
    if count >= s.len() {
        s
    } else {
        s.skip(s.len() - count)
    }
}

/// Audio ring buffer: it holds the most recent `capacity` samples (none when
/// the capacity is zero).
pub struct AudioRingBuffer<T> {
    buffer: VecDeque<T>,
    capacity: usize,
}

impl<T> View for AudioRingBuffer<T> {
    type V = Seq<T>;

    closed spec fn view(&self) -> Seq<T> {
        self.buffer@
    }
}

impl<T> AudioRingBuffer<T> {
    #[verifier::type_invariant]
    spec fn within_capacity(self) -> bool {
        self.buffer@.len() <= self.capacity
    }

    /// The capacity the buffer was made with.
    pub closed spec fn spec_capacity(&self) -> nat {
        self.capacity as nat
    }

    /// An empty buffer that keeps `capacity` samples.
    pub fn new(capacity: usize) -> (r: Self)
        ensures
            r@ == Seq::<T>::empty(),
            r.spec_capacity() == capacity,
    {
        AudioRingBuffer { buffer: VecDeque::with_capacity(capacity), capacity }
    }

    /// Appends samples, dropping the oldest ones beyond the capacity; a
    /// buffer of capacity zero stores none.
    pub fn push(&mut self, samples: &[T])
        where
            T: Copy,
        ensures
            final(self)@ == last_n(old(self)@ + samples@, old(self).spec_capacity()),
            final(self).spec_capacity() == old(self).spec_capacity(),
    {
        proof {
            use_type_invariant(&*self);
        }
        let ghost start = self@;
        let capacity = self.capacity;
        let mut buffer: VecDeque<T> = VecDeque::new();
        std::mem::swap(&mut buffer, &mut self.buffer);
        let mut i: usize = 0;
        while i < samples.len()
            invariant
                i <= samples.len(),
                capacity == self.capacity,
                buffer@ == last_n(start + samples@.take(i as int), capacity as nat),
                buffer@.len() <= capacity,
            decreases samples.len() - i,
        {
            let ghost prev = start + samples@.take(i as int);
            let ghost next = start + samples@.take(i as int + 1);
            assert(next =~= prev.push(samples@[i as int]));
            let ghost before = buffer@;
            if capacity == 0 {
                assert(last_n(next, 0) =~= Seq::<T>::empty());
                assert(before =~= Seq::<T>::empty());
            } else {
                if buffer.len() >= capacity {
                    buffer.pop_front();
                    assert(before.len() == capacity);
                    assert(prev.len() >= capacity);
                    assert(buffer@ =~= prev.skip(prev.len() - capacity + 1));
                } else {
                    assert(buffer@ == prev);
                }
                buffer.push_back(samples[i]);
                assert(buffer@ =~= last_n(next, capacity as nat));
            }
            i = i + 1;
        }
        assert(samples@.take(samples@.len() as int) =~= samples@);
        self.buffer = buffer;
    }

    /// The number of samples held.
    pub fn len(&self) -> (r: usize)
        ensures
            r == self@.len(),
    {
        self.buffer.len()
    }

    /// Whether no sample is held.
    pub fn is_empty(&self) -> (r: bool)
        ensures
            r == (self@.len() == 0),
    {
        self.buffer.len() == 0
    }

    /// All samples held, oldest first.
    pub fn snapshot(&self) -> (r: Vec<T>)
        where
            T: Copy,
        ensures
            r@ == self@,
    {
        self.last_samples(self.buffer.len())
    }

    /// The last `samples` samples held, oldest first (all of them when fewer
    /// are held).
    pub fn last_samples(&self, samples: usize) -> (r: Vec<T>)
        where
            T: Copy,
        ensures
            r@ == last_n(self@, samples as nat),
    {
        let len = self.buffer.len();
        let count = if samples < len {
            samples
        } else {
            len
        };
        let first = len - count;
        let mut out: Vec<T> = Vec::new();
        let mut k: usize = first;
        while k < len
            invariant
                first <= k <= len,
                len == self@.len(),
                out@ == self@.subrange(first as int, k as int),
            decreases len - k,
        {
            out.push(self.buffer[k]);
            assert(self@.subrange(first as int, k + 1) =~= self@.subrange(
                first as int,
                k as int,
            ).push(self@[k as int]));
            k = k + 1;
        }
        assert(self@.subrange(first as int, len as int) =~= last_n(self@, samples as nat));
        out
    }

    /// Drops every sample.
    pub fn clear(&mut self)
        ensures
            final(self)@ == Seq::<T>::empty(),
            final(self).spec_capacity() == old(self).spec_capacity(),
    {
        let mut buffer: VecDeque<T> = VecDeque::new();
        std::mem::swap(&mut buffer, &mut self.buffer);
        buffer.clear();
        self.buffer = buffer;
    }
}

/// Pushing two batches one after the other is pushing them as one batch.
pub proof fn lemma_push_batches<T>(contents: Seq<T>, capacity: nat, a: Seq<T>, b: Seq<T>)
    ensures
        last_n(last_n(contents + a, capacity) + b, capacity) == last_n(
            contents + a + b,
            capacity,
        ),
{
    let s = contents + a;
    let x = last_n(s, capacity);
    if capacity >= s.len() {
        assert(x == s);
    } else {
        let d = s.len() - capacity;
        assert(x + b =~= (s + b).skip(d));
        assert((s + b).len() - capacity >= d);
        assert(last_n(x + b, capacity) =~= (s + b).skip((s + b).len() - capacity));
    }
}

/// A buffer never holds more samples than its capacity.
pub proof fn lemma_push_bounded<T>(contents: Seq<T>, capacity: nat, samples: Seq<T>)
    ensures
        last_n(contents + samples, capacity).len() <= capacity,
{
}

} // verus!
