//! The bounded sample queue between the player and the audio device.
//!
//! The queue is a `ringbuf` heap ring. Everything this crate relies on
//! about it is stated here, over two names: what the ring holds and how
//! much it can hold. Samples travel through it as IEEE-754 bit patterns.

use ringbuf::traits::{Consumer, Observer, Producer};
use vstd::prelude::*;

verus! {

/// A `ringbuf::HeapRb` of samples.
#[verifier::external_body]
pub struct SampleRing {
    inner: ringbuf::HeapRb<u32>,
}

/// What the ring holds, oldest sample first.
pub uninterp spec fn ring_items(ring: SampleRing) -> Seq<u32>;

/// How many samples the ring can hold; fixed when the ring is made.
pub uninterp spec fn ring_capacity(ring: SampleRing) -> nat;

impl SampleRing {
    /// Calls `ringbuf::HeapRb::new`: the ring starts empty and holds exactly
    /// `capacity` samples. That function panics on a zero capacity and where
    /// the storage, four bytes for each sample, would pass `isize::MAX`
    /// bytes, so both are left out.
    #[verifier::external_body]
    pub(crate) fn new(capacity: usize) -> (ring: SampleRing)
        requires
            capacity > 0,
            capacity * 4 <= isize::MAX,
        ensures
            ring_items(ring) == Seq::<u32>::empty(),
            ring_capacity(ring) == capacity,
    {
        SampleRing { inner: ringbuf::HeapRb::<u32>::new(capacity) }
    }

    /// Calls `ringbuf`'s `Producer::push_slice`: as many leading samples as
    /// there is room for are appended, in order, and the number appended is
    /// returned. The rest of `samples` is not taken.
    #[verifier::external_body]
    pub(crate) fn push_slice(&mut self, samples: &[u32]) -> (taken: usize)
        requires
            ring_items(*old(self)).len() <= ring_capacity(*old(self)),
        ensures
            taken == (if ring_items(*old(self)).len() + samples@.len() <= ring_capacity(
                *old(self),
            ) {
                samples@.len() as int
            } else {
                ring_capacity(*old(self)) - ring_items(*old(self)).len()
            }),
            ring_items(*final(self)) == ring_items(*old(self)) + samples@.take(taken as int),
            ring_capacity(*final(self)) == ring_capacity(*old(self)),
    {
        self.inner.push_slice(samples)
    }

    /// Calls `ringbuf`'s `Consumer::pop_slice`: the oldest samples, as many
    /// as are held and fit, are moved in order to the front of `out`, and
    /// their number is returned. The rest of `out` keeps its contents.
    #[verifier::external_body]
    pub(crate) fn pop_slice(&mut self, out: &mut [u32]) -> (moved: usize)
        ensures
            moved == (if old(out)@.len() <= ring_items(*old(self)).len() {
                old(out)@.len()
            } else {
                ring_items(*old(self)).len()
            }),
            final(out)@ == ring_items(*old(self)).take(moved as int) + old(out)@.skip(moved as int),
            ring_items(*final(self)) == ring_items(*old(self)).skip(moved as int),
            ring_capacity(*final(self)) == ring_capacity(*old(self)),
    {
        self.inner.pop_slice(out)
    }

    /// Calls `ringbuf`'s `Observer::occupied_len`: the number of samples held.
    #[verifier::external_body]
    pub(crate) fn occupied_len(&self) -> (len: usize)
        ensures
            len == ring_items(*self).len(),
    {
        self.inner.occupied_len()
    }
}

} // verus!
