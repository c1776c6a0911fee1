use ringbuf::storage::Heap;
use ringbuf::traits::{Consumer, Observer, Producer, Split};
use ringbuf::{HeapCons, HeapProd, HeapRb, LocalRb};
use vstd::prelude::*;

verus! {

/// The ring of `ringbuf` in which samples wait until they make a frame:
/// a `LocalRb` on the heap, used by one thread.
#[verifier::external_body]
pub struct FrameRing {
    ring: LocalRb<Heap<i16>>,
}

/// The samples in the ring, oldest first.
pub uninterp spec fn ring_samples(ring: FrameRing) -> Seq<i16>;

/// The number of samples that the ring was made for.
pub uninterp spec fn ring_capacity(ring: FrameRing) -> nat;

impl FrameRing {
    /// `LocalRb::new`: an empty ring of the capacity asked for. It panics
    /// on a capacity of zero and on one whose bytes `isize` cannot count,
    /// which are left out.
    #[verifier::external_body]
    pub(crate) fn with_capacity(capacity: usize) -> (ring: FrameRing)
        requires
            0 < capacity,
            2 * capacity <= isize::MAX,
        ensures
            ring_samples(ring) == Seq::<i16>::empty(),
            ring_capacity(ring) == capacity,
    {
        FrameRing { ring: LocalRb::new(capacity) }
    }

    /// `Observer::occupied_len`: the number of samples in the ring, which
    /// is never above its capacity.
    #[verifier::external_body]
    pub(crate) fn occupied_len(&self) -> (len: usize)
        ensures
            len == ring_samples(*self).len(),
            len <= ring_capacity(*self),
    {
        self.ring.occupied_len()
    }

    /// `Producer::push_slice`: appends as many of the samples, from the
    /// first on, as there is room for, and returns their number.
    #[verifier::external_body]
    pub(crate) fn push_slice(&mut self, samples: &[i16]) -> (pushed: usize)
        ensures
            pushed == if samples@.len() <= ring_capacity(*old(self)) - ring_samples(
                *old(self),
            ).len() {
                samples@.len() as int
            } else {
                ring_capacity(*old(self)) - ring_samples(*old(self)).len()
            },
            ring_samples(*final(self)) == ring_samples(*old(self)) + samples@.take(pushed as int),
            ring_capacity(*final(self)) == ring_capacity(*old(self)),
    {
        self.ring.push_slice(samples)
    }

    /// `Consumer::pop_slice`: moves the oldest samples into the front of
    /// `out`, as many as the ring has and `out` takes, and returns their
    /// number; the rest of `out` stays.
    #[verifier::external_body]
    pub(crate) fn pop_slice(&mut self, out: &mut Vec<i16>) -> (popped: usize)
        ensures
            popped == if old(out)@.len() <= ring_samples(*old(self)).len() {
                old(out)@.len()
            } else {
                ring_samples(*old(self)).len()
            },
            final(out)@ == ring_samples(*old(self)).take(popped as int) + old(out)@.skip(
                popped as int,
            ),
            ring_samples(*final(self)) == ring_samples(*old(self)).skip(popped as int),
            ring_capacity(*final(self)) == ring_capacity(*old(self)),
    {
        self.ring.pop_slice(out.as_mut_slice())
    }

    /// `Consumer::peek_slice`: copies the oldest samples into the front of
    /// `out`, as many as the ring has and `out` takes, and returns their
    /// number; the ring keeps them, and the rest of `out` stays.
    #[verifier::external_body]
    pub(crate) fn peek_slice(&self, out: &mut Vec<i16>) -> (copied: usize)
        ensures
            copied == if old(out)@.len() <= ring_samples(*self).len() {
                old(out)@.len()
            } else {
                ring_samples(*self).len()
            },
            final(out)@ == ring_samples(*self).take(copied as int) + old(out)@.skip(
                copied as int,
            ),
    {
        self.ring.peek_slice(out.as_mut_slice())
    }
}

/// The writing half of the ring of `ringbuf` that carries complete
/// utterances to the dispatcher. The dispatcher reads from the same ring
/// at any time, so nothing is said of what the ring holds.
#[verifier::external_body]
pub struct UtteranceProducer {
    half: HeapProd<i16>,
}

/// The reading half of that ring.
#[verifier::external_body]
pub struct UtteranceConsumer {
    half: HeapCons<i16>,
}

/// The number of samples that the ring of this half was made for. A ring
/// keeps it for as long as it lives.
pub uninterp spec fn producer_capacity(producer: UtteranceProducer) -> nat;

/// The number of samples that the ring of this half was made for.
pub uninterp spec fn consumer_capacity(consumer: UtteranceConsumer) -> nat;

/// The number of samples for which the producer knows the ring to have
/// room: the room that it saw when it last looked, less what it has
/// pushed since. The consumer can only make room, so the ring has at least
/// as much.
pub uninterp spec fn producer_room(producer: UtteranceProducer) -> nat;

/// `HeapRb::try_new` and `Split::split`: the two halves of a new ring made
/// for `capacity` samples, which is empty, or `None` where the memory
/// could not be had.
/// `try_new` panics on a capacity of zero, which is left out.
#[verifier::external_body]
fn split_ring(capacity: usize) -> (halves: Option<(UtteranceProducer, UtteranceConsumer)>)
    requires
        capacity > 0,
    ensures
        halves matches Some((producer, _)) ==> producer_capacity(producer) == capacity,
        halves matches Some((producer, _)) ==> producer_room(producer) == capacity,
        halves matches Some((_, consumer)) ==> consumer_capacity(consumer) == capacity,
{
    let (producer, consumer) = HeapRb::<i16>::try_new(capacity).ok()?.split();
    Some((UtteranceProducer { half: producer }, UtteranceConsumer { half: consumer }))
}

/// The two halves of a new ring for utterances, made for `capacity`
/// samples and empty. There is no ring for no samples, none for more samples than
/// can be addressed, and none where the memory could not be had.
pub fn utterance_ring(capacity: usize) -> (halves: Option<(UtteranceProducer, UtteranceConsumer)>)
    ensures
        capacity == 0 || 2 * capacity > isize::MAX ==> halves is None,
        halves matches Some(pair) ==> producer_capacity(pair.0) == capacity && producer_room(
            pair.0,
        ) == capacity && consumer_capacity(pair.1) == capacity,
{
    if capacity == 0 || capacity > (isize::MAX as usize) / 2 {
        None
    } else {
        split_ring(capacity)
    }
}

impl UtteranceProducer {
    /// `Producer::push_slice`: appends samples from the first on and
    /// returns how many the ring took, which is never more than it was
    /// made for. It looks anew at how far the consumer has read, so it
    /// takes all the samples where the producer knew of room for them,
    /// and the room known afterwards is no less than the room known
    /// before, less what was pushed.
    #[verifier::external_body]
    pub(crate) fn push_slice(&mut self, samples: &[i16]) -> (pushed: usize)
        ensures
            pushed <= samples@.len(),
            pushed <= producer_capacity(*old(self)),
            samples@.len() <= producer_room(*old(self)) ==> pushed == samples@.len(),
            producer_room(*final(self)) + pushed >= producer_room(*old(self)),
            producer_capacity(*final(self)) == producer_capacity(*old(self)),
    {
        self.half.push_slice(samples)
    }
}

impl UtteranceConsumer {
    /// `Consumer::pop_slice`: moves the oldest samples into the front of
    /// `out` and returns their number, which is never more than the ring
    /// was made for; the rest of `out` stays.
    #[verifier::external_body]
    pub(crate) fn pop_slice(&mut self, out: &mut [i16]) -> (popped: usize)
        ensures
            popped <= old(out)@.len(),
            popped <= consumer_capacity(*old(self)),
            final(out)@.len() == old(out)@.len(),
            final(out)@.skip(popped as int) == old(out)@.skip(popped as int),
            consumer_capacity(*final(self)) == consumer_capacity(*old(self)),
    {
        self.half.pop_slice(out)
    }
}

} // verus!
