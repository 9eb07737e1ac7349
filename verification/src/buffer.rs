//! The per-route sample queue: a fixed-capacity ring buffer that is filled
//! single-handedly while a route is set up and then split into the half the
//! capture callback writes to and the half the playback callback reads from.
//!
//! The queue is the ring buffer of the `ringbuf` crate. Its types are bound
//! by traits of that crate, so each is held in an opaque struct and spoken of
//! through named quantities:
//!
//! * of a whole buffer, the samples it holds (oldest first) and its capacity;
//! * of a producer half, every sample the buffer has ever accepted (oldest
//!   first), how many of those the consumer was seen to have removed when the
//!   producer last looked, and the capacity;
//! * of a consumer half, every sample known to have been accepted when the
//!   consumer last looked, and how many of those it has removed.
//!
//! The two halves run on different threads. What one half is seen to have
//! done can therefore grow with every call on the other half, and the
//! contracts below say so.

use vstd::prelude::*;
use crate::config::SILENCE;

verus! {

/// A ring buffer of samples that has not been split yet.
#[verifier::external_body]
pub struct SampleBuffer {
    ring: ringbuf::HeapRb<u32>,
}

/// The writing half of a split ring buffer.
#[verifier::external_body]
pub struct SampleProducer {
    half: ringbuf::HeapProducer<u32>,
}

/// The reading half of a split ring buffer.
#[verifier::external_body]
pub struct SampleConsumer {
    half: ringbuf::HeapConsumer<u32>,
}

/// The samples a whole buffer holds, oldest first.
pub uninterp spec fn buffer_items(buffer: SampleBuffer) -> Seq<u32>;

/// The number of samples a whole buffer can hold.
pub uninterp spec fn buffer_limit(buffer: SampleBuffer) -> nat;

/// Every sample the buffer behind a producer has accepted so far, oldest first.
pub uninterp spec fn producer_sent(producer: SampleProducer) -> Seq<u32>;

/// How many of the accepted samples the consumer had removed when the
/// producer last looked.
pub uninterp spec fn producer_drained(producer: SampleProducer) -> nat;

/// The number of samples the buffer behind a producer can hold.
pub uninterp spec fn producer_limit(producer: SampleProducer) -> nat;

/// Every sample that had been accepted by the buffer when the consumer last
/// looked, oldest first.
pub uninterp spec fn consumer_arrived(consumer: SampleConsumer) -> Seq<u32>;

/// How many samples the consumer has removed so far.
pub uninterp spec fn consumer_taken(consumer: SampleConsumer) -> nat;

/// Largest capacity a buffer may be created with: the storage of more
/// samples than this cannot be requested from the allocator.
pub const MAX_CAPACITY: usize = usize::MAX / 8;

/// Trusted: `ringbuf::HeapRb::<u32>::new`. The new buffer is empty and has
/// the capacity asked for. The call panics on a capacity of zero and on one
/// whose storage is larger than any allocation may be; both are excluded.
/// As every allocation does, it also fails when memory has run out.
#[verifier::external_body]
fn ring_new(capacity: usize) -> (buffer: SampleBuffer)
    requires
        0 < capacity <= MAX_CAPACITY,
    ensures
        buffer_items(buffer) == Seq::<u32>::empty(),
        buffer_limit(buffer) == capacity,
{
    SampleBuffer { ring: ringbuf::HeapRb::new(capacity) }
}

/// Trusted: `ringbuf::Rb::push` on a whole buffer. The sample is appended
/// behind the ones held if there is room for it, and handed back otherwise;
/// the buffer's capacity never changes.
#[verifier::external_body]
fn ring_push(buffer: &mut SampleBuffer, sample: u32) -> (pushed: Result<(), u32>)
    ensures
        buffer_limit(*final(buffer)) == buffer_limit(*old(buffer)),
        pushed is Ok <==> buffer_items(*old(buffer)).len() < buffer_limit(*old(buffer)),
        match pushed {
            Ok(_) => buffer_items(*final(buffer)) == buffer_items(*old(buffer)).push(sample),
            Err(refused) => refused == sample && buffer_items(*final(buffer)) == buffer_items(
                *old(buffer),
            ),
        },
{
    ringbuf::Rb::push(&mut buffer.ring, sample)
}

/// Trusted: `ringbuf::SharedRb::split`. Both halves start from what the
/// buffer held: the producer counts it as accepted with nothing removed yet,
/// and the consumer sees it as arrived with nothing taken yet.
#[verifier::external_body]
fn ring_split(buffer: SampleBuffer) -> (halves: (SampleProducer, SampleConsumer))
    ensures
        producer_sent(halves.0) == buffer_items(buffer),
        producer_drained(halves.0) == 0,
        producer_limit(halves.0) == buffer_limit(buffer),
        consumer_arrived(halves.1) == buffer_items(buffer),
        consumer_taken(halves.1) == 0,
{
    let (producer, consumer) = buffer.ring.split();
    (SampleProducer { half: producer }, SampleConsumer { half: consumer })
}

/// Trusted: `ringbuf::Producer::is_full`. A buffer that is full now was no
/// less full when the producer last looked, since the consumer only removes.
/// Of a buffer that is not full nothing is claimed.
#[verifier::external_body]
pub(crate) fn producer_is_full(producer: &SampleProducer) -> (full: bool)
    ensures
        full ==> producer_sent(*producer).len() - producer_drained(*producer) >= producer_limit(
            *producer,
        ),
{
    producer.half.is_full()
}

/// Trusted: `ringbuf::Producer::push`. The call looks once at how far the
/// consumer has got, which is never less far than before. The sample is
/// accepted exactly if, seen from there, fewer samples are waiting than the
/// buffer can hold; an accepted sample is appended to the accepted ones, a
/// refused one is handed back and leaves them as they were.
#[verifier::external_body]
pub(crate) fn producer_push(producer: &mut SampleProducer, sample: u32) -> (pushed: Result<
    (),
    u32,
>)
    ensures
        producer_limit(*final(producer)) == producer_limit(*old(producer)),
        producer_drained(*old(producer)) <= producer_drained(*final(producer)),
        pushed is Ok <==> producer_sent(*old(producer)).len() - producer_drained(*final(producer))
            < producer_limit(*old(producer)),
        match pushed {
            Ok(_) => producer_sent(*final(producer)) == producer_sent(*old(producer)).push(
                sample,
            ),
            Err(refused) => refused == sample && producer_sent(*final(producer))
                == producer_sent(*old(producer)),
        },
{
    producer.half.push(sample)
}

/// Trusted: `ringbuf::Consumer::pop`. The call looks once at what the
/// producer has had accepted, which extends what was seen before. If a sample
/// beyond the ones already taken has arrived, the oldest such sample is
/// removed and returned; otherwise nothing is removed.
#[verifier::external_body]
pub(crate) fn consumer_pop(consumer: &mut SampleConsumer) -> (popped: Option<u32>)
    ensures
        consumer_arrived(*old(consumer)).is_prefix_of(consumer_arrived(*final(consumer))),
        match popped {
            Some(sample) => {
                &&& consumer_taken(*old(consumer)) < consumer_arrived(*final(consumer)).len()
                &&& sample == consumer_arrived(*final(consumer))[consumer_taken(
                    *old(consumer),
                ) as int]
                &&& consumer_taken(*final(consumer)) == consumer_taken(*old(consumer)) + 1
            },
            None => {
                &&& consumer_taken(*old(consumer)) >= consumer_arrived(*final(consumer)).len()
                &&& consumer_taken(*final(consumer)) == consumer_taken(*old(consumer))
            },
        },
{
    consumer.half.pop()
}

/// `count` samples of silence.
pub open spec fn silence(count: nat) -> Seq<u32> {
    Seq::new(count, |i: int| SILENCE)
}

/// The smaller of two counts.
pub open spec fn at_most(count: nat, bound: nat) -> nat {
    if count <= bound {
        count
    } else {
        bound
    }
}

impl View for SampleBuffer {
    type V = Seq<u32>;

    /// The samples held, oldest first.
    open spec fn view(&self) -> Seq<u32> {
        buffer_items(*self)
    }
}

impl SampleBuffer {
    /// The number of samples the buffer can hold.
    pub open spec fn capacity(&self) -> nat {
        buffer_limit(*self)
    }

    /// The number of samples that can still be added.
    pub open spec fn room(&self) -> nat {
        if self@.len() <= self.capacity() {
            (self.capacity() - self@.len()) as nat
        } else {
            0
        }
    }

    /// An empty buffer for `capacity` samples.
    pub fn new(capacity: usize) -> (buffer: SampleBuffer)
        requires
            0 < capacity <= MAX_CAPACITY,
        ensures
            buffer@ == Seq::<u32>::empty(),
            buffer.capacity() == capacity,
    {
        ring_new(capacity)
    }

    /// Adds `sample` behind the samples held, or drops it if the buffer is
    /// full. Returns whether it was added.
    pub fn push(&mut self, sample: u32) -> (accepted: bool)
        ensures
            final(self).capacity() == old(self).capacity(),
            accepted == (old(self).room() > 0),
            final(self)@ == if accepted {
                old(self)@.push(sample)
            } else {
                old(self)@
            },
    {
        match ring_push(self, sample) {
            Ok(_) => true,
            Err(_) => false,
        }
    }

    /// Adds up to `count` samples of silence; the ones for which there is no
    /// room are dropped. Returns how many were added.
    pub fn prefill(&mut self, count: usize) -> (added: usize)
        ensures
            final(self).capacity() == old(self).capacity(),
            added == at_most(count as nat, old(self).room()),
            final(self)@ == old(self)@ + silence(added as nat),
    {
        let mut added: usize = 0;
        let mut tried: usize = 0;
        while tried < count
            invariant
                tried <= count,
                self.capacity() == old(self).capacity(),
                added == at_most(tried as nat, old(self).room()),
                self@ == old(self)@ + silence(added as nat),
            decreases count - tried,
        {
            let accepted = self.push(SILENCE);
            tried += 1;
            if accepted {
                proof {
                    assert(silence(added as nat).push(SILENCE) =~= silence((added + 1) as nat));
                    assert((old(self)@ + silence(added as nat)).push(SILENCE) =~= old(self)@
                        + silence((added + 1) as nat));
                }
                added += 1;
            }
        }
        added
    }

    /// Splits the buffer into its writing and its reading half. What the
    /// buffer holds is what the producer counts as accepted and what the
    /// consumer will read first.
    pub fn split(self) -> (halves: (SampleProducer, SampleConsumer))
        ensures
            halves.0.sent() == self@,
            halves.0.drained() == 0,
            halves.0.capacity() == self.capacity(),
            halves.1.arrived() == self@,
            halves.1.taken() == 0,
    {
        ring_split(self)
    }
}

impl SampleProducer {
    /// Every sample accepted so far, oldest first.
    pub open spec fn sent(&self) -> Seq<u32> {
        producer_sent(*self)
    }

    /// How many accepted samples the consumer was last seen to have removed.
    pub open spec fn drained(&self) -> nat {
        producer_drained(*self)
    }

    /// The number of samples the buffer can hold.
    pub open spec fn capacity(&self) -> nat {
        producer_limit(*self)
    }

    /// The number of samples that can be added for certain: the room there
    /// is if the consumer removes nothing more.
    pub open spec fn room(&self) -> nat {
        if self.sent().len() - self.drained() <= self.capacity() {
            (self.capacity() - (self.sent().len() - self.drained())) as nat
        } else {
            0
        }
    }
}

impl SampleConsumer {
    /// Every sample seen to have been accepted, oldest first.
    pub open spec fn arrived(&self) -> Seq<u32> {
        consumer_arrived(*self)
    }

    /// How many samples have been removed so far.
    pub open spec fn taken(&self) -> nat {
        consumer_taken(*self)
    }
}

} // verus!
