//! The sample bus: the bounded queue that carries feature vectors from the
//! task that samples to the task that classifies, first in, first out.

use embassy_sync::blocking_mutex::raw::NoopRawMutex;
use embassy_sync::channel::{Channel, TryReceiveError, TrySendError};
use crate::sensor::{all_of_length, concat_spectra, concatenation};
use vstd::prelude::*;

verus! {

/// The number of feature vectors that the bus holds at most.
pub const BUS_CAPACITY: usize = 64;

/// A channel of `embassy_sync` for feature vectors, with 64 places.
#[verifier::external_body]
pub struct FeatureChannel {
    channel: Channel<NoopRawMutex, Vec<u32>, 64>,
}

/// The feature vectors that wait in a channel, oldest first.
pub uninterp spec fn channel_items(channel: FeatureChannel) -> Seq<Seq<u32>>;

/// Calls `embassy_sync::channel::Channel::new`, which makes a channel with
/// an empty queue.
#[verifier::external_body]
fn channel_new() -> (channel: FeatureChannel)
    ensures
        channel_items(channel) == Seq::<Seq<u32>>::empty(),
{
    FeatureChannel { channel: Channel::new() }
}

/// Calls `embassy_sync::channel::Channel::len`, the number of messages in
/// the queue.
#[verifier::external_body]
fn channel_len(channel: &FeatureChannel) -> (len: usize)
    ensures
        len == channel_items(*channel).len(),
{
    channel.channel.len()
}

/// Calls `embassy_sync::channel::Channel::try_send`. The channel pushes
/// the message to the back of its queue of 64 places; where the queue is
/// full it changes nothing and hands the message back in its error.
#[verifier::external_body]
fn channel_try_send(channel: &mut FeatureChannel, message: Vec<u32>) -> (r: Result<(), Vec<u32>>)
    ensures
        channel_items(*old(channel)).len() < 64 ==> r is Ok && channel_items(*final(channel))
            == channel_items(*old(channel)).push(message@),
        channel_items(*old(channel)).len() >= 64 ==> r is Err && r->Err_0 == message
            && channel_items(*final(channel)) == channel_items(*old(channel)),
{
    match channel.channel.try_send(message) {
        Ok(()) => Ok(()),
        Err(TrySendError::Full(message)) => Err(message),
    }
}

/// Calls `embassy_sync::channel::Channel::try_receive`. The channel pops
/// the message at the front of its queue; where the queue is empty it
/// changes nothing and reports that.
#[verifier::external_body]
fn channel_try_receive(channel: &mut FeatureChannel) -> (r: Option<Vec<u32>>)
    ensures
        channel_items(*old(channel)).len() > 0 ==> r is Some && r->0@ == channel_items(
            *old(channel),
        )[0] && channel_items(*final(channel)) == channel_items(*old(channel)).drop_first(),
        channel_items(*old(channel)).len() == 0 ==> r is None && channel_items(*final(channel))
            == channel_items(*old(channel)),
{
    match channel.channel.try_receive() {
        Ok(message) => Some(message),
        Err(TryReceiveError::Empty) => None,
    }
}

/// The queue after an attempt to send `item`: with `item` at its back, or
/// unchanged where it is full.
pub open spec fn after_send(queue: Seq<Seq<u32>>, item: Seq<u32>) -> Seq<Seq<u32>> {
    if queue.len() < BUS_CAPACITY {
        queue.push(item)
    } else {
        queue
    }
}

/// The queue after an attempt to receive: without its front, or unchanged
/// where it is empty.
pub open spec fn after_receive(queue: Seq<Seq<u32>>) -> Seq<Seq<u32>> {
    if queue.len() > 0 {
        queue.drop_first()
    } else {
        queue
    }
}

/// A full bus takes nothing and loses nothing; once the consumer has
/// received one feature vector, the oldest, the bus takes the next one, at
/// the back, behind all that waited.
pub proof fn lemma_backpressure(queue: Seq<Seq<u32>>, item: Seq<u32>)
    requires
        queue.len() == BUS_CAPACITY,
    ensures
        after_send(queue, item) == queue,
        after_receive(queue) == queue.subrange(1, queue.len() as int),
        after_send(after_receive(queue), item) == queue.subrange(1, queue.len() as int).push(item),
        after_send(after_receive(queue), item).len() == BUS_CAPACITY,
{
}

/// What is sent comes out in the order in which it was sent, each feature
/// vector once. A feature vector that is sent goes behind all that wait: the
/// oldest stays at the front, and whether the consumer receives before or
/// after the send, the same feature vectors wait in the same order.
pub proof fn lemma_fifo(queue: Seq<Seq<u32>>, item: Seq<u32>)
    requires
        queue.len() < BUS_CAPACITY,
    ensures
        after_send(queue, item).len() == queue.len() + 1,
        after_send(queue, item).last() == item,
        forall|i: int| 0 <= i < queue.len() ==> after_send(queue, item)[i] == queue[i],
        queue.len() > 0 ==> after_receive(after_send(queue, item)) == after_send(
            after_receive(queue),
            item,
        ),
        queue.len() == 0 ==> after_receive(after_send(queue, item)) == queue,
{
    if queue.len() > 0 {
        assert(queue.push(item).drop_first() =~= queue.drop_first().push(item));
    } else {
        assert(queue.push(item).drop_first() =~= queue);
    }
}

/// The bus between the sampling task and the classifying task.
pub struct SampleBus {
    channel: FeatureChannel,
}

impl View for SampleBus {
    type V = Seq<Seq<u32>>;

    closed spec fn view(&self) -> Seq<Seq<u32>> {
        channel_items(self.channel)
    }
}

impl SampleBus {
    /// The invariant of the bus: it holds no more than its capacity.
    pub open spec fn wf(&self) -> bool {
        self@.len() <= BUS_CAPACITY
    }

    /// An empty bus.
    pub fn new() -> (r: Self)
        ensures
            r.wf(),
            r@.len() == 0,
    {
        SampleBus { channel: channel_new() }
    }

    /// The number of feature vectors that wait.
    pub fn len(&self) -> (r: usize)
        ensures
            r == self@.len(),
    {
        channel_len(&self.channel)
    }

    /// Whether nothing waits.
    pub fn is_empty(&self) -> (r: bool)
        ensures
            r == (self@.len() == 0),
    {
        channel_len(&self.channel) == 0
    }

    /// Whether the bus takes no more.
    pub fn is_full(&self) -> (r: bool)
        requires
            self.wf(),
        ensures
            r == (self@.len() == BUS_CAPACITY),
    {
        channel_len(&self.channel) >= BUS_CAPACITY
    }

    /// Puts `features` at the back of the bus. A full bus takes nothing:
    /// the feature vector is handed back, for the producer to wait and send
    /// it again.
    pub fn try_send(&mut self, features: Vec<u32>) -> (r: Result<(), Vec<u32>>)
        requires
            old(self).wf(),
        ensures
            final(self).wf(),
            final(self)@ == after_send(old(self)@, features@),
            r is Ok <==> old(self)@.len() < BUS_CAPACITY,
            r is Err ==> r->Err_0 == features,
    {
        channel_try_send(&mut self.channel, features)
    }

    /// Takes the oldest feature vector from the bus; none where the bus is
    /// empty.
    pub fn try_receive(&mut self) -> (r: Option<Vec<u32>>)
        requires
            old(self).wf(),
        ensures
            final(self).wf(),
            final(self)@ == after_receive(old(self)@),
            r is Some <==> old(self)@.len() > 0,
            r matches Some(features) ==> features@ == old(self)@[0],
    {
        channel_try_receive(&mut self.channel)
    }
}

/// What became of the spectra of a complete window.
pub enum EmitOutcome {
    /// Their feature vector is on the bus.
    Sent,
    /// The bus is full. The feature vector is handed out; the producer
    /// waits until the consumer has received, and sends it then.
    BusFull(Vec<u32>),
    /// A spectrum does not have the expected number of magnitudes. Nothing
    /// was sent.
    Malformed,
}

/// Joins the magnitude spectra of a complete window into a feature vector
/// and puts it on the bus.
pub fn emit(bus: &mut SampleBus, spectra: &Vec<Vec<u32>>, bins: usize) -> (r: EmitOutcome)
    requires
        old(bus).wf(),
    ensures
        final(bus).wf(),
        !all_of_length(spectra@, bins as nat) ==> r is Malformed && final(bus)@ == old(bus)@,
        all_of_length(spectra@, bins as nat) ==> {
            &&& final(bus)@ == after_send(old(bus)@, concatenation(spectra@, bins as nat))
            &&& old(bus)@.len() < BUS_CAPACITY ==> r is Sent
            &&& old(bus)@.len() >= BUS_CAPACITY ==> r is BusFull && r->BusFull_0@ == concatenation(
                spectra@,
                bins as nat,
            )
        },
{
    match concat_spectra(spectra, bins) {
        None => EmitOutcome::Malformed,
        Some(features) => match bus.try_send(features) {
            Ok(()) => EmitOutcome::Sent,
            Err(features) => EmitOutcome::BusFull(features),
        },
    }
}

} // verus!
