//! Bounded byte channel model and its stream/sink adapters.
//!
//! The channel is a fixed-capacity, point-to-point byte queue with one
//! producer endpoint and one consumer endpoint.  Its failure taxonomy
//! distinguishes the transient conditions (`Full`, `Empty`) from the fatal
//! ones (the counterpart endpoint is gone).

use vstd::prelude::*;

use crate::stream::ByteSink;
use crate::stream::ByteStream;
use crate::stream::Sink;
use crate::stream::Stream;

verus! {

/// Failure to push a byte without waiting.
#[derive(Clone, Copy, PartialEq, Eq, Structural, Debug)]
pub enum TrySendError {
    /// The queue is at capacity; expected and transient.
    Full,
    /// The consumer endpoint is gone; fatal for whoever required delivery.
    NoReceiver,
}

/// Failure to pull a byte without waiting.
#[derive(Clone, Copy, PartialEq, Eq, Structural, Debug)]
pub enum ReceiveError {
    /// The queue holds nothing right now; expected and transient.
    Empty,
    /// The queue is drained and the producer endpoint is gone.
    NoSender,
}

/// Fixed-capacity single-producer single-consumer byte queue.
pub struct ByteChannel {
    queue: Vec<u8>,
    capacity: usize,
    sender_alive: bool,
    receiver_alive: bool,
}

impl ByteChannel {
    /// The bytes currently queued, oldest first.
    pub closed spec fn contents(&self) -> Seq<u8> {
        self.queue@
    }

    /// The fixed capacity chosen at construction.
    pub closed spec fn capacity_spec(&self) -> nat {
        self.capacity as nat
    }

    pub closed spec fn has_sender(&self) -> bool {
        self.sender_alive
    }

    pub closed spec fn has_receiver(&self) -> bool {
        self.receiver_alive
    }

    pub open spec fn wf(&self) -> bool {
        self.contents().len() <= self.capacity_spec()
    }

    pub fn new(capacity: usize) -> (r: Self)
        ensures
            r.wf(),
            r.contents() == Seq::<u8>::empty(),
            r.capacity_spec() == capacity as nat,
            r.has_sender(),
            r.has_receiver(),
    {
        ByteChannel { queue: Vec::new(), capacity, sender_alive: true, receiver_alive: true }
    }

    pub fn len(&self) -> (r: usize)
        ensures
            r == self.contents().len(),
    {
        self.queue.len()
    }

    pub fn is_empty(&self) -> (r: bool)
        ensures
            r == (self.contents().len() == 0),
    {
        self.queue.len() == 0
    }

    pub fn is_full(&self) -> (r: bool)
        requires
            self.wf(),
        ensures
            r == (self.contents().len() == self.capacity_spec()),
    {
        self.queue.len() == self.capacity
    }

    pub fn capacity(&self) -> (r: usize)
        ensures
            r == self.capacity_spec(),
    {
        self.capacity
    }

    /// Push one byte without waiting: refused when no consumer exists, or
    /// when the queue is at capacity.
    pub fn try_send(&mut self, b: u8) -> (r: Result<(), TrySendError>)
        requires
            old(self).wf(),
        ensures
            final(self).wf(),
            final(self).capacity_spec() == old(self).capacity_spec(),
            final(self).has_sender() == old(self).has_sender(),
            final(self).has_receiver() == old(self).has_receiver(),
            !old(self).has_receiver() ==> r == Err::<(), TrySendError>(TrySendError::NoReceiver)
                && final(self).contents() == old(self).contents(),
            old(self).has_receiver() && old(self).contents().len() == old(self).capacity_spec()
                ==> r == Err::<(), TrySendError>(TrySendError::Full) && final(self).contents()
                == old(self).contents(),
            old(self).has_receiver() && old(self).contents().len() < old(self).capacity_spec()
                ==> r == Ok::<(), TrySendError>(()) && final(self).contents() == old(
                self,
            ).contents().push(b),
    {
        if !self.receiver_alive {
            Err(TrySendError::NoReceiver)
        } else if self.queue.len() == self.capacity {
            Err(TrySendError::Full)
        } else {
            self.queue.push(b);
            Ok(())
        }
    }

    /// Pull one byte without waiting: the queue drains even after the
    /// producer is gone, and only an empty queue distinguishes a missing
    /// producer from a quiet one.
    pub fn try_recv(&mut self) -> (r: Result<u8, ReceiveError>)
        requires
            old(self).wf(),
        ensures
            final(self).wf(),
            final(self).capacity_spec() == old(self).capacity_spec(),
            final(self).has_sender() == old(self).has_sender(),
            final(self).has_receiver() == old(self).has_receiver(),
            old(self).contents().len() > 0 ==> r == Ok::<u8, ReceiveError>(
                old(self).contents().first(),
            ) && final(self).contents() == old(self).contents().drop_first(),
            old(self).contents().len() == 0 && old(self).has_sender() ==> r == Err::<
                u8,
                ReceiveError,
            >(ReceiveError::Empty) && final(self).contents() == old(self).contents(),
            old(self).contents().len() == 0 && !old(self).has_sender() ==> r == Err::<
                u8,
                ReceiveError,
            >(ReceiveError::NoSender) && final(self).contents() == old(self).contents(),
    {
        if self.queue.len() > 0 {
            let b = self.queue.remove(0);
            proof {
                assert(self.queue@ =~= old(self).queue@.drop_first());
            }
            Ok(b)
        } else if self.sender_alive {
            Err(ReceiveError::Empty)
        } else {
            Err(ReceiveError::NoSender)
        }
    }

    /// The producer endpoint goes away (its task ended).
    pub fn drop_sender(&mut self)
        ensures
            final(self).contents() == old(self).contents(),
            final(self).capacity_spec() == old(self).capacity_spec(),
            !final(self).has_sender(),
            final(self).has_receiver() == old(self).has_receiver(),
            final(self).wf() == old(self).wf(),
    {
        self.sender_alive = false;
    }

    /// The consumer endpoint goes away (its task ended).
    pub fn drop_receiver(&mut self)
        ensures
            final(self).contents() == old(self).contents(),
            final(self).capacity_spec() == old(self).capacity_spec(),
            final(self).has_sender() == old(self).has_sender(),
            !final(self).has_receiver(),
            final(self).wf() == old(self).wf(),
    {
        self.receiver_alive = false;
    }
}

/// The consumer endpoint of a byte channel, seen as a pull-based byte source.
/// Exhaustion of the queue ends the stream for this sequential model; the
/// cooperative wait for more input is the surrounding runtime's affair.
pub struct ChannelStream {
    pub channel: ByteChannel,
}

impl ChannelStream {
    pub fn new(channel: ByteChannel) -> (r: Self)
        ensures
            r.channel == channel,
    {
        ChannelStream { channel }
    }
}

impl Stream for ChannelStream {
    type Item = u8;

    open spec fn inv(&self) -> bool {
        self.channel.wf()
    }

    open spec fn pending(&self) -> Seq<u8> {
        self.channel.contents()
    }

    fn next(&mut self) -> (r: Option<u8>) {
        match self.channel.try_recv() {
            Ok(b) => Some(b),
            Err(_) => None,
        }
    }
}

impl ByteStream for ChannelStream {

}

/// The producer endpoint of a byte channel, seen as a push-based byte sink.
pub struct ChannelSink {
    pub channel: ByteChannel,
}

impl ChannelSink {
    pub fn new(channel: ByteChannel) -> (r: Self)
        ensures
            r.channel == channel,
    {
        ChannelSink { channel }
    }
}

impl Sink for ChannelSink {
    type Item = u8;

    type Error = TrySendError;

    open spec fn inv(&self) -> bool {
        self.channel.wf()
    }

    open spec fn usable(&self) -> bool {
        self.channel.has_receiver()
    }

    open spec fn accepted(&self) -> Seq<u8> {
        self.channel.contents()
    }

    open spec fn will_accept(&self, item: &u8) -> bool {
        self.channel.has_receiver() && self.channel.contents().len()
            < self.channel.capacity_spec()
    }

    fn send(&mut self, item: u8) -> (r: Result<(), TrySendError>) {
        match self.channel.try_send(item) {
            Ok(()) => Ok(()),
            Err(e) => Err(e),
        }
    }
}

impl ByteSink for ChannelSink {

}

} // verus!
