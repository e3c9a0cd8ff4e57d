//! The fan-in channel: one bounded first-in-first-out queue, filled by all
//! reader tasks and drained by the one consumer.
//!
//! The queue never holds more than its capacity. A message offered to a
//! full queue is handed back to the producer, which waits for space and
//! offers it again: the channel drops nothing and grows no further.

use vstd::prelude::*;
use std::collections::VecDeque;
use crate::message::IngestedMessage;

verus! {

/// How an offer to the channel ended.
#[derive(Debug, Clone, PartialEq, Eq)]
pub enum Enqueue {
    /// The message is in the queue.
    Accepted,
    /// The queue is at capacity: the producer keeps the message and waits.
    Full(IngestedMessage),
    /// The consumer is gone: the producer keeps the message and stops.
    Closed(IngestedMessage),
}

/// What the consumer gets when it asks for the next message.
#[derive(Debug, Clone, PartialEq, Eq)]
pub enum Dequeue {
    /// The oldest message in the queue.
    Item(IngestedMessage),
    /// Nothing is queued, but more may come: the consumer waits.
    Empty,
    /// Nothing is queued and nothing more will come.
    EndOfChannel,
}

/// What a channel is, for contracts.
pub struct ChannelView {
    /// The buffered messages, oldest first.
    pub queue: Seq<IngestedMessage>,
    pub capacity: usize,
    /// Number of reader tasks that may still offer messages.
    pub producers: usize,
    /// Whether the consumer still takes part.
    pub consumer_open: bool,
}

impl ChannelView {
    /// The bound: a capacity of at least one, and no more messages
    /// buffered than that.
    pub open spec fn wf(self) -> bool {
        0 < self.capacity && self.queue.len() <= self.capacity
    }

    /// An empty channel, as it is made.
    pub open spec fn fresh(capacity: usize, producers: usize) -> ChannelView {
        ChannelView { queue: Seq::empty(), capacity, producers, consumer_open: true }
    }

    /// Whether the queue is at capacity.
    pub open spec fn is_full(self) -> bool {
        self.queue.len() >= self.capacity
    }

    /// Nothing more can come out of the channel.
    pub open spec fn is_drained(self) -> bool {
        self.queue.len() == 0 && (self.producers == 0 || !self.consumer_open)
    }

    /// An offer. It is refused, and changes nothing, where the consumer is
    /// gone or the queue is at capacity; else the message goes to the back.
    pub open spec fn try_enqueue(self, message: IngestedMessage) -> (ChannelView, Enqueue) {
        if !self.consumer_open {
            (self, Enqueue::Closed(message))
        } else if self.is_full() {
            (self, Enqueue::Full(message))
        } else {
            (ChannelView { queue: self.queue.push(message), ..self }, Enqueue::Accepted)
        }
    }

    /// A request for the next message: the front of the queue, if there is
    /// one. An empty queue ends the channel once no producer is left or the
    /// consumer has closed it.
    pub open spec fn try_dequeue(self) -> (ChannelView, Dequeue) {
        if self.queue.len() > 0 {
            (ChannelView { queue: self.queue.drop_first(), ..self }, Dequeue::Item(self.queue[0]))
        } else if self.is_drained() {
            (self, Dequeue::EndOfChannel)
        } else {
            (self, Dequeue::Empty)
        }
    }

    /// One producer has left.
    pub open spec fn release_producer(self) -> ChannelView {
        if self.producers > 0 {
            ChannelView { producers: (self.producers - 1) as usize, ..self }
        } else {
            self
        }
    }

    /// The consumer stops taking new messages. What is queued stays, to be
    /// drained.
    pub open spec fn close_consumer(self) -> ChannelView {
        ChannelView { consumer_open: false, ..self }
    }

    /// Both sides leave at once: the channel is emptied and closed, and
    /// what was queued is handed out, oldest first.
    pub open spec fn shut_down(self) -> (ChannelView, Seq<IngestedMessage>) {
        (
            ChannelView { queue: Seq::empty(), producers: 0, consumer_open: false, ..self },
            self.queue,
        )
    }
}

/// One operation on the channel, by whichever task.
pub enum ChannelOp {
    /// A producer offers a message.
    Offer(IngestedMessage),
    /// The consumer asks for the next message.
    Take,
    /// A producer leaves.
    ReleaseProducer,
    /// The consumer closes the channel.
    CloseConsumer,
}

impl ChannelView {
    /// The channel after one operation.
    pub open spec fn step(self, op: ChannelOp) -> ChannelView {
        match op {
            ChannelOp::Offer(message) => self.try_enqueue(message).0,
            ChannelOp::Take => self.try_dequeue().0,
            ChannelOp::ReleaseProducer => self.release_producer(),
            ChannelOp::CloseConsumer => self.close_consumer(),
        }
    }

    /// The channel after a sequence of operations, in order.
    pub open spec fn run(self, ops: Seq<ChannelOp>) -> ChannelView
        decreases ops.len(),
    {
        if ops.len() == 0 {
            self
        } else {
            self.run(ops.drop_last()).step(ops.last())
        }
    }

    /// The messages that the channel accepted during a sequence of
    /// operations, in the order of their offers.
    pub open spec fn accepted(self, ops: Seq<ChannelOp>) -> Seq<IngestedMessage>
        decreases ops.len(),
    {
        if ops.len() == 0 {
            Seq::empty()
        } else {
            let before = self.accepted(ops.drop_last());
            match ops.last() {
                ChannelOp::Offer(message) => if self.run(ops.drop_last()).try_enqueue(message).1
                    is Accepted {
                    before.push(message)
                } else {
                    before
                },
                _ => before,
            }
        }
    }

    /// The messages that the consumer got during a sequence of operations,
    /// in the order in which it got them.
    pub open spec fn delivered(self, ops: Seq<ChannelOp>) -> Seq<IngestedMessage>
        decreases ops.len(),
    {
        if ops.len() == 0 {
            Seq::empty()
        } else {
            let before = self.delivered(ops.drop_last());
            match ops.last() {
                ChannelOp::Take => match self.run(ops.drop_last()).try_dequeue().1 {
                    Dequeue::Item(message) => before.push(message),
                    _ => before,
                },
                _ => before,
            }
        }
    }
}

/// One offer for each message, in order.
pub open spec fn offers(messages: Seq<IngestedMessage>) -> Seq<ChannelOp> {
    Seq::new(messages.len(), |i: int| ChannelOp::Offer(messages[i]))
}

/// `count` requests of the consumer, one after the other.
pub open spec fn takes(count: nat) -> Seq<ChannelOp> {
    Seq::new(count, |i: int| ChannelOp::Take)
}

/// The messages of one connection among `messages`, in their order.
pub open spec fn from_source(messages: Seq<IngestedMessage>, source: usize) -> Seq<IngestedMessage> {
    messages.filter(|m: IngestedMessage| m.source == source)
}

/// The bounded queue between the reader tasks and the consumer.
#[derive(Debug)]
pub struct FanInChannel {
    queue: VecDeque<IngestedMessage>,
    capacity: usize,
    producers: usize,
    consumer_open: bool,
}

impl View for FanInChannel {
    type V = ChannelView;

    closed spec fn view(&self) -> ChannelView {
        ChannelView {
            queue: self.queue@,
            capacity: self.capacity,
            producers: self.producers,
            consumer_open: self.consumer_open,
        }
    }
}

impl FanInChannel {
    /// An empty channel of the given capacity for the given number of
    /// producers. There is no channel of capacity zero: it could never pass
    /// a message on.
    pub fn new(capacity: usize, producers: usize) -> (channel: Option<FanInChannel>)
        ensures
            capacity == 0 <==> channel is None,
            channel matches Some(c) ==> c@ == ChannelView::fresh(capacity, producers) && c@.wf(),
    {
        if capacity == 0 {
            None
        } else {
            Some(FanInChannel { queue: VecDeque::new(), capacity, producers, consumer_open: true })
        }
    }

    /// Number of messages buffered.
    pub fn len(&self) -> (len: usize)
        ensures
            len == self@.queue.len(),
    {
        self.queue.len()
    }

    pub fn capacity(&self) -> (capacity: usize)
        ensures
            capacity == self@.capacity,
    {
        self.capacity
    }

    pub fn producers(&self) -> (producers: usize)
        ensures
            producers == self@.producers,
    {
        self.producers
    }

    pub fn is_empty(&self) -> (empty: bool)
        ensures
            empty == (self@.queue.len() == 0),
    {
        self.queue.len() == 0
    }

    pub fn is_full(&self) -> (full: bool)
        ensures
            full == self@.is_full(),
    {
        self.queue.len() >= self.capacity
    }

    /// Whether the consumer still takes part.
    pub fn is_open(&self) -> (open: bool)
        ensures
            open == self@.consumer_open,
    {
        self.consumer_open
    }

    /// Offers a message. A refused message comes back unchanged.
    pub fn try_enqueue(&mut self, message: IngestedMessage) -> (outcome: Enqueue)
        ensures
            final(self)@ == old(self)@.try_enqueue(message).0,
            outcome == old(self)@.try_enqueue(message).1,
            old(self)@.wf() ==> final(self)@.wf(),
    {
        if !self.consumer_open {
            Enqueue::Closed(message)
        } else if self.queue.len() >= self.capacity {
            Enqueue::Full(message)
        } else {
            self.queue.push_back(message);
            Enqueue::Accepted
        }
    }

    /// Takes the oldest message, if there is one.
    pub fn try_dequeue(&mut self) -> (outcome: Dequeue)
        ensures
            final(self)@ == old(self)@.try_dequeue().0,
            outcome == old(self)@.try_dequeue().1,
            old(self)@.wf() ==> final(self)@.wf(),
    {
        match self.queue.pop_front() {
            Some(message) => Dequeue::Item(message),
            None => {
                if self.producers == 0 || !self.consumer_open {
                    Dequeue::EndOfChannel
                } else {
                    Dequeue::Empty
                }
            },
        }
    }

    /// Records that one producer has left.
    pub fn release_producer(&mut self)
        ensures
            final(self)@ == old(self)@.release_producer(),
            old(self)@.wf() ==> final(self)@.wf(),
    {
        if self.producers > 0 {
            self.producers = self.producers - 1;
        }
    }

    /// Empties and closes the channel for shutdown, and hands out what was
    /// still queued, oldest first.
    pub fn shut_down(&mut self) -> (left: Vec<IngestedMessage>)
        ensures
            final(self)@ == old(self)@.shut_down().0,
            left@ == old(self)@.shut_down().1,
            old(self)@.wf() ==> final(self)@.wf(),
    {
        let ghost queued = self.queue@;
        let mut left: Vec<IngestedMessage> = Vec::new();
        while self.queue.len() > 0
            invariant
                left@ + self.queue@ == queued,
                self.capacity == old(self).capacity,
            decreases self.queue@.len(),
        {
            let ghost before = self.queue@;
            let ghost taken = left@;
            match self.queue.pop_front() {
                Some(message) => {
                    left.push(message);
                    assert(left@ + self.queue@ =~= taken + before);
                },
                None => {},
            }
        }
        assert(left@ =~= queued);
        self.producers = 0;
        self.consumer_open = false;
        assert(self.queue@ =~= Seq::<IngestedMessage>::empty());
        left
    }

    /// The consumer closes the channel: from now on every offer is refused.
    pub fn close_consumer(&mut self)
        ensures
            final(self)@ == old(self)@.close_consumer(),
            old(self)@.wf() ==> final(self)@.wf(),
    {
        self.consumer_open = false;
    }
}

} // verus!
