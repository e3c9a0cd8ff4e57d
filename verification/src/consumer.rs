//! The consumer task: the one reader of the fan-in channel.

use vstd::prelude::*;
use crate::channel::{ChannelView, Dequeue, FanInChannel};
use crate::message::IngestedMessage;

verus! {

/// What the caller does next for the consumer task.
#[derive(Debug, Clone, PartialEq, Eq)]
pub enum ConsumerAction {
    /// Hand this message to the observer, then ask again.
    Emit(IngestedMessage),
    /// Nothing is queued: wait until a producer has enqueued, then ask again.
    Wait,
    /// The channel has ended: leave the loop.
    Exit,
}

/// The consumer's rule: once finished it stays finished and takes nothing;
/// else it takes the oldest message, waits on an empty channel, and
/// finishes when the channel has ended.
pub open spec fn consumer_poll(finished: bool, channel: ChannelView) -> (
    bool,
    ChannelView,
    ConsumerAction,
) {
    if finished {
        (true, channel, ConsumerAction::Exit)
    } else {
        match channel.try_dequeue().1 {
            Dequeue::Item(message) => (false, channel.try_dequeue().0, ConsumerAction::Emit(message)),
            Dequeue::Empty => (false, channel, ConsumerAction::Wait),
            Dequeue::EndOfChannel => (true, channel, ConsumerAction::Exit),
        }
    }
}

/// The loop that drains the channel, as a state machine. Its view says
/// whether it has finished.
#[derive(Debug)]
pub struct ConsumerTask {
    finished: bool,
}

impl View for ConsumerTask {
    type V = bool;

    closed spec fn view(&self) -> bool {
        self.finished
    }
}

impl ConsumerTask {
    pub fn new() -> (consumer: ConsumerTask)
        ensures
            !consumer@,
    {
        ConsumerTask { finished: false }
    }

    pub fn is_finished(&self) -> (finished: bool)
        ensures
            finished == self@,
    {
        self.finished
    }

    /// Asks the channel for the next message.
    pub fn poll(&mut self, channel: &mut FanInChannel) -> (action: ConsumerAction)
        ensures
            final(self)@ == consumer_poll(old(self)@, old(channel)@).0,
            final(channel)@ == consumer_poll(old(self)@, old(channel)@).1,
            action == consumer_poll(old(self)@, old(channel)@).2,
            old(channel)@.wf() ==> final(channel)@.wf(),
    {
        if self.finished {
            return ConsumerAction::Exit;
        }
        match channel.try_dequeue() {
            Dequeue::Item(message) => ConsumerAction::Emit(message),
            Dequeue::Empty => ConsumerAction::Wait,
            Dequeue::EndOfChannel => {
                self.finished = true;
                ConsumerAction::Exit
            },
        }
    }

    /// Ends the consumer without asking the channel again.
    pub fn finish(&mut self)
        ensures
            final(self)@,
    {
        self.finished = true;
    }
}

} // verus!
