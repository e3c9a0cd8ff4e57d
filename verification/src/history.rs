//! What a pipeline does over a sequence of operations: where it ends, what
//! its readers took from their connections, and what reached the consumer.

use vstd::prelude::*;
use crate::channel::from_source;
use crate::consumer::ConsumerAction;
use crate::frame::{classified, Frame, Incoming};
use crate::message::IngestedMessage;
use crate::pipeline::{PipelineView, SlotView};
use crate::reader::ReaderAction;

verus! {

/// One operation on the pipeline, by whichever task.
pub enum PipelineOp {
    /// The connection of the reader in this slot has yielded something.
    Incoming(int, Incoming),
    /// The reader in this slot offers again the message it holds.
    Resume(int),
    /// The consumer asks for the next message.
    Poll,
    /// The consumer is told to stop.
    CancelConsumer,
    /// The pipeline is shut down.
    Shutdown,
}

/// The message that a slot holds, as a sequence of at most one.
pub open spec fn held(slot: SlotView) -> Seq<IngestedMessage> {
    match slot.pending {
        Some(message) => seq![message],
        None => Seq::empty(),
    }
}

impl PipelineView {
    /// The pipeline after one operation.
    pub open spec fn step(self, op: PipelineOp) -> PipelineView {
        match op {
            PipelineOp::Incoming(slot, incoming) => self.on_incoming(slot, incoming).0,
            PipelineOp::Resume(slot) => self.resume(slot).0,
            PipelineOp::Poll => self.poll().0,
            PipelineOp::CancelConsumer => self.cancel_consumer(),
            PipelineOp::Shutdown => self.shutdown().0,
        }
    }

    /// What one operation hands to the consumer.
    pub open spec fn emitted_by(self, op: PipelineOp) -> Seq<IngestedMessage> {
        match op {
            PipelineOp::Poll => match self.poll().1 {
                ConsumerAction::Emit(message) => seq![message],
                _ => Seq::empty(),
            },
            PipelineOp::Shutdown => self.shutdown().1,
            _ => Seq::empty(),
        }
    }

    /// Whether the reader in `slot` takes a frame now: it is open and holds
    /// no message.
    pub open spec fn takes_frames(self, slot: int) -> bool {
        self.has_reader(slot) && self.slots[slot].pending is None
    }

    /// The frame that one operation makes the reader in `slot` take, as a
    /// sequence of at most one.
    pub open spec fn frame_taken_by(self, op: PipelineOp, slot: int) -> Seq<Frame> {
        match op {
            PipelineOp::Incoming(at, incoming) => if at == slot && self.takes_frames(slot) {
                seq![classified(incoming)]
            } else {
                Seq::empty()
            },
            _ => Seq::empty(),
        }
    }

    /// The message that the reader in `slot` makes of what one operation
    /// brings it: one for a text frame that it takes, else none.
    pub open spec fn ingested_by(self, op: PipelineOp, slot: int) -> Seq<IngestedMessage> {
        match op {
            PipelineOp::Incoming(at, incoming) => if at == slot && self.takes_frames(slot) {
                match self.slots[slot].reader.on_frame(classified(incoming)).action {
                    ReaderAction::Forward(message) => seq![message],
                    _ => Seq::empty(),
                }
            } else {
                Seq::empty()
            },
            _ => Seq::empty(),
        }
    }

    /// The message of the reader in `slot` that one operation abandons:
    /// the one that the reader offers to a channel whose consumer is gone.
    pub open spec fn dropped_by(self, op: PipelineOp, slot: int) -> Seq<IngestedMessage> {
        if !self.has_reader(slot) || self.channel.consumer_open {
            Seq::empty()
        } else {
            match op {
                PipelineOp::Incoming(at, _) => if at == slot {
                    self.ingested_by(op, slot)
                } else {
                    Seq::empty()
                },
                PipelineOp::Resume(at) => if at == slot {
                    held(self.slots[slot])
                } else {
                    Seq::empty()
                },
                _ => Seq::empty(),
            }
        }
    }

    /// The pipeline after a sequence of operations, in order.
    pub open spec fn run(self, ops: Seq<PipelineOp>) -> PipelineView
        decreases ops.len(),
    {
        if ops.len() == 0 {
            self
        } else {
            self.run(ops.drop_last()).step(ops.last())
        }
    }

    /// The frames that the reader in `slot` took during a sequence of
    /// operations, in order.
    pub open spec fn frames_taken(self, ops: Seq<PipelineOp>, slot: int) -> Seq<Frame>
        decreases ops.len(),
    {
        if ops.len() == 0 {
            Seq::empty()
        } else {
            self.frames_taken(ops.drop_last(), slot) + self.run(ops.drop_last()).frame_taken_by(
                ops.last(),
                slot,
            )
        }
    }

    /// All that reached the consumer during a sequence of operations, in
    /// order.
    pub open spec fn emitted(self, ops: Seq<PipelineOp>) -> Seq<IngestedMessage>
        decreases ops.len(),
    {
        if ops.len() == 0 {
            Seq::empty()
        } else {
            self.emitted(ops.drop_last()) + self.run(ops.drop_last()).emitted_by(ops.last())
        }
    }

    /// All that the reader in `slot` made of its text frames during a
    /// sequence of operations, in order.
    pub open spec fn ingested(self, ops: Seq<PipelineOp>, slot: int) -> Seq<IngestedMessage>
        decreases ops.len(),
    {
        if ops.len() == 0 {
            Seq::empty()
        } else {
            self.ingested(ops.drop_last(), slot) + self.run(ops.drop_last()).ingested_by(
                ops.last(),
                slot,
            )
        }
    }

    /// The messages of the reader in `slot` that were abandoned during a
    /// sequence of operations.
    pub open spec fn dropped(self, ops: Seq<PipelineOp>, slot: int) -> Seq<IngestedMessage>
        decreases ops.len(),
    {
        if ops.len() == 0 {
            Seq::empty()
        } else {
            self.dropped(ops.drop_last(), slot) + self.run(ops.drop_last()).dropped_by(
                ops.last(),
                slot,
            )
        }
    }

    /// The messages of the reader in `slot` that are on their way: those in
    /// the queue, oldest first, then the one that the reader holds.
    pub open spec fn in_flight(self, slot: int) -> Seq<IngestedMessage> {
        from_source(self.channel.queue, self.slots[slot].reader.target) + held(self.slots[slot])
    }

    /// No two readers read for the same target.
    pub open spec fn targets_differ(self) -> bool {
        forall|one: int, other: int|
            0 <= one < self.slots.len() && 0 <= other < self.slots.len() && one != other
                ==> self.slots[one].reader.target != self.slots[other].reader.target
    }

    /// A reader holds only a message of its own target.
    pub open spec fn readers_hold_their_own(self) -> bool {
        forall|slot: int|
            0 <= slot < self.slots.len() ==> (#[trigger] self.slots[slot].pending matches Some(
                message,
            ) ==> message.source == self.slots[slot].reader.target)
    }

    /// Either the consumer takes part or no reader is open: no reader can
    /// meet a channel that refuses its message for good.
    pub open spec fn consumer_stays(self) -> bool {
        self.channel.consumer_open || !self.is_running()
    }

    /// Well formed, with every reader on a target of its own.
    pub open spec fn is_sound(self) -> bool {
        self.wf() && self.targets_differ() && self.readers_hold_their_own()
    }
}

} // verus!
