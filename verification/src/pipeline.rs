//! The pipeline: every reader task, the fan-in channel and the consumer,
//! as one state machine.
//!
//! The caller owns the connections and does the waiting. Whatever a
//! connection yields it hands to [`Pipeline::on_incoming`] under the slot
//! of that connection's reader; whenever the consumer is ready it calls
//! [`Pipeline::poll`]. Each call says what to do next.
//!
//! A reader whose message found the channel full keeps that message and
//! takes no further frame until the channel has taken it: between the
//! connection and the consumer nothing is dropped and nothing overtakes.

use vstd::prelude::*;
use crate::channel::{ChannelView, Enqueue, FanInChannel};
use crate::connection::{Connection, OpenOutcome};
use crate::consumer::{consumer_poll, ConsumerAction, ConsumerTask};
use crate::frame::{classified, classify, Incoming, OtherKind};
use crate::laws::{
    assembled_pipeline_is_well_formed, open_count_is_zero_without_readers,
    pipeline_stays_well_formed,
};
use crate::message::IngestedMessage;
use crate::reader::{ReaderAction, ReaderTask, ReaderView};
use crate::target::{addresses_of, Configuration, ServerTarget};

verus! {

/// Why no pipeline starts.
#[derive(Debug, Clone, Copy, PartialEq, Eq)]
pub enum StartupError {
    /// The configuration lists no server.
    NoTargets,
    /// Not one connection could be opened.
    NothingOpened,
    /// The channel was given the capacity zero.
    ZeroCapacity,
}

/// What the caller does next for a reader task.
#[derive(Debug, Clone, PartialEq, Eq)]
pub enum ReadOutcome {
    /// Receive the next frame.
    Continue,
    /// Emit a diagnostic about an unrecognised frame, then receive the next.
    Diagnosed(OtherKind),
    /// The channel is full and the reader holds the message: receive
    /// nothing, wait until the consumer has taken a message, then call
    /// [`Pipeline::resume`].
    Suspend,
    /// The reader is still waiting for room and took nothing: the frame
    /// comes back, to be handed in again after [`Pipeline::resume`].
    NotTaken(Incoming),
    /// Leave the loop and release the connection.
    Stop,
}

/// The readers that start, given how opening each of `targets` connections
/// went: one for every target whose connection was opened, in the order of
/// the targets. A target for which no outcome is given was not opened.
pub open spec fn started(targets: nat, outcomes: Seq<OpenOutcome>) -> Seq<ReaderView>
    decreases targets,
{
    if targets == 0 {
        Seq::empty()
    } else {
        let position = (targets - 1) as nat;
        let earlier = started(position, outcomes);
        if position < outcomes.len() && outcomes[position as int] is Opened {
            earlier.push(ReaderView::fresh(position as usize))
        } else {
            earlier
        }
    }
}

/// What comes of the opening phase: no targets is an error, and so is not
/// one open connection; else the readers that start.
pub open spec fn connected(targets: nat, outcomes: Seq<OpenOutcome>) -> Result<
    Seq<ReaderView>,
    StartupError,
> {
    if targets == 0 {
        Err(StartupError::NoTargets)
    } else if started(targets, outcomes).len() == 0 {
        Err(StartupError::NothingOpened)
    } else {
        Ok(started(targets, outcomes))
    }
}

/// What each of the reader tasks is, in order.
pub open spec fn reader_views(readers: Seq<ReaderTask>) -> Seq<ReaderView> {
    Seq::new(readers.len(), |i: int| readers[i]@)
}

/// The targets to connect to. A configuration that lists no server is
/// refused here, before any connection is attempted.
pub fn targets_to_open(configuration: &Configuration) -> (result: Result<
    Vec<ServerTarget>,
    StartupError,
>)
    ensures
        match result {
            Ok(targets) => configuration@.len() > 0 && addresses_of(targets@) == configuration@,
            Err(error) => configuration@.len() == 0 && error == StartupError::NoTargets,
        },
{
    if configuration.is_empty() {
        Err(StartupError::NoTargets)
    } else {
        Ok(configuration.relays())
    }
}

/// Decides which reader tasks start, once the connection to every target
/// has been attempted. A connection that could not be opened costs only its
/// own reader: every other target gets one.
pub fn connect_to_server(urls: &Vec<ServerTarget>, outcomes: &Vec<OpenOutcome>) -> (result: Result<
    Vec<ReaderTask>,
    StartupError,
>)
    ensures
        match result {
            Ok(readers) => connected(urls.len() as nat, outcomes@) == Ok::<
                Seq<ReaderView>,
                StartupError,
            >(reader_views(readers@)),
            Err(error) => connected(urls.len() as nat, outcomes@) == Err::<
                Seq<ReaderView>,
                StartupError,
            >(error),
        },
{
    if urls.len() == 0 {
        return Err(StartupError::NoTargets);
    }
    let mut readers: Vec<ReaderTask> = Vec::new();
    let mut position: usize = 0;
    while position < urls.len()
        invariant
            0 <= position <= urls.len(),
            reader_views(readers@) == started(position as nat, outcomes@),
        decreases urls.len() - position,
    {
        let ghost before = readers@;
        let mut connection = Connection::connecting(position);
        if position < outcomes.len() {
            connection.record(outcomes[position]);
        } else {
            connection.record(OpenOutcome::Refused);
        }
        match ReaderTask::bind(connection) {
            Some(reader) => {
                readers.push(reader);
                assert(reader_views(readers@) =~= reader_views(before).push(
                    ReaderView::fresh(position),
                ));
            },
            None => {},
        }
        position = position + 1;
    }
    assert(reader_views(readers@).len() == readers@.len());
    if readers.len() == 0 {
        Err(StartupError::NothingOpened)
    } else {
        Ok(readers)
    }
}

/// One reader task and the message it holds while the channel is full.
pub struct SlotView {
    pub reader: ReaderView,
    pub pending: Option<IngestedMessage>,
}

/// What a pipeline is, for contracts.
pub struct PipelineView {
    pub slots: Seq<SlotView>,
    pub channel: ChannelView,
    pub consumer_finished: bool,
}

/// Number of slots whose reader is open.
pub open spec fn open_count(slots: Seq<SlotView>) -> nat
    decreases slots.len(),
{
    if slots.len() == 0 {
        0
    } else {
        open_count(slots.drop_last()) + if slots.last().reader.state is Open {
            1nat
        } else {
            0nat
        }
    }
}

/// The messages that the readers hold, in the order of the slots.
pub open spec fn pending_messages(slots: Seq<SlotView>) -> Seq<IngestedMessage>
    decreases slots.len(),
{
    if slots.len() == 0 {
        Seq::empty()
    } else {
        let earlier = pending_messages(slots.drop_last());
        match slots.last().pending {
            Some(message) => earlier.push(message),
            None => earlier,
        }
    }
}

/// One slot for each reader, none of them holding a message.
pub open spec fn slots_of(readers: Seq<ReaderView>) -> Seq<SlotView> {
    Seq::new(readers.len(), |i: int| SlotView { reader: readers[i], pending: None })
}

impl SlotView {
    /// Whether the reader of the slot is open.
    pub open spec fn is_reading(self) -> bool {
        self.reader.state is Open
    }

    /// The slot once its reader has got the stop signal: it holds nothing.
    pub open spec fn stopped(self) -> SlotView {
        SlotView { reader: self.reader.on_stop_signal().next, pending: None }
    }
}

impl PipelineView {
    /// The channel is within its bound and counts as producers exactly the
    /// readers that are open; only an open reader holds a message.
    pub open spec fn wf(self) -> bool {
        &&& self.channel.wf()
        &&& self.channel.producers == open_count(self.slots)
        &&& forall|slot: int|
            0 <= slot < self.slots.len() && self.slots[slot].pending is Some
                ==> self.slots[slot].is_reading()
    }

    /// A pipeline as it starts: the given readers, an empty channel that
    /// counts the open ones as its producers, and a consumer at work.
    pub open spec fn assembled(readers: Seq<ReaderView>, capacity: usize) -> PipelineView {
        PipelineView {
            slots: slots_of(readers),
            channel: ChannelView::fresh(capacity, open_count(slots_of(readers)) as usize),
            consumer_finished: false,
        }
    }

    /// Whether `slot` names a reader that is open.
    pub open spec fn has_reader(self, slot: int) -> bool {
        0 <= slot < self.slots.len() && self.slots[slot].is_reading()
    }

    /// Whether any reader is still open.
    pub open spec fn is_running(self) -> bool {
        exists|slot: int| self.has_reader(slot)
    }

    /// Reader `slot`, in state `reader`, offers `message` to the channel.
    /// Accepted, the reader goes on. Refused for want of room, the reader
    /// holds the message and waits. Refused because the consumer is gone,
    /// the reader stops and leaves the channel.
    pub open spec fn offer(self, slot: int, reader: ReaderView, message: IngestedMessage) -> (
        PipelineView,
        ReadOutcome,
    ) {
        match self.channel.try_enqueue(message).1 {
            Enqueue::Accepted => (
                PipelineView {
                    slots: self.slots.update(slot, SlotView { reader, pending: None }),
                    channel: self.channel.try_enqueue(message).0,
                    ..self
                },
                ReadOutcome::Continue,
            ),
            Enqueue::Full(back) => (
                PipelineView {
                    slots: self.slots.update(slot, SlotView { reader, pending: Some(back) }),
                    ..self
                },
                ReadOutcome::Suspend,
            ),
            Enqueue::Closed(_) => (
                PipelineView {
                    slots: self.slots.update(slot, (SlotView { reader, pending: None }).stopped()),
                    channel: self.channel.release_producer(),
                    ..self
                },
                ReadOutcome::Stop,
            ),
        }
    }

    /// The connection of reader `slot` has yielded `incoming`. A slot that
    /// names no reader, or a reader that is not open, gets `Stop` and
    /// nothing changes. A reader that holds a message takes nothing and
    /// hands the frame back. Else the reader handles the classified frame:
    /// a text payload is offered to the channel; a reader that stops leaves
    /// the channel as a producer.
    pub open spec fn on_incoming(self, slot: int, incoming: Incoming) -> (
        PipelineView,
        ReadOutcome,
    ) {
        if !self.has_reader(slot) {
            (self, ReadOutcome::Stop)
        } else if self.slots[slot].pending is Some {
            (self, ReadOutcome::NotTaken(incoming))
        } else {
            let step = self.slots[slot].reader.on_frame(classified(incoming));
            match step.action {
                ReaderAction::Forward(message) => self.offer(slot, step.next, message),
                ReaderAction::Ignore => (self, ReadOutcome::Continue),
                ReaderAction::Diagnose(kind) => (self, ReadOutcome::Diagnosed(kind)),
                ReaderAction::Stop => (
                    PipelineView {
                        slots: self.slots.update(
                            slot,
                            SlotView { reader: step.next, pending: None },
                        ),
                        channel: self.channel.release_producer(),
                        ..self
                    },
                    ReadOutcome::Stop,
                ),
            }
        }
    }

    /// Reader `slot` offers the message it holds once more. A reader that
    /// holds none goes on; one that has stopped gets `Stop`.
    pub open spec fn resume(self, slot: int) -> (PipelineView, ReadOutcome) {
        if !self.has_reader(slot) {
            (self, ReadOutcome::Stop)
        } else {
            match self.slots[slot].pending {
                Some(message) => self.offer(slot, self.slots[slot].reader, message),
                None => (self, ReadOutcome::Continue),
            }
        }
    }

    /// The consumer asks for the next message.
    pub open spec fn poll(self) -> (PipelineView, ConsumerAction) {
        let polled = consumer_poll(self.consumer_finished, self.channel);
        (PipelineView { consumer_finished: polled.0, channel: polled.1, ..self }, polled.2)
    }

    /// The consumer is told to stop: it takes what is queued and no more,
    /// and every reader stops at its next offer.
    pub open spec fn cancel_consumer(self) -> PipelineView {
        PipelineView { channel: self.channel.close_consumer(), ..self }
    }

    /// Shutdown: every reader gets the stop signal, the channel is emptied
    /// and closed, the consumer finishes. What had not reached the consumer
    /// is handed out for its last round: what was queued, oldest first,
    /// then what the readers held, in the order of the slots.
    pub open spec fn shutdown(self) -> (PipelineView, Seq<IngestedMessage>) {
        (
            PipelineView {
                slots: Seq::new(self.slots.len(), |slot: int| self.slots[slot].stopped()),
                channel: self.channel.shut_down().0,
                consumer_finished: true,
            },
            self.channel.queue + pending_messages(self.slots),
        )
    }
}

/// One reader task of the pipeline, with the message it holds while the
/// channel is full.
#[derive(Debug)]
struct Slot {
    reader: ReaderTask,
    pending: Option<IngestedMessage>,
}

impl View for Slot {
    type V = SlotView;

    closed spec fn view(&self) -> SlotView {
        SlotView { reader: self.reader@, pending: self.pending }
    }
}

/// What each of the slots is, in order.
spec fn slot_views(slots: Seq<Slot>) -> Seq<SlotView> {
    Seq::new(slots.len(), |i: int| slots[i]@)
}

/// The running pipeline.
#[derive(Debug)]
pub struct Pipeline {
    slots: Vec<Slot>,
    channel: FanInChannel,
    consumer: ConsumerTask,
}

impl View for Pipeline {
    type V = PipelineView;

    closed spec fn view(&self) -> PipelineView {
        PipelineView {
            slots: slot_views(self.slots@),
            channel: self.channel@,
            consumer_finished: self.consumer@,
        }
    }
}

impl Pipeline {
    /// Puts the reader tasks that started behind one channel of the given
    /// capacity, with one consumer.
    pub fn new(readers: Vec<ReaderTask>, capacity: usize) -> (result: Result<Pipeline, StartupError>)
        ensures
            match result {
                Ok(pipeline) => capacity > 0 && pipeline@.wf() && pipeline@
                    == PipelineView::assembled(reader_views(readers@), capacity),
                Err(error) => capacity == 0 && error == StartupError::ZeroCapacity,
            },
    {
        let mut slots: Vec<Slot> = Vec::new();
        let mut producers: usize = 0;
        let mut position: usize = 0;
        while position < readers.len()
            invariant
                0 <= position <= readers.len(),
                slots@.len() == position,
                producers <= position,
                producers == open_count(slot_views(slots@)),
                slot_views(slots@) == slots_of(reader_views(readers@.take(position as int))),
            decreases readers.len() - position,
        {
            let ghost before = slot_views(slots@);
            let reader = readers[position].duplicate();
            if reader.is_reading() {
                producers = producers + 1;
            }
            slots.push(Slot { reader, pending: None });
            assert(slot_views(slots@).drop_last() =~= before);
            assert(slot_views(slots@) =~= slots_of(
                reader_views(readers@.take(position + 1)),
            )) by {
                assert forall|i: int| 0 <= i < position + 1 implies slot_views(slots@)[i]
                    == slots_of(reader_views(readers@.take(position + 1)))[i] by {
                    if i < position {
                        assert(before[i] == slots_of(
                            reader_views(readers@.take(position as int)),
                        )[i]);
                    }
                }
            }
            position = position + 1;
        }
        assert(readers@.take(position as int) =~= readers@);
        match FanInChannel::new(capacity, producers) {
            Some(channel) => {
                proof {
                    assembled_pipeline_is_well_formed(reader_views(readers@), capacity);
                }
                Ok(Pipeline { slots, channel, consumer: ConsumerTask::new() })
            },
            None => Err(StartupError::ZeroCapacity),
        }
    }

    /// Number of reader tasks, open or not.
    pub fn reader_count(&self) -> (count: usize)
        ensures
            count == self@.slots.len(),
    {
        self.slots.len()
    }

    /// The reader task in a slot, if the slot names one.
    pub fn reader(&self, slot: usize) -> (reader: Option<&ReaderTask>)
        ensures
            slot < self@.slots.len() <==> reader is Some,
            reader matches Some(r) ==> r@ == self@.slots[slot as int].reader,
    {
        if slot < self.slots.len() {
            Some(&self.slots[slot].reader)
        } else {
            None
        }
    }

    /// Whether the reader in a slot holds a message and waits for room.
    pub fn is_suspended(&self, slot: usize) -> (suspended: bool)
        ensures
            suspended == (slot < self@.slots.len() && self@.slots[slot as int].pending is Some),
    {
        if slot < self.slots.len() {
            self.slots[slot].pending.is_some()
        } else {
            false
        }
    }

    /// The channel, to be looked at.
    pub fn channel(&self) -> (channel: &FanInChannel)
        ensures
            channel@ == self@.channel,
    {
        &self.channel
    }

    /// Whether the consumer has left its loop.
    pub fn consumer_finished(&self) -> (finished: bool)
        ensures
            finished == self@.consumer_finished,
    {
        self.consumer.is_finished()
    }

    /// Whether any reader task is still open. The pipeline has run its
    /// course when none is.
    pub fn is_running(&self) -> (running: bool)
        ensures
            running == self@.is_running(),
    {
        let mut slot: usize = 0;
        while slot < self.slots.len()
            invariant
                0 <= slot <= self.slots.len(),
                forall|earlier: int| 0 <= earlier < slot ==> !self@.has_reader(earlier),
            decreases self.slots.len() - slot,
        {
            if self.slots[slot].reader.is_reading() {
                assert(self@.has_reader(slot as int));
                return true;
            }
            slot = slot + 1;
        }
        false
    }

    /// Handles what the connection of reader `slot` has yielded.
    pub fn on_incoming(&mut self, slot: usize, incoming: Incoming) -> (outcome: ReadOutcome)
        ensures
            final(self)@ == old(self)@.on_incoming(slot as int, incoming).0,
            outcome == old(self)@.on_incoming(slot as int, incoming).1,
            old(self)@.wf() ==> final(self)@.wf(),
    {
        proof {
            if old(self)@.wf() {
                pipeline_stays_well_formed(old(self)@, slot as int, incoming);
            }
        }
        if slot >= self.slots.len() {
            return ReadOutcome::Stop;
        }
        if !self.slots[slot].reader.is_reading() {
            return ReadOutcome::Stop;
        }
        if self.slots[slot].pending.is_some() {
            return ReadOutcome::NotTaken(incoming);
        }
        let ghost before = slot_views(self.slots@);
        let action = self.slots[slot].reader.on_frame(classify(incoming));
        let ghost step = before[slot as int].reader.on_frame(classified(incoming));
        assert(slot_views(self.slots@) =~= before.update(
            slot as int,
            SlotView { reader: step.next, pending: None },
        ));
        match action {
            ReaderAction::Forward(message) => {
                let outcome = self.offer(slot, message);
                assert(self@.slots =~= old(self)@.on_incoming(slot as int, incoming).0.slots);
                outcome
            },
            ReaderAction::Ignore => {
                assert(slot_views(self.slots@) =~= before);
                ReadOutcome::Continue
            },
            ReaderAction::Diagnose(kind) => {
                assert(slot_views(self.slots@) =~= before);
                ReadOutcome::Diagnosed(kind)
            },
            ReaderAction::Stop => {
                self.channel.release_producer();
                ReadOutcome::Stop
            },
        }
    }

    /// Offers once more the message that the reader in `slot` holds. To be
    /// called after [`ReadOutcome::Suspend`], once the consumer has taken a
    /// message.
    pub fn resume(&mut self, slot: usize) -> (outcome: ReadOutcome)
        ensures
            final(self)@ == old(self)@.resume(slot as int).0,
            outcome == old(self)@.resume(slot as int).1,
            old(self)@.wf() ==> final(self)@.wf(),
    {
        proof {
            if old(self)@.wf() {
                pipeline_stays_well_formed(old(self)@, slot as int, Incoming::Ping);
            }
        }
        if slot >= self.slots.len() {
            return ReadOutcome::Stop;
        }
        if !self.slots[slot].reader.is_reading() {
            return ReadOutcome::Stop;
        }
        let ghost before = slot_views(self.slots@);
        match self.slots[slot].pending.take() {
            Some(message) => {
                assert(slot_views(self.slots@) =~= before.update(
                    slot as int,
                    SlotView { reader: before[slot as int].reader, pending: None },
                ));
                let outcome = self.offer(slot, message);
                assert(self@.slots =~= old(self)@.resume(slot as int).0.slots);
                outcome
            },
            None => {
                assert(slot_views(self.slots@) =~= before);
                ReadOutcome::Continue
            },
        }
    }

    /// The reader in `slot`, which holds nothing, offers `message`.
    fn offer(&mut self, slot: usize, message: IngestedMessage) -> (outcome: ReadOutcome)
        requires
            slot < old(self)@.slots.len(),
            old(self)@.slots[slot as int].pending is None,
        ensures
            final(self)@ == old(self)@.offer(
                slot as int,
                old(self)@.slots[slot as int].reader,
                message,
            ).0,
            outcome == old(self)@.offer(
                slot as int,
                old(self)@.slots[slot as int].reader,
                message,
            ).1,
    {
        let ghost before = slot_views(self.slots@);
        assert(before.update(slot as int, before[slot as int]) =~= before);
        match self.channel.try_enqueue(message) {
            Enqueue::Accepted => ReadOutcome::Continue,
            Enqueue::Full(back) => {
                self.slots[slot].pending = Some(back);
                assert(slot_views(self.slots@) =~= before.update(
                    slot as int,
                    SlotView { reader: before[slot as int].reader, pending: Some(back) },
                ));
                ReadOutcome::Suspend
            },
            Enqueue::Closed(_) => {
                self.slots[slot].reader.on_channel_closed();
                self.channel.release_producer();
                assert(slot_views(self.slots@) =~= before.update(
                    slot as int,
                    before[slot as int].stopped(),
                ));
                ReadOutcome::Stop
            },
        }
    }

    /// The consumer asks for the next message.
    pub fn poll(&mut self) -> (action: ConsumerAction)
        ensures
            final(self)@ == old(self)@.poll().0,
            action == old(self)@.poll().1,
            old(self)@.wf() ==> final(self)@.wf(),
    {
        self.consumer.poll(&mut self.channel)
    }

    /// Tells the consumer to stop.
    pub fn cancel_consumer(&mut self)
        ensures
            final(self)@ == old(self)@.cancel_consumer(),
            old(self)@.wf() ==> final(self)@.wf(),
    {
        self.channel.close_consumer();
    }

    /// Shuts the pipeline down, and hands out what had not reached the
    /// consumer.
    pub fn shutdown(&mut self) -> (left: Vec<IngestedMessage>)
        ensures
            final(self)@ == old(self)@.shutdown().0,
            left@ == old(self)@.shutdown().1,
            old(self)@.wf() ==> final(self)@.wf(),
    {
        proof {
            open_count_is_zero_without_readers(old(self)@.shutdown().0.slots);
        }
        let ghost before = slot_views(self.slots@);
        let ghost queued = self.channel@.queue;
        self.consumer.finish();
        let mut left = self.channel.shut_down();
        assert(queued + pending_messages(before.take(0)) =~= queued);
        let mut slot: usize = 0;
        while slot < self.slots.len()
            invariant
                0 <= slot <= self.slots.len(),
                self.slots@.len() == before.len(),
                self.channel@ == old(self)@.channel.shut_down().0,
                self.consumer@,
                left@ == queued + pending_messages(before.take(slot as int)),
                forall|done: int|
                    0 <= done < slot ==> slot_views(self.slots@)[done] == before[done].stopped(),
                forall|ahead: int|
                    slot <= ahead < before.len() ==> slot_views(self.slots@)[ahead]
                        == before[ahead],
            decreases self.slots.len() - slot,
        {
            let ghost earlier = slot_views(self.slots@);
            let ghost handed = left@;
            assert(before.take(slot + 1).drop_last() =~= before.take(slot as int));
            self.slots[slot].reader.cancel();
            match self.slots[slot].pending.take() {
                Some(message) => {
                    left.push(message);
                    assert(left@ =~= queued + pending_messages(before.take(slot + 1)));
                },
                None => {},
            }
            assert(slot_views(self.slots@) =~= earlier.update(
                slot as int,
                earlier[slot as int].stopped(),
            ));
            slot = slot + 1;
        }
        assert(before.take(slot as int) =~= before);
        assert(slot_views(self.slots@) =~= old(self)@.shutdown().0.slots);
        left
    }
}

} // verus!
