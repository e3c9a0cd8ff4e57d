//! What holds of the pipeline whatever the tasks do and in whatever order
//! they are scheduled.

use vstd::prelude::*;
use crate::channel::{from_source, offers, takes, ChannelOp, ChannelView, Dequeue, Enqueue};
use crate::connection::OpenOutcome;
use crate::consumer::ConsumerAction;
use crate::frame::{Frame, Incoming, OtherKind};
use crate::message::IngestedMessage;
use crate::pipeline::{
    open_count, pending_messages, slots_of, started, PipelineView, ReadOutcome, SlotView,
};
use crate::reader::{numbered, texts_until_end, ReaderAction, ReaderView};

verus! {

/// The bound holds at every step: whatever is done to a channel, it never
/// buffers more than its capacity, and the capacity stays what it was.
pub proof fn capacity_is_never_exceeded(channel: ChannelView, ops: Seq<ChannelOp>)
    requires
        channel.wf(),
    ensures
        channel.run(ops).wf(),
        channel.run(ops).capacity == channel.capacity,
        channel.run(ops).queue.len() <= channel.capacity,
    decreases ops.len(),
{
    if ops.len() > 0 {
        capacity_is_never_exceeded(channel, ops.drop_last());
    }
}

/// First in, first out, and nothing lost: over any sequence of operations,
/// what was queued at the start followed by what was accepted since is what
/// the consumer got followed by what is still queued.
pub proof fn accepted_is_delivered_or_queued(channel: ChannelView, ops: Seq<ChannelOp>)
    ensures
        channel.queue + channel.accepted(ops) == channel.delivered(ops) + channel.run(ops).queue,
    decreases ops.len(),
{
    if ops.len() > 0 {
        let earlier = ops.drop_last();
        accepted_is_delivered_or_queued(channel, earlier);
        let middle = channel.run(earlier);
        if let ChannelOp::Offer(message) = ops.last() {
            assert((channel.delivered(earlier) + middle.queue).push(message)
                =~= channel.delivered(earlier) + middle.queue.push(message));
        }
    }
    assert(channel.queue + channel.accepted(ops) =~= channel.delivered(ops) + channel.run(
        ops,
    ).queue);
}

/// Order within a connection: over any sequence of operations, the messages
/// of one connection reach the consumer in the order in which the channel
/// took them, with none left out in between. How the messages of different
/// connections interleave is not constrained.
pub proof fn order_within_a_connection_is_kept(
    channel: ChannelView,
    ops: Seq<ChannelOp>,
    source: usize,
)
    ensures
        from_source(channel.delivered(ops), source).is_prefix_of(
            from_source(channel.queue + channel.accepted(ops), source),
        ),
        from_source(channel.queue + channel.accepted(ops), source) == from_source(
            channel.delivered(ops),
            source,
        ) + from_source(channel.run(ops).queue, source),
{
    accepted_is_delivered_or_queued(channel, ops);
    let of_source = |m: IngestedMessage| m.source == source;
    Seq::filter_distributes_over_add(channel.delivered(ops), channel.run(ops).queue, of_source);
    let got = from_source(channel.delivered(ops), source);
    let rest = from_source(channel.run(ops).queue, source);
    assert((got + rest).subrange(0, got.len() as int) =~= got);
}

/// While there is room and the consumer takes part, every offer is
/// accepted, and the messages queue up behind what was there.
pub proof fn offers_with_room_are_accepted(channel: ChannelView, messages: Seq<IngestedMessage>)
    requires
        channel.consumer_open,
        channel.queue.len() + messages.len() <= channel.capacity,
    ensures
        channel.run(offers(messages)) == (ChannelView {
            queue: channel.queue + messages,
            ..channel
        }),
        channel.accepted(offers(messages)) == messages,
        channel.delivered(offers(messages)) == Seq::<IngestedMessage>::empty(),
    decreases messages.len(),
{
    let ops = offers(messages);
    if messages.len() > 0 {
        let earlier = messages.drop_last();
        assert(ops.drop_last() =~= offers(earlier));
        offers_with_room_are_accepted(channel, earlier);
        assert(earlier.push(messages.last()) =~= messages);
    }
}

/// The consumer gets what is queued from the front, one message for each
/// request.
pub proof fn takes_deliver_from_the_front(channel: ChannelView, count: nat)
    requires
        count <= channel.queue.len(),
    ensures
        channel.run(takes(count)) == (ChannelView {
            queue: channel.queue.skip(count as int),
            ..channel
        }),
        channel.delivered(takes(count)) == channel.queue.take(count as int),
        channel.accepted(takes(count)) == Seq::<IngestedMessage>::empty(),
    decreases count,
{
    let ops = takes(count);
    if count == 0 {
        assert(channel.queue.skip(0) =~= channel.queue);
    } else {
        let fewer = (count - 1) as nat;
        assert(ops.drop_last() =~= takes(fewer));
        takes_deliver_from_the_front(channel, fewer);
        let rest = channel.queue.skip(fewer as int);
        assert(rest.drop_first() =~= channel.queue.skip(count as int));
    }
}

/// Backpressure, not loss. Offer one message more than the capacity to an
/// empty channel whose consumer is stalled: as many as the capacity are
/// accepted; the last is handed back with the channel unchanged, so its
/// producer waits. As soon as the consumer has taken one message the offer
/// succeeds, and the consumer then gets every message, in order.
pub proof fn backpressure_suspends_and_loses_nothing(
    capacity: usize,
    producers: usize,
    messages: Seq<IngestedMessage>,
)
    requires
        0 < capacity,
        messages.len() == capacity + 1,
    ensures
        ({
            let empty = ChannelView::fresh(capacity, producers);
            let filled = empty.run(offers(messages.take(capacity as int)));
            let last = messages[capacity as int];
            let resumed = filled.try_dequeue().0;
            let refilled = resumed.try_enqueue(last).0;
            &&& filled.queue == messages.take(capacity as int)
            &&& filled.try_enqueue(last) == (filled, Enqueue::Full(last))
            &&& filled.try_dequeue().1 == Dequeue::Item(messages[0])
            &&& resumed.try_enqueue(last).1 == Enqueue::Accepted
            &&& refilled.queue == messages.skip(1)
            &&& refilled.delivered(takes(capacity as nat)) == messages.skip(1)
            &&& refilled.run(takes(capacity as nat)).queue.len() == 0
        }),
{
    let empty = ChannelView::fresh(capacity, producers);
    let first = messages.take(capacity as int);
    offers_with_room_are_accepted(empty, first);
    let filled = empty.run(offers(first));
    let last = messages[capacity as int];
    let resumed = filled.try_dequeue().0;
    let refilled = resumed.try_enqueue(last).0;
    takes_deliver_from_the_front(refilled, capacity as nat);
}

/// Once no producer is left, or the consumer has closed the channel, the
/// consumer gets what is still queued, which is no more than the capacity,
/// and is then told that the channel has ended.
pub proof fn closed_channel_drains_and_ends(channel: ChannelView)
    requires
        channel.wf(),
        channel.producers == 0 || !channel.consumer_open,
    ensures
        ({
            let left = channel.queue.len();
            let drained = channel.run(takes(left));
            &&& left <= channel.capacity
            &&& channel.delivered(takes(left)) == channel.queue
            &&& drained.try_dequeue() == (drained, Dequeue::EndOfChannel)
        }),
{
    takes_deliver_from_the_front(channel, channel.queue.len());
}

/// A stream can be cut anywhere: the reader takes the second part from
/// where the first part left it.
pub proof fn reader_run_in_two_parts(reader: ReaderView, first: Seq<Frame>, second: Seq<Frame>)
    ensures
        reader.after(first + second) == reader.after(first).after(second),
        reader.forwarded(first + second) == reader.forwarded(first) + reader.after(
            first,
        ).forwarded(second),
    decreases second.len(),
{
    if second.len() > 0 {
        let whole = first + second;
        assert(whole.drop_last() =~= first + second.drop_last());
        reader_run_in_two_parts(reader, first, second.drop_last());
    }
    assert(reader.forwarded(first + second) =~= reader.forwarded(first) + reader.after(
        first,
    ).forwarded(second));
}

/// What a single frame does, as a stream of one.
pub proof fn reader_on_one_frame(reader: ReaderView, frame: Frame)
    ensures
        reader.after(seq![frame]) == reader.on_frame(frame).next,
        reader.forwarded(seq![frame]) == match reader.on_frame(frame).action {
            ReaderAction::Forward(message) => seq![message],
            _ => Seq::<IngestedMessage>::empty(),
        },
{
    let one = seq![frame];
    assert(reader.after(one.drop_last()) == reader);
    assert(reader.forwarded(one.drop_last()) =~= Seq::<IngestedMessage>::empty());
}

/// A reader that is not open takes no frame: whatever its connection
/// yields, it forwards nothing and stays as it is. In particular a closed
/// or failed reader never opens again.
pub proof fn reader_that_is_not_open_takes_nothing(reader: ReaderView, frames: Seq<Frame>)
    requires
        !(reader.state is Open),
    ensures
        reader.after(frames) == reader,
        reader.forwarded(frames) == Seq::<IngestedMessage>::empty(),
    decreases frames.len(),
{
    if frames.len() > 0 {
        reader_that_is_not_open_takes_nothing(reader, frames.drop_last());
    }
}

/// Shutdown reaches a reader in one step: after the stop signal it is in a
/// final state, and no frame makes it forward anything again.
pub proof fn stop_signal_stops_a_reader_for_good(reader: ReaderView, frames: Seq<Frame>)
    ensures
        reader.on_stop_signal().next.state.is_terminal(),
        reader.on_stop_signal().next.after(frames) == reader.on_stop_signal().next,
        reader.on_stop_signal().next.forwarded(frames) == Seq::<IngestedMessage>::empty(),
{
    reader_that_is_not_open_takes_nothing(reader.on_stop_signal().next, frames);
}

/// Liveness frames are invisible: a stream of nothing but pings and pongs
/// makes the reader forward nothing, and leaves it as it was.
pub proof fn liveness_frames_are_invisible(reader: ReaderView, frames: Seq<Frame>)
    requires
        forall|i: int| 0 <= i < frames.len() ==> frames[i] is Liveness,
    ensures
        reader.forwarded(frames) == Seq::<IngestedMessage>::empty(),
        reader.after(frames) == reader,
    decreases frames.len(),
{
    if frames.len() > 0 {
        liveness_frames_are_invisible(reader, frames.drop_last());
    }
}

/// A frame that is liveness traffic or of an unrecognised kind can be left
/// out of a stream, wherever it stands: the reader ends in the same state
/// and forwards the same messages.
pub proof fn passed_over_frame_changes_nothing(
    reader: ReaderView,
    before: Seq<Frame>,
    frame: Frame,
    rest: Seq<Frame>,
)
    requires
        frame.is_passed_over(),
    ensures
        reader.after(before.push(frame) + rest) == reader.after(before + rest),
        reader.forwarded(before.push(frame) + rest) == reader.forwarded(before + rest),
{
    let with_frame = before.push(frame);
    assert(with_frame.drop_last() =~= before);
    reader_run_in_two_parts(reader, with_frame, rest);
    reader_run_in_two_parts(reader, before, rest);
}

/// An unrecognised frame is tolerated: the text frame that follows it is
/// forwarded as if the other had not come, and the reader stays open.
pub proof fn text_after_unrecognised_frame_is_forwarded(
    reader: ReaderView,
    kind: OtherKind,
    payload: String,
)
    requires
        reader.state is Open,
        reader.accepted < u64::MAX,
    ensures
        reader.forwarded(seq![Frame::Other(kind), Frame::Text(payload)]) == seq![
            IngestedMessage { source: reader.target, payload, arrival: reader.accepted },
        ],
        reader.after(seq![Frame::Other(kind), Frame::Text(payload)]).state is Open,
{
    let text = seq![Frame::Text(payload)];
    reader_on_one_frame(reader, Frame::Text(payload));
    assert(seq![Frame::Other(kind), Frame::Text(payload)] =~= Seq::<Frame>::empty().push(
        Frame::Other(kind),
    ) + text);
    passed_over_frame_changes_nothing(reader, Seq::empty(), Frame::Other(kind), text);
}

/// What a reader forwards: the text payloads of its stream, in the order in
/// which they came, up to the frame that ends the stream, each under the
/// reader's target and the next arrival number.
pub proof fn reader_forwards_the_texts_in_order(reader: ReaderView, frames: Seq<Frame>)
    requires
        reader.state is Open,
        reader.accepted + frames.len() <= u64::MAX,
    ensures
        reader.forwarded(frames) == numbered(
            reader.target,
            reader.accepted,
            texts_until_end(frames),
        ),
        texts_until_end(frames).len() <= frames.len(),
    decreases frames.len(),
{
    if frames.len() > 0 {
        let head = frames[0];
        let tail = frames.drop_first();
        assert(frames =~= seq![head] + tail);
        reader_on_one_frame(reader, head);
        reader_run_in_two_parts(reader, seq![head], tail);
        let next = reader.on_frame(head).next;
        if next.state is Open {
            reader_forwards_the_texts_in_order(next, tail);
        } else {
            reader_that_is_not_open_takes_nothing(next, tail);
        }
    }
}

/// Isolation at startup: a target gets its reader, open and untouched, if
/// and only if its own connection was opened. How the attempts for the
/// other targets went plays no part.
pub proof fn open_failures_are_isolated(targets: usize, outcomes: Seq<OpenOutcome>, position: usize)
    ensures
        started(targets as nat, outcomes).contains(ReaderView::fresh(position)) <==> (position
            < targets && position < outcomes.len() && outcomes[position as int] is Opened),
        started(targets as nat, outcomes).len() <= targets,
    decreases targets,
{
    if targets > 0 {
        let last = (targets - 1) as usize;
        let earlier = started(last as nat, outcomes);
        let all = started(targets as nat, outcomes);
        open_failures_are_isolated(last, outcomes, position);
        if last < outcomes.len() && outcomes[last as int] is Opened {
            assert(all == earlier.push(ReaderView::fresh(last)));
            assert(all[all.len() - 1] == ReaderView::fresh(last));
            if earlier.contains(ReaderView::fresh(position)) {
                let i = choose|i: int|
                    0 <= i < earlier.len() && earlier[i] == ReaderView::fresh(position);
                assert(all[i] == ReaderView::fresh(position));
            }
            if all.contains(ReaderView::fresh(position)) && position != last {
                let i = choose|i: int|
                    0 <= i < all.len() && all[i] == ReaderView::fresh(position);
                assert(earlier[i] == ReaderView::fresh(position));
            }
        }
    }
}

/// Isolation while running: whatever the connection of one reader yields,
/// be it a failure, and whenever that reader resumes, every other reader,
/// and what it holds, stays exactly as it was.
pub proof fn a_step_of_one_reader_touches_no_other(
    pipeline: PipelineView,
    slot: int,
    incoming: Incoming,
    other: int,
)
    requires
        0 <= other < pipeline.slots.len(),
        other != slot,
    ensures
        pipeline.on_incoming(slot, incoming).0.slots.len() == pipeline.slots.len(),
        pipeline.on_incoming(slot, incoming).0.slots[other] == pipeline.slots[other],
        pipeline.resume(slot).0.slots.len() == pipeline.slots.len(),
        pipeline.resume(slot).0.slots[other] == pipeline.slots[other],
{
}

/// A reader that is open delivers, whatever has become of the others: its
/// text frame goes into the channel while there is room, and else stays
/// with the reader until there is. It is never dropped and never stops the
/// reader.
pub proof fn open_reader_delivers_whatever_the_others_do(
    pipeline: PipelineView,
    slot: int,
    payload: String,
)
    requires
        pipeline.has_reader(slot),
        pipeline.slots[slot].pending is None,
        pipeline.slots[slot].reader.accepted < u64::MAX,
        pipeline.channel.consumer_open,
    ensures
        ({
            let reader = pipeline.slots[slot].reader;
            let message = IngestedMessage {
                source: reader.target,
                payload,
                arrival: reader.accepted,
            };
            let (next, outcome) = pipeline.on_incoming(slot, Incoming::Text(payload));
            &&& next.has_reader(slot)
            &&& if pipeline.channel.is_full() {
                &&& outcome == ReadOutcome::Suspend
                &&& next.slots[slot].pending == Some(message)
                &&& next.channel == pipeline.channel
            } else {
                &&& outcome == ReadOutcome::Continue
                &&& next.slots[slot].pending is None
                &&& next.channel.queue == pipeline.channel.queue.push(message)
            }
        }),
{
}

/// How many readers are open changes with one slot as that slot changes.
pub proof fn open_count_follows_one_slot(slots: Seq<SlotView>, slot: int, to: SlotView)
    requires
        0 <= slot < slots.len(),
    ensures
        open_count(slots.update(slot, to)) + (if slots[slot].is_reading() {
            1nat
        } else {
            0nat
        }) == open_count(slots) + (if to.is_reading() {
            1nat
        } else {
            0nat
        }),
        open_count(slots) <= slots.len(),
    decreases slots.len(),
{
    let updated = slots.update(slot, to);
    if slot == slots.len() - 1 {
        assert(updated.drop_last() =~= slots.drop_last());
        open_count_is_zero_without_readers(slots.drop_last());
    } else {
        assert(updated.drop_last() =~= slots.drop_last().update(slot, to));
        open_count_follows_one_slot(slots.drop_last(), slot, to);
    }
}

/// No reader is open exactly where the count of open readers is zero.
pub proof fn open_count_is_zero_without_readers(slots: Seq<SlotView>)
    ensures
        open_count(slots) == 0 <==> forall|slot: int|
            0 <= slot < slots.len() ==> !slots[slot].is_reading(),
        open_count(slots) <= slots.len(),
    decreases slots.len(),
{
    if slots.len() > 0 {
        let earlier = slots.drop_last();
        open_count_is_zero_without_readers(earlier);
        if open_count(slots) == 0 {
            assert forall|slot: int| 0 <= slot < slots.len() implies !slots[slot].is_reading() by {
                if slot < earlier.len() {
                    assert(earlier[slot] == slots[slot]);
                }
            }
        } else if !slots.last().is_reading() {
            let open = choose|slot: int| 0 <= slot < earlier.len() && earlier[slot].is_reading();
            assert(slots[open].is_reading());
        }
    }
}

/// A pipeline starts well formed.
pub proof fn assembled_pipeline_is_well_formed(readers: Seq<ReaderView>, capacity: usize)
    requires
        0 < capacity,
        readers.len() <= usize::MAX,
    ensures
        PipelineView::assembled(readers, capacity).wf(),
{
    open_count_is_zero_without_readers(slots_of(readers));
}

/// Every operation keeps a pipeline well formed: the channel never holds
/// more than its capacity, it counts as producers exactly the readers that
/// are open, and only an open reader holds a message.
pub proof fn pipeline_stays_well_formed(pipeline: PipelineView, slot: int, incoming: Incoming)
    requires
        pipeline.wf(),
    ensures
        pipeline.on_incoming(slot, incoming).0.wf(),
        pipeline.resume(slot).0.wf(),
        pipeline.poll().0.wf(),
        pipeline.cancel_consumer().wf(),
        pipeline.shutdown().0.wf(),
{
    if pipeline.has_reader(slot) {
        let fed = pipeline.on_incoming(slot, incoming).0;
        open_count_follows_one_slot(pipeline.slots, slot, fed.slots[slot]);
        assert(fed.slots =~= pipeline.slots.update(slot, fed.slots[slot]));
        let resumed = pipeline.resume(slot).0;
        open_count_follows_one_slot(pipeline.slots, slot, resumed.slots[slot]);
        assert(resumed.slots =~= pipeline.slots.update(slot, resumed.slots[slot]));
    }
    open_count_is_zero_without_readers(pipeline.shutdown().0.slots);
}

/// The pipeline has run its course exactly when the channel says so: in a
/// well-formed pipeline whose queue is empty, a consumer at work is told to
/// wait while any reader is open and the consumer takes part, and to leave
/// once none is.
pub proof fn consumer_leaves_when_every_reader_has_stopped(pipeline: PipelineView)
    requires
        pipeline.wf(),
        !pipeline.consumer_finished,
        pipeline.channel.queue.len() == 0,
    ensures
        pipeline.poll().1 == (if pipeline.is_running() && pipeline.channel.consumer_open {
            ConsumerAction::Wait
        } else {
            ConsumerAction::Exit
        }),
{
    open_count_is_zero_without_readers(pipeline.slots);
    if pipeline.is_running() {
        let open = choose|slot: int| pipeline.has_reader(slot);
        assert(pipeline.slots[open].is_reading());
    } else {
        assert forall|slot: int| 0 <= slot < pipeline.slots.len() implies !pipeline.slots[slot]
            .is_reading() by {
            assert(!pipeline.has_reader(slot));
        }
    }
}

/// What the readers hold is no more than one message each.
pub proof fn readers_hold_one_message_each(slots: Seq<SlotView>)
    ensures
        pending_messages(slots).len() <= slots.len(),
    decreases slots.len(),
{
    if slots.len() > 0 {
        readers_hold_one_message_each(slots.drop_last());
    }
}

/// Shutdown is complete. After it every reader is in a final state and
/// holds nothing, the channel is empty and closed, and the consumer has
/// finished; what is handed out for the consumer's last round is bounded
/// by the capacity and the number of readers; and from then on no
/// operation does anything: every reader is told to stop, the consumer to
/// leave.
pub proof fn shutdown_is_complete(pipeline: PipelineView, slot: int, incoming: Incoming)
    requires
        pipeline.wf(),
    ensures
        ({
            let (halted, left) = pipeline.shutdown();
            &&& !halted.is_running()
            &&& forall|any: int|
                0 <= any < halted.slots.len() ==> halted.slots[any].reader.state.is_terminal()
                    && halted.slots[any].pending is None
            &&& halted.channel.queue.len() == 0
            &&& halted.consumer_finished
            &&& left.len() <= pipeline.channel.capacity + pipeline.slots.len()
            &&& halted.on_incoming(slot, incoming) == (halted, ReadOutcome::Stop)
            &&& halted.resume(slot) == (halted, ReadOutcome::Stop)
            &&& halted.poll() == (halted, ConsumerAction::Exit)
            &&& halted.shutdown().0 == halted
        }),
{
    let (halted, left) = pipeline.shutdown();
    readers_hold_one_message_each(pipeline.slots);
    assert(halted.shutdown().0.slots =~= halted.slots);
}

} // verus!
