//! Between a connection and the consumer nothing is lost and nothing
//! overtakes, however the tasks interleave.

use vstd::prelude::*;
use crate::channel::from_source;
use crate::connection::OpenOutcome;
use crate::frame::{classified, Frame, Incoming};
use crate::history::{held, PipelineOp};
use crate::laws::{
    assembled_pipeline_is_well_formed, pipeline_stays_well_formed,
    reader_forwards_the_texts_in_order,
};
use crate::message::IngestedMessage;
use crate::pipeline::{pending_messages, slots_of, started, PipelineView, SlotView};
use crate::reader::{numbered, texts_until_end, ReaderAction, ReaderView};

verus! {

/// The messages of one target among a sequence with one more at its end.
proof fn from_source_with_one_more(
    messages: Seq<IngestedMessage>,
    message: IngestedMessage,
    source: usize,
)
    ensures
        from_source(messages.push(message), source) == if message.source == source {
            from_source(messages, source).push(message)
        } else {
            from_source(messages, source)
        },
{
    reveal(Seq::filter);
    assert(messages.push(message).drop_last() =~= messages);
}

/// The messages of one target among a sequence without its first.
proof fn from_source_without_the_first(messages: Seq<IngestedMessage>, source: usize)
    requires
        messages.len() > 0,
    ensures
        from_source(messages, source) == from_source(seq![messages[0]], source) + from_source(
            messages.drop_first(),
            source,
        ),
        from_source(seq![messages[0]], source) == if messages[0].source == source {
            seq![messages[0]]
        } else {
            Seq::<IngestedMessage>::empty()
        },
{
    let of_source = |m: IngestedMessage| m.source == source;
    assert(messages =~= seq![messages[0]] + messages.drop_first());
    Seq::filter_distributes_over_add(seq![messages[0]], messages.drop_first(), of_source);
    from_source_with_one_more(Seq::empty(), messages[0], source);
    assert(from_source(Seq::<IngestedMessage>::empty(), source) =~= Seq::<IngestedMessage>::empty())
        by {
        reveal(Seq::filter);
    }
}

/// What the readers hold has no message of a target that none of them
/// reads for.
proof fn nothing_held_of_a_foreign_target(slots: Seq<SlotView>, target: usize)
    requires
        forall|any: int| 0 <= any < slots.len() ==> slots[any].reader.target != target,
        forall|any: int|
            0 <= any < slots.len() ==> (#[trigger] slots[any].pending matches Some(message)
                ==> message.source == slots[any].reader.target),
    ensures
        from_source(pending_messages(slots), target) == Seq::<IngestedMessage>::empty(),
    decreases slots.len(),
{
    if slots.len() == 0 {
        reveal(Seq::filter);
    } else {
        let earlier = slots.drop_last();
        assert forall|any: int| 0 <= any < earlier.len() implies earlier[any].reader.target
            != target && (#[trigger] earlier[any].pending matches Some(message) ==> message.source
            == earlier[any].reader.target) by {
            assert(earlier[any] == slots[any]);
        }
        nothing_held_of_a_foreign_target(earlier, target);
        if let Some(message) = slots.last().pending {
            from_source_with_one_more(pending_messages(earlier), message, target);
        }
    }
}

/// Among what the readers hold, the messages of one reader's target are
/// what that reader holds.
proof fn held_messages_of_one_target(slots: Seq<SlotView>, slot: int)
    requires
        0 <= slot < slots.len(),
        forall|one: int, other: int|
            0 <= one < slots.len() && 0 <= other < slots.len() && one != other
                ==> slots[one].reader.target != slots[other].reader.target,
        forall|any: int|
            0 <= any < slots.len() ==> (#[trigger] slots[any].pending matches Some(message)
                ==> message.source == slots[any].reader.target),
    ensures
        from_source(pending_messages(slots), slots[slot].reader.target) == held(slots[slot]),
    decreases slots.len(),
{
    let target = slots[slot].reader.target;
    let earlier = slots.drop_last();
    assert forall|any: int| 0 <= any < earlier.len() implies (#[trigger] earlier[any].pending
        matches Some(message) ==> message.source == earlier[any].reader.target) by {
        assert(earlier[any] == slots[any]);
    }
    if slot == slots.len() - 1 {
        assert forall|any: int| 0 <= any < earlier.len() implies earlier[any].reader.target
            != target by {
            assert(earlier[any] == slots[any]);
        }
        nothing_held_of_a_foreign_target(earlier, target);
    } else {
        assert(earlier[slot] == slots[slot]);
        assert forall|one: int, other: int|
            0 <= one < earlier.len() && 0 <= other < earlier.len() && one
                != other implies earlier[one].reader.target != earlier[other].reader.target by {
            assert(earlier[one] == slots[one] && earlier[other] == slots[other]);
        }
        held_messages_of_one_target(earlier, slot);
    }
    if let Some(message) = slots.last().pending {
        from_source_with_one_more(pending_messages(earlier), message, target);
        assert(Seq::<IngestedMessage>::empty().push(message) =~= seq![message]);
    }
}

/// One operation keeps the account of one reader: what was on its way and
/// what it took is what reached the consumer, what is on its way now, and
/// what was abandoned.
proof fn one_step_keeps_the_account(pipeline: PipelineView, op: PipelineOp, slot: int)
    requires
        pipeline.is_sound(),
        0 <= slot < pipeline.slots.len(),
    ensures
        ({
            let target = pipeline.slots[slot].reader.target;
            let next = pipeline.step(op);
            &&& next.is_sound()
            &&& next.slots.len() == pipeline.slots.len()
            &&& next.slots[slot].reader.target == target
            &&& pipeline.in_flight(slot) + pipeline.ingested_by(op, slot) == from_source(
                pipeline.emitted_by(op),
                target,
            ) + next.in_flight(slot) + pipeline.dropped_by(op, slot)
            &&& !pipeline.has_reader(slot) ==> !next.has_reader(slot)
            &&& pipeline.dropped_by(op, slot).len() > 0 ==> !next.has_reader(slot)
                && !pipeline.channel.consumer_open
            &&& pipeline.dropped_by(op, slot).len() <= 1
        }),
{
    let target = pipeline.slots[slot].reader.target;
    let next = pipeline.step(op);
    let queue = pipeline.channel.queue;
    let nothing = Seq::<IngestedMessage>::empty();
    let before = pipeline.in_flight(slot) + pipeline.ingested_by(op, slot);
    let after = from_source(pipeline.emitted_by(op), target) + next.in_flight(slot)
        + pipeline.dropped_by(op, slot);
    assert(from_source(nothing, target) =~= nothing) by {
        reveal(Seq::filter);
    }
    match op {
        PipelineOp::Incoming(at, incoming) => {
            pipeline_stays_well_formed(pipeline, at, incoming);
            if pipeline.takes_frames(at) {
                let step = pipeline.slots[at].reader.on_frame(classified(incoming));
                if let ReaderAction::Forward(message) = step.action {
                    from_source_with_one_more(queue, message, target);
                }
            }
        },
        PipelineOp::Resume(at) => {
            pipeline_stays_well_formed(pipeline, at, Incoming::Ping);
            if pipeline.has_reader(at) {
                if let Some(message) = pipeline.slots[at].pending {
                    from_source_with_one_more(queue, message, target);
                }
            }
        },
        PipelineOp::Poll => {
            pipeline_stays_well_formed(pipeline, slot, Incoming::Ping);
            if !pipeline.consumer_finished && queue.len() > 0 {
                from_source_without_the_first(queue, target);
            }
        },
        PipelineOp::CancelConsumer => {
            pipeline_stays_well_formed(pipeline, slot, Incoming::Ping);
        },
        PipelineOp::Shutdown => {
            pipeline_stays_well_formed(pipeline, slot, Incoming::Ping);
            held_messages_of_one_target(pipeline.slots, slot);
            let of_source = |m: IngestedMessage| m.source == target;
            Seq::filter_distributes_over_add(queue, pending_messages(pipeline.slots), of_source);
        },
    }
    assert(before =~= after);
}

/// Nothing is lost and nothing overtakes. Take any sound pipeline, any
/// reader of it, and any sequence of operations, in any interleaving. The
/// messages of that reader that were on their way at the start, followed by
/// those it made of its text frames since, are, in this order: those that
/// reached the consumer, those still on their way, and at most one that
/// was abandoned. A message is abandoned only when the reader offers it to
/// a channel whose consumer has gone, and the reader then stops.
pub proof fn accounts_of_a_reader_balance(pipeline: PipelineView, ops: Seq<PipelineOp>, slot: int)
    requires
        pipeline.is_sound(),
        0 <= slot < pipeline.slots.len(),
    ensures
        ({
            let target = pipeline.slots[slot].reader.target;
            let end = pipeline.run(ops);
            &&& end.is_sound()
            &&& end.slots.len() == pipeline.slots.len()
            &&& end.slots[slot].reader.target == target
            &&& pipeline.in_flight(slot) + pipeline.ingested(ops, slot) == from_source(
                pipeline.emitted(ops),
                target,
            ) + end.in_flight(slot) + pipeline.dropped(ops, slot)
            &&& pipeline.dropped(ops, slot).len() <= 1
            &&& pipeline.dropped(ops, slot).len() > 0 ==> !end.has_reader(slot)
        }),
    decreases ops.len(),
{
    let target = pipeline.slots[slot].reader.target;
    let before = pipeline.in_flight(slot) + pipeline.ingested(ops, slot);
    let after = from_source(pipeline.emitted(ops), target) + pipeline.run(ops).in_flight(slot)
        + pipeline.dropped(ops, slot);
    if ops.len() == 0 {
        assert(from_source(Seq::<IngestedMessage>::empty(), target) =~= Seq::<
            IngestedMessage,
        >::empty()) by {
            reveal(Seq::filter);
        }
    } else {
        let earlier = ops.drop_last();
        let op = ops.last();
        let middle = pipeline.run(earlier);
        accounts_of_a_reader_balance(pipeline, earlier, slot);
        one_step_keeps_the_account(middle, op, slot);
        let of_source = |m: IngestedMessage| m.source == target;
        Seq::filter_distributes_over_add(pipeline.emitted(earlier), middle.emitted_by(op), of_source);
        let got = from_source(pipeline.emitted(earlier), target);
        let got_now = from_source(middle.emitted_by(op), target);
        let on_the_way = middle.step(op).in_flight(slot);
        let lost = pipeline.dropped(earlier, slot);
        if lost.len() > 0 {
            // The reader has stopped: it takes and abandons nothing more.
            assert(middle.in_flight(slot) =~= got_now + on_the_way);
            assert(before =~= got + (got_now + on_the_way) + lost);
        } else {
            let taken = pipeline.ingested(earlier, slot);
            let taken_now = middle.ingested_by(op, slot);
            assert(pipeline.in_flight(slot) + taken =~= got + middle.in_flight(slot));
            assert(before =~= (pipeline.in_flight(slot) + taken) + taken_now);
            assert((got + middle.in_flight(slot)) + taken_now =~= got + (middle.in_flight(slot)
                + taken_now));
            assert(before =~= got + (got_now + on_the_way + middle.dropped_by(op, slot)));
        }
    }
    assert(before =~= after);
}

/// The consumer sees the messages of each connection in their order: of
/// what was on its way and what the reader made of its text frames since,
/// what reached the consumer is the first part, with nothing left out in
/// between. How the messages of different connections interleave is not
/// fixed.
pub proof fn consumer_sees_each_connection_in_order(
    pipeline: PipelineView,
    ops: Seq<PipelineOp>,
    slot: int,
)
    requires
        pipeline.is_sound(),
        0 <= slot < pipeline.slots.len(),
    ensures
        from_source(pipeline.emitted(ops), pipeline.slots[slot].reader.target).is_prefix_of(
            pipeline.in_flight(slot) + pipeline.ingested(ops, slot),
        ),
{
    accounts_of_a_reader_balance(pipeline, ops, slot);
    let got = from_source(pipeline.emitted(ops), pipeline.slots[slot].reader.target);
    let rest = pipeline.run(ops).in_flight(slot) + pipeline.dropped(ops, slot);
    assert(pipeline.in_flight(slot) + pipeline.ingested(ops, slot) =~= got + rest);
}

/// One operation other than the consumer's cancellation leaves the
/// consumer in place while any reader is open.
proof fn consumer_stays_over_one_step(pipeline: PipelineView, op: PipelineOp)
    requires
        pipeline.consumer_stays(),
        !(op is CancelConsumer),
    ensures
        pipeline.step(op).consumer_stays(),
{
    let next = pipeline.step(op);
    if next.is_running() {
        let open = choose|slot: int| next.has_reader(slot);
        assert(pipeline.has_reader(open));
    }
}

/// While the consumer is not told to stop, nothing is abandoned: whatever
/// a reader makes of its text frames reaches the consumer or is still on
/// its way, in the queue or held by the reader until the queue has room.
pub proof fn nothing_is_lost_while_the_consumer_stays(
    pipeline: PipelineView,
    ops: Seq<PipelineOp>,
    slot: int,
)
    requires
        pipeline.is_sound(),
        pipeline.consumer_stays(),
        0 <= slot < pipeline.slots.len(),
        forall|i: int| 0 <= i < ops.len() ==> !(ops[i] is CancelConsumer),
    ensures
        pipeline.run(ops).consumer_stays(),
        pipeline.dropped(ops, slot) == Seq::<IngestedMessage>::empty(),
        pipeline.in_flight(slot) + pipeline.ingested(ops, slot) == from_source(
            pipeline.emitted(ops),
            pipeline.slots[slot].reader.target,
        ) + pipeline.run(ops).in_flight(slot),
    decreases ops.len(),
{
    accounts_of_a_reader_balance(pipeline, ops, slot);
    if ops.len() > 0 {
        let earlier = ops.drop_last();
        let middle = pipeline.run(earlier);
        assert forall|i: int| 0 <= i < earlier.len() implies !(earlier[i] is CancelConsumer) by {
            assert(earlier[i] == ops[i]);
        }
        nothing_is_lost_while_the_consumer_stays(pipeline, earlier, slot);
        consumer_stays_over_one_step(middle, ops.last());
        if middle.has_reader(slot) {
            assert(middle.is_running());
        }
        assert(middle.dropped_by(ops.last(), slot) =~= Seq::<IngestedMessage>::empty());
    }
    assert(pipeline.dropped(ops, slot) =~= Seq::<IngestedMessage>::empty());
    assert(pipeline.in_flight(slot) + pipeline.ingested(ops, slot) =~= from_source(
        pipeline.emitted(ops),
        pipeline.slots[slot].reader.target,
    ) + pipeline.run(ops).in_flight(slot));
}

/// What a reader of the pipeline makes of its frames is what the reader
/// task makes of them by itself: the pipeline hands it every frame that it
/// takes, in order, and nothing else.
pub proof fn a_reader_ingests_the_frames_it_takes(
    pipeline: PipelineView,
    ops: Seq<PipelineOp>,
    slot: int,
)
    requires
        0 <= slot < pipeline.slots.len(),
    ensures
        ({
            let reader = pipeline.slots[slot].reader;
            let frames = pipeline.frames_taken(ops, slot);
            let end = pipeline.run(ops);
            &&& frames.len() <= ops.len()
            &&& end.slots.len() == pipeline.slots.len()
            &&& pipeline.ingested(ops, slot) == reader.forwarded(frames)
            &&& end.has_reader(slot) ==> end.slots[slot].reader == reader.after(frames)
        }),
    decreases ops.len(),
{
    let reader = pipeline.slots[slot].reader;
    let frames = pipeline.frames_taken(ops, slot);
    if ops.len() == 0 {
        assert(pipeline.ingested(ops, slot) =~= reader.forwarded(frames));
    } else {
        let earlier = ops.drop_last();
        let middle = pipeline.run(earlier);
        a_reader_ingests_the_frames_it_takes(pipeline, earlier, slot);
        let before = pipeline.frames_taken(earlier, slot);
        let taken = middle.frame_taken_by(ops.last(), slot);
        if taken.len() > 0 {
            assert(frames.drop_last() =~= before);
            assert(frames.last() == taken[0]);
        } else {
            assert(frames =~= before);
        }
        assert(pipeline.ingested(ops, slot) =~= reader.forwarded(frames));
    }
}

/// The readers that start read for targets of their own, in rising order,
/// each open and with nothing taken yet.
pub proof fn started_readers_differ(targets: usize, outcomes: Seq<OpenOutcome>)
    ensures
        forall|i: int|
            0 <= i < started(targets as nat, outcomes).len() ==> {
                &&& (#[trigger] started(targets as nat, outcomes)[i]).target < targets
                &&& started(targets as nat, outcomes)[i] == ReaderView::fresh(
                    started(targets as nat, outcomes)[i].target,
                )
            },
        forall|i: int, j: int|
            0 <= i < j < started(targets as nat, outcomes).len() ==> started(
                targets as nat,
                outcomes,
            )[i].target < started(targets as nat, outcomes)[j].target,
        started(targets as nat, outcomes).len() <= targets,
    decreases targets,
{
    if targets > 0 {
        started_readers_differ((targets - 1) as usize, outcomes);
    }
}

/// A pipeline of the readers that start is sound, and nothing is on its
/// way in it.
pub proof fn started_pipeline_is_sound(targets: usize, outcomes: Seq<OpenOutcome>, capacity: usize)
    requires
        0 < capacity,
    ensures
        PipelineView::assembled(started(targets as nat, outcomes), capacity).is_sound(),
        PipelineView::assembled(started(targets as nat, outcomes), capacity).consumer_stays(),
        forall|slot: int|
            0 <= slot < started(targets as nat, outcomes).len() ==> #[trigger] PipelineView::assembled(
                started(targets as nat, outcomes),
                capacity,
            ).in_flight(slot) == Seq::<IngestedMessage>::empty(),
{
    let readers = started(targets as nat, outcomes);
    let pipeline = PipelineView::assembled(readers, capacity);
    started_readers_differ(targets, outcomes);
    assembled_pipeline_is_well_formed(readers, capacity);
    assert forall|one: int, other: int|
        0 <= one < pipeline.slots.len() && 0 <= other < pipeline.slots.len() && one
            != other implies pipeline.slots[one].reader.target
        != pipeline.slots[other].reader.target by {
        if one < other {
            assert(readers[one].target < readers[other].target);
        } else {
            assert(readers[other].target < readers[one].target);
        }
    }
    assert forall|slot: int| 0 <= slot < readers.len() implies #[trigger] pipeline.in_flight(slot)
        == Seq::<IngestedMessage>::empty() by {
        reveal(Seq::filter);
        assert(pipeline.in_flight(slot) =~= Seq::<IngestedMessage>::empty());
    }
}

/// From the connections to the consumer. In a pipeline of the readers that
/// start, under any operations in any interleaving, what the consumer gets
/// of one connection is the first part of that connection's text payloads,
/// in the order in which they came, numbered from zero, up to the frame
/// that ends the stream. If the consumer is never told to stop, the rest
/// is still on its way.
pub proof fn consumer_gets_the_texts_of_each_connection_in_order(
    targets: usize,
    outcomes: Seq<OpenOutcome>,
    capacity: usize,
    ops: Seq<PipelineOp>,
    slot: int,
)
    requires
        0 < capacity,
        0 <= slot < started(targets as nat, outcomes).len(),
        ops.len() <= u64::MAX,
    ensures
        ({
            let pipeline = PipelineView::assembled(started(targets as nat, outcomes), capacity);
            let target = pipeline.slots[slot].reader.target;
            let texts = texts_until_end(pipeline.frames_taken(ops, slot));
            let got = from_source(pipeline.emitted(ops), target);
            &&& got.is_prefix_of(numbered(target, 0, texts))
            &&& (forall|i: int| 0 <= i < ops.len() ==> !(ops[i] is CancelConsumer)) ==> got
                + pipeline.run(ops).in_flight(slot) == numbered(target, 0, texts)
        }),
{
    let readers = started(targets as nat, outcomes);
    let pipeline = PipelineView::assembled(readers, capacity);
    let reader = pipeline.slots[slot].reader;
    started_pipeline_is_sound(targets, outcomes, capacity);
    started_readers_differ(targets, outcomes);
    assert(reader == ReaderView::fresh(readers[slot].target));
    a_reader_ingests_the_frames_it_takes(pipeline, ops, slot);
    reader_forwards_the_texts_in_order(reader, pipeline.frames_taken(ops, slot));
    consumer_sees_each_connection_in_order(pipeline, ops, slot);
    assert(pipeline.in_flight(slot) + pipeline.ingested(ops, slot) =~= pipeline.ingested(
        ops,
        slot,
    ));
    if forall|i: int| 0 <= i < ops.len() ==> !(ops[i] is CancelConsumer) {
        nothing_is_lost_while_the_consumer_stays(pipeline, ops, slot);
    }
}

} // verus!
