use graffiti::channel::{Dequeue, Enqueue, FanInChannel};
use graffiti::consumer::{ConsumerAction, ConsumerTask};
use graffiti::message::IngestedMessage;

fn message(source: usize, payload: &str, arrival: u64) -> IngestedMessage {
    IngestedMessage { source, payload: payload.to_string(), arrival }
}

#[test]
fn there_is_no_channel_of_capacity_zero() {
    assert!(FanInChannel::new(0, 1).is_none());
    assert!(FanInChannel::new(1, 0).is_some());
}

#[test]
fn new_channel_is_empty_and_open() {
    let channel = FanInChannel::new(256, 3).unwrap();
    assert_eq!(channel.len(), 0);
    assert_eq!(channel.capacity(), 256);
    assert_eq!(channel.producers(), 3);
    assert!(channel.is_empty());
    assert!(!channel.is_full());
    assert!(channel.is_open());
}

#[test]
fn channel_is_first_in_first_out() {
    let mut channel = FanInChannel::new(8, 2).unwrap();
    assert_eq!(channel.try_enqueue(message(0, "a", 0)), Enqueue::Accepted);
    assert_eq!(channel.try_enqueue(message(1, "b", 0)), Enqueue::Accepted);
    assert_eq!(channel.try_enqueue(message(0, "c", 1)), Enqueue::Accepted);
    assert_eq!(channel.len(), 3);
    assert_eq!(channel.try_dequeue(), Dequeue::Item(message(0, "a", 0)));
    assert_eq!(channel.try_dequeue(), Dequeue::Item(message(1, "b", 0)));
    assert_eq!(channel.try_dequeue(), Dequeue::Item(message(0, "c", 1)));
    assert_eq!(channel.try_dequeue(), Dequeue::Empty);
}

#[test]
fn full_channel_hands_the_message_back_and_loses_nothing() {
    let capacity = 4;
    let mut channel = FanInChannel::new(capacity, 1).unwrap();
    for i in 0..capacity {
        assert_eq!(channel.try_enqueue(message(0, "m", i as u64)), Enqueue::Accepted);
    }
    assert!(channel.is_full());
    let extra = message(0, "extra", capacity as u64);
    assert_eq!(channel.try_enqueue(extra.clone()), Enqueue::Full(extra.clone()));
    assert_eq!(channel.try_enqueue(extra.clone()), Enqueue::Full(extra.clone()));
    assert_eq!(channel.len(), capacity);

    assert_eq!(channel.try_dequeue(), Dequeue::Item(message(0, "m", 0)));
    assert_eq!(channel.try_enqueue(extra.clone()), Enqueue::Accepted);
    assert!(channel.is_full());
    for i in 1..capacity {
        assert_eq!(channel.try_dequeue(), Dequeue::Item(message(0, "m", i as u64)));
    }
    assert_eq!(channel.try_dequeue(), Dequeue::Item(extra));
    assert_eq!(channel.try_dequeue(), Dequeue::Empty);
}

#[test]
fn channel_of_capacity_one_passes_messages_one_by_one() {
    let mut channel = FanInChannel::new(1, 1).unwrap();
    assert_eq!(channel.try_enqueue(message(0, "a", 0)), Enqueue::Accepted);
    assert_eq!(channel.try_enqueue(message(0, "b", 1)), Enqueue::Full(message(0, "b", 1)));
    assert_eq!(channel.try_dequeue(), Dequeue::Item(message(0, "a", 0)));
    assert_eq!(channel.try_enqueue(message(0, "b", 1)), Enqueue::Accepted);
    assert_eq!(channel.try_dequeue(), Dequeue::Item(message(0, "b", 1)));
}

#[test]
fn closed_consumer_refuses_offers_and_drains_what_is_queued() {
    let mut channel = FanInChannel::new(4, 1).unwrap();
    assert_eq!(channel.try_enqueue(message(0, "a", 0)), Enqueue::Accepted);
    channel.close_consumer();
    assert!(!channel.is_open());
    assert_eq!(channel.try_enqueue(message(0, "b", 1)), Enqueue::Closed(message(0, "b", 1)));
    assert_eq!(channel.len(), 1);
    assert_eq!(channel.try_dequeue(), Dequeue::Item(message(0, "a", 0)));
    assert_eq!(channel.try_dequeue(), Dequeue::EndOfChannel);
}

#[test]
fn channel_ends_when_the_last_producer_has_left_and_nothing_is_queued() {
    let mut channel = FanInChannel::new(4, 2).unwrap();
    assert_eq!(channel.try_enqueue(message(1, "a", 0)), Enqueue::Accepted);
    channel.release_producer();
    assert_eq!(channel.producers(), 1);
    channel.release_producer();
    assert_eq!(channel.producers(), 0);
    channel.release_producer();
    assert_eq!(channel.producers(), 0);
    assert_eq!(channel.try_dequeue(), Dequeue::Item(message(1, "a", 0)));
    assert_eq!(channel.try_dequeue(), Dequeue::EndOfChannel);
    assert_eq!(channel.try_dequeue(), Dequeue::EndOfChannel);
}

#[test]
fn shut_down_hands_out_what_was_queued() {
    let mut channel = FanInChannel::new(4, 2).unwrap();
    channel.try_enqueue(message(0, "a", 0));
    channel.try_enqueue(message(1, "b", 0));
    let left = channel.shut_down();
    assert_eq!(left, vec![message(0, "a", 0), message(1, "b", 0)]);
    assert!(channel.is_empty());
    assert!(!channel.is_open());
    assert_eq!(channel.producers(), 0);
    assert_eq!(channel.capacity(), 4);
    assert_eq!(channel.try_dequeue(), Dequeue::EndOfChannel);
}

#[test]
fn consumer_emits_waits_and_exits() {
    let mut channel = FanInChannel::new(2, 1).unwrap();
    let mut consumer = ConsumerTask::new();
    assert!(!consumer.is_finished());
    assert_eq!(consumer.poll(&mut channel), ConsumerAction::Wait);
    channel.try_enqueue(message(0, "a", 0));
    assert_eq!(consumer.poll(&mut channel), ConsumerAction::Emit(message(0, "a", 0)));
    assert_eq!(consumer.poll(&mut channel), ConsumerAction::Wait);
    channel.release_producer();
    assert_eq!(consumer.poll(&mut channel), ConsumerAction::Exit);
    assert!(consumer.is_finished());
}

#[test]
fn finished_consumer_takes_nothing_more() {
    let mut channel = FanInChannel::new(2, 1).unwrap();
    let mut consumer = ConsumerTask::new();
    consumer.finish();
    channel.try_enqueue(message(0, "a", 0));
    assert_eq!(consumer.poll(&mut channel), ConsumerAction::Exit);
    assert_eq!(channel.len(), 1);
}
