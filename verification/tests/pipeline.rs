use graffiti::channel::FanInChannel;
use graffiti::consumer::ConsumerAction;
use graffiti::frame::{Incoming, OtherKind};
use graffiti::message::IngestedMessage;
use graffiti::connection::{ConnectionState, OpenOutcome};
use graffiti::pipeline::{connect_to_server, Pipeline, ReadOutcome, StartupError};
use graffiti::reader::ReaderTask;
use graffiti::target::ServerTarget;

fn targets(count: usize) -> Vec<ServerTarget> {
    (0..count)
        .map(|i| ServerTarget::parse(&format!("wss://relay{}.example.com", i)).unwrap())
        .collect()
}

fn text(payload: &str) -> Incoming {
    Incoming::Text(payload.to_string())
}

fn message(source: usize, payload: &str, arrival: u64) -> IngestedMessage {
    IngestedMessage { source, payload: payload.to_string(), arrival }
}

fn pipeline_of(outcomes: &[OpenOutcome], capacity: usize) -> Pipeline {
    let readers = connect_to_server(&targets(outcomes.len()), &outcomes.to_vec()).unwrap();
    Pipeline::new(readers, capacity).unwrap()
}

fn state_of(pipeline: &Pipeline, slot: usize) -> ConnectionState {
    pipeline.reader(slot).unwrap().state()
}

#[test]
fn no_targets_is_an_error() {
    let result = connect_to_server(&Vec::new(), &Vec::new());
    assert_eq!(result.unwrap_err(), StartupError::NoTargets);
    let result = connect_to_server(&Vec::new(), &vec![OpenOutcome::Opened]);
    assert_eq!(result.unwrap_err(), StartupError::NoTargets);
}

#[test]
fn nothing_opened_is_an_error() {
    let result = connect_to_server(&targets(2), &vec![OpenOutcome::Refused, OpenOutcome::Refused]);
    assert_eq!(result.unwrap_err(), StartupError::NothingOpened);
    let result = connect_to_server(&targets(2), &Vec::new());
    assert_eq!(result.unwrap_err(), StartupError::NothingOpened);
}

#[test]
fn zero_capacity_is_an_error() {
    let readers = vec![ReaderTask::new(0)];
    assert_eq!(Pipeline::new(readers, 0).unwrap_err(), StartupError::ZeroCapacity);
}

#[test]
fn every_opened_target_gets_a_reader_in_order() {
    let outcomes = vec![
        OpenOutcome::Refused,
        OpenOutcome::Opened,
        OpenOutcome::Opened,
        OpenOutcome::Refused,
        OpenOutcome::Opened,
    ];
    let readers = connect_to_server(&targets(5), &outcomes).unwrap();
    let started: Vec<usize> = readers.iter().map(|r| r.target()).collect();
    assert_eq!(started, vec![1, 2, 4]);
    assert!(readers.iter().all(|r| r.state() == ConnectionState::Open && r.accepted() == 0));
}

#[test]
fn target_without_an_outcome_was_not_opened() {
    let readers = connect_to_server(&targets(3), &vec![OpenOutcome::Opened]).unwrap();
    let started: Vec<usize> = readers.iter().map(|r| r.target()).collect();
    assert_eq!(started, vec![0]);
}

#[test]
fn refused_target_does_not_keep_the_others_from_delivering() {
    let mut pipeline =
        pipeline_of(&[OpenOutcome::Opened, OpenOutcome::Refused, OpenOutcome::Opened], 256);
    assert_eq!(pipeline.reader_count(), 2);
    assert_eq!(pipeline.channel().producers(), 2);
    assert_eq!(pipeline.on_incoming(0, text("from first")), ReadOutcome::Continue);
    assert_eq!(pipeline.on_incoming(1, text("from third")), ReadOutcome::Continue);
    assert_eq!(pipeline.poll(), ConsumerAction::Emit(message(0, "from first", 0)));
    assert_eq!(pipeline.poll(), ConsumerAction::Emit(message(2, "from third", 0)));
    assert_eq!(pipeline.poll(), ConsumerAction::Wait);
}

#[test]
fn failure_in_the_stream_of_one_reader_leaves_the_others_reading() {
    let mut pipeline = pipeline_of(&[OpenOutcome::Opened; 3], 16);
    assert_eq!(pipeline.on_incoming(1, Incoming::TransportError), ReadOutcome::Stop);
    assert_eq!(state_of(&pipeline, 0), ConnectionState::Open);
    assert_eq!(state_of(&pipeline, 1), ConnectionState::Failed);
    assert_eq!(state_of(&pipeline, 2), ConnectionState::Open);
    assert_eq!(pipeline.channel().producers(), 2);
    assert_eq!(pipeline.on_incoming(0, text("a")), ReadOutcome::Continue);
    assert_eq!(pipeline.on_incoming(1, text("lost cause")), ReadOutcome::Stop);
    assert_eq!(pipeline.on_incoming(2, text("b")), ReadOutcome::Continue);
    assert_eq!(pipeline.poll(), ConsumerAction::Emit(message(0, "a", 0)));
    assert_eq!(pipeline.poll(), ConsumerAction::Emit(message(2, "b", 0)));
    assert!(pipeline.is_running());
}

#[test]
fn messages_of_one_connection_arrive_in_their_order() {
    let mut pipeline = pipeline_of(&[OpenOutcome::Opened, OpenOutcome::Opened], 64);
    let script = [(0, "a0"), (1, "b0"), (1, "b1"), (0, "a1"), (0, "a2"), (1, "b2"), (0, "a3")];
    for (slot, payload) in script {
        assert_eq!(pipeline.on_incoming(slot, text(payload)), ReadOutcome::Continue);
    }
    let mut of_first = Vec::new();
    let mut of_second = Vec::new();
    loop {
        match pipeline.poll() {
            ConsumerAction::Emit(message) => {
                if message.source == 0 {
                    of_first.push((message.payload, message.arrival));
                } else {
                    of_second.push((message.payload, message.arrival));
                }
            }
            _ => break,
        }
    }
    let expect = |names: &[&str]| -> Vec<(String, u64)> {
        names.iter().enumerate().map(|(i, n)| (n.to_string(), i as u64)).collect()
    };
    assert_eq!(of_first, expect(&["a0", "a1", "a2", "a3"]));
    assert_eq!(of_second, expect(&["b0", "b1", "b2"]));
}

#[test]
fn full_channel_suspends_the_reader_and_no_message_is_lost() {
    let capacity = 3;
    let mut pipeline = pipeline_of(&[OpenOutcome::Opened], capacity);
    for i in 0..capacity {
        assert_eq!(pipeline.on_incoming(0, text(&format!("m{}", i))), ReadOutcome::Continue);
    }
    assert!(!pipeline.is_suspended(0));
    assert_eq!(pipeline.on_incoming(0, text("m3")), ReadOutcome::Suspend);
    assert!(pipeline.is_suspended(0));
    assert_eq!(pipeline.channel().len(), capacity);

    assert_eq!(pipeline.on_incoming(0, text("m4")), ReadOutcome::NotTaken(text("m4")));
    assert_eq!(pipeline.on_incoming(0, Incoming::Ping), ReadOutcome::NotTaken(Incoming::Ping));
    assert_eq!(pipeline.resume(0), ReadOutcome::Suspend);
    assert_eq!(pipeline.channel().len(), capacity);

    assert_eq!(pipeline.poll(), ConsumerAction::Emit(message(0, "m0", 0)));
    assert_eq!(pipeline.resume(0), ReadOutcome::Continue);
    assert!(!pipeline.is_suspended(0));
    assert_eq!(pipeline.resume(0), ReadOutcome::Continue);
    assert_eq!(pipeline.channel().len(), capacity);

    for i in 1..=capacity {
        let expected = message(0, &format!("m{}", i), i as u64);
        assert_eq!(pipeline.poll(), ConsumerAction::Emit(expected));
    }
    assert_eq!(pipeline.poll(), ConsumerAction::Wait);
    assert_eq!(pipeline.on_incoming(0, text("m4")), ReadOutcome::Continue);
    assert_eq!(pipeline.poll(), ConsumerAction::Emit(message(0, "m4", 4)));
}

#[test]
fn liveness_frames_deliver_nothing() {
    let mut pipeline = pipeline_of(&[OpenOutcome::Opened], 4);
    for _ in 0..10 {
        assert_eq!(pipeline.on_incoming(0, Incoming::Ping), ReadOutcome::Continue);
        assert_eq!(pipeline.on_incoming(0, Incoming::Pong), ReadOutcome::Continue);
    }
    assert!(pipeline.channel().is_empty());
    assert_eq!(pipeline.poll(), ConsumerAction::Wait);
    assert_eq!(pipeline.reader(0).unwrap().accepted(), 0);
}

#[test]
fn unrecognised_frame_is_tolerated() {
    let mut pipeline = pipeline_of(&[OpenOutcome::Opened], 4);
    assert_eq!(
        pipeline.on_incoming(0, Incoming::Binary),
        ReadOutcome::Diagnosed(OtherKind::Binary)
    );
    assert_eq!(pipeline.on_incoming(0, text("still here")), ReadOutcome::Continue);
    assert_eq!(pipeline.poll(), ConsumerAction::Emit(message(0, "still here", 0)));
    assert_eq!(pipeline.on_incoming(0, Incoming::Close), ReadOutcome::Diagnosed(OtherKind::Close));
    assert_eq!(pipeline.on_incoming(0, Incoming::Raw), ReadOutcome::Diagnosed(OtherKind::Raw));
    assert_eq!(state_of(&pipeline, 0), ConnectionState::Open);
}

#[test]
fn channel_ends_for_the_consumer_once_every_reader_has_stopped() {
    let mut pipeline = pipeline_of(&[OpenOutcome::Opened, OpenOutcome::Opened], 4);
    assert_eq!(pipeline.on_incoming(0, text("last words")), ReadOutcome::Continue);
    assert_eq!(pipeline.on_incoming(0, Incoming::EndOfStream), ReadOutcome::Stop);
    assert_eq!(state_of(&pipeline, 0), ConnectionState::Closed);
    assert!(pipeline.is_running());
    assert_eq!(pipeline.on_incoming(1, Incoming::TransportError), ReadOutcome::Stop);
    assert!(!pipeline.is_running());
    assert_eq!(pipeline.channel().producers(), 0);
    assert_eq!(pipeline.poll(), ConsumerAction::Emit(message(0, "last words", 0)));
    assert!(!pipeline.consumer_finished());
    assert_eq!(pipeline.poll(), ConsumerAction::Exit);
    assert!(pipeline.consumer_finished());
    assert_eq!(pipeline.poll(), ConsumerAction::Exit);
}

#[test]
fn cancelled_consumer_stops_each_reader_at_its_next_offer() {
    let mut pipeline = pipeline_of(&[OpenOutcome::Opened, OpenOutcome::Opened], 4);
    assert_eq!(pipeline.on_incoming(0, text("queued")), ReadOutcome::Continue);
    pipeline.cancel_consumer();
    assert_eq!(pipeline.on_incoming(1, Incoming::Pong), ReadOutcome::Continue);
    assert_eq!(pipeline.on_incoming(1, text("too late")), ReadOutcome::Stop);
    assert_eq!(state_of(&pipeline, 1), ConnectionState::Closed);
    assert_eq!(state_of(&pipeline, 0), ConnectionState::Open);
    assert_eq!(pipeline.poll(), ConsumerAction::Emit(message(0, "queued", 0)));
    assert_eq!(pipeline.poll(), ConsumerAction::Exit);
}

#[test]
fn cancelled_consumer_stops_a_suspended_reader_when_it_resumes() {
    let mut pipeline = pipeline_of(&[OpenOutcome::Opened], 1);
    assert_eq!(pipeline.on_incoming(0, text("a")), ReadOutcome::Continue);
    assert_eq!(pipeline.on_incoming(0, text("b")), ReadOutcome::Suspend);
    pipeline.cancel_consumer();
    assert_eq!(pipeline.resume(0), ReadOutcome::Stop);
    assert!(!pipeline.is_suspended(0));
    assert_eq!(state_of(&pipeline, 0), ConnectionState::Closed);
    assert_eq!(pipeline.channel().producers(), 0);
}

#[test]
fn shutdown_stops_every_reader_and_hands_out_what_is_left() {
    let mut pipeline = pipeline_of(&[OpenOutcome::Opened; 3], 2);
    assert_eq!(pipeline.on_incoming(2, text("c0")), ReadOutcome::Continue);
    assert_eq!(pipeline.on_incoming(0, text("a0")), ReadOutcome::Continue);
    assert_eq!(pipeline.on_incoming(2, text("c1")), ReadOutcome::Suspend);
    assert_eq!(pipeline.on_incoming(0, text("a1")), ReadOutcome::Suspend);
    assert_eq!(pipeline.on_incoming(1, Incoming::TransportError), ReadOutcome::Stop);

    let left = pipeline.shutdown();
    assert_eq!(
        left,
        vec![message(2, "c0", 0), message(0, "a0", 0), message(0, "a1", 1), message(2, "c1", 1)]
    );
    assert!(!pipeline.is_running());
    assert_eq!(state_of(&pipeline, 0), ConnectionState::Closed);
    assert_eq!(state_of(&pipeline, 1), ConnectionState::Failed);
    assert_eq!(state_of(&pipeline, 2), ConnectionState::Closed);
    assert!(pipeline.consumer_finished());
    assert!(pipeline.channel().is_empty());
    assert_eq!(pipeline.channel().producers(), 0);
    assert!(!pipeline.is_suspended(0));

    assert_eq!(pipeline.on_incoming(0, text("after")), ReadOutcome::Stop);
    assert_eq!(pipeline.resume(2), ReadOutcome::Stop);
    assert_eq!(pipeline.poll(), ConsumerAction::Exit);
    assert!(pipeline.shutdown().is_empty());
}

#[test]
fn slot_that_names_no_reader_gets_stop() {
    let mut pipeline = pipeline_of(&[OpenOutcome::Opened], 2);
    assert_eq!(pipeline.on_incoming(1, text("nobody")), ReadOutcome::Stop);
    assert_eq!(pipeline.resume(7), ReadOutcome::Stop);
    assert!(pipeline.reader(1).is_none());
    assert!(!pipeline.is_suspended(1));
    assert!(pipeline.channel().is_empty());
}

#[test]
fn producers_of_a_new_pipeline_are_its_open_readers() {
    let mut stopped = ReaderTask::new(5);
    stopped.cancel();
    let pipeline = Pipeline::new(vec![ReaderTask::new(3), stopped, ReaderTask::new(9)], 8).unwrap();
    assert_eq!(pipeline.reader_count(), 3);
    assert_eq!(pipeline.channel().producers(), 2);
    assert_eq!(pipeline.channel().capacity(), 8);
    assert_eq!(pipeline.reader(2).unwrap().target(), 9);
    assert_eq!(state_of(&pipeline, 1), ConnectionState::Closed);
    let alone: FanInChannel = FanInChannel::new(8, 2).unwrap();
    assert_eq!(alone.producers(), pipeline.channel().producers());
}
