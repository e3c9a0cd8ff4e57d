//! The reader task: one per connection.
//!
//! A reader task pulls frames from its connection, one at a time, and says
//! for each what is to be done with it. It owns its connection: nothing it
//! does reads or changes another reader task.

use vstd::prelude::*;
use crate::connection::{Connection, ConnectionState};
use crate::frame::{Frame, OtherKind};
use crate::message::IngestedMessage;

verus! {

/// What the caller does next for a reader task.
#[derive(Debug, Clone, PartialEq, Eq)]
pub enum ReaderAction {
    /// Enqueue this message into the fan-in channel, then receive again.
    Forward(IngestedMessage),
    /// Nothing to do: receive again.
    Ignore,
    /// Emit a diagnostic about an unrecognised frame, then receive again.
    Diagnose(OtherKind),
    /// Leave the loop and release the connection.
    Stop,
}

/// What a reader task is, for contracts.
pub struct ReaderView {
    /// Position of the server in the configured target list.
    pub target: usize,
    pub state: ConnectionState,
    /// Number of text frames taken from the connection so far.
    pub accepted: u64,
}

/// A reader's state after an event, and what it asked for.
pub struct ReaderStep {
    pub next: ReaderView,
    pub action: ReaderAction,
}

impl ReaderView {
    /// A reader bound to a connection that has just been opened.
    pub open spec fn fresh(target: usize) -> ReaderView {
        ReaderView { target, state: ConnectionState::Open, accepted: 0 }
    }

    /// The reader leaves its loop in the given final state.
    pub open spec fn stopped(self, state: ConnectionState) -> ReaderStep {
        ReaderStep { next: ReaderView { state, ..self }, action: ReaderAction::Stop }
    }

    /// The reader stays as it is and asks for `action`.
    pub open spec fn kept(self, action: ReaderAction) -> ReaderStep {
        ReaderStep { next: self, action }
    }

    /// The rule of the read loop. A reader that is not open takes no frame.
    /// An open one forwards a text payload under the next arrival number;
    /// passes over liveness traffic; asks for a diagnostic on any other
    /// kind; closes at the end of the stream; fails on a transport error.
    /// Arrival numbers are 64 bits wide: a connection that has used them
    /// all fails on its next text frame.
    pub open spec fn on_frame(self, frame: Frame) -> ReaderStep {
        if !(self.state is Open) {
            self.kept(ReaderAction::Stop)
        } else {
            match frame {
                Frame::Text(payload) => if self.accepted < u64::MAX {
                    ReaderStep {
                        next: ReaderView { accepted: (self.accepted + 1) as u64, ..self },
                        action: ReaderAction::Forward(
                            IngestedMessage { source: self.target, payload, arrival: self.accepted },
                        ),
                    }
                } else {
                    self.stopped(ConnectionState::Failed)
                },
                Frame::Liveness => self.kept(ReaderAction::Ignore),
                Frame::Other(kind) => self.kept(ReaderAction::Diagnose(kind)),
                Frame::EndOfStream => self.stopped(ConnectionState::Closed),
                Frame::Error => self.stopped(ConnectionState::Failed),
            }
        }
    }

    /// The channel's consumer is gone, or shutdown was asked for: either
    /// way an open reader closes. A final state stays as it is.
    pub open spec fn on_stop_signal(self) -> ReaderStep {
        if self.state.is_terminal() {
            self.kept(ReaderAction::Stop)
        } else {
            self.stopped(ConnectionState::Closed)
        }
    }

    /// The reader after a whole sequence of frames, in order.
    pub open spec fn after(self, frames: Seq<Frame>) -> ReaderView
        decreases frames.len(),
    {
        if frames.len() == 0 {
            self
        } else {
            self.after(frames.drop_last()).on_frame(frames.last()).next
        }
    }

    /// The messages that a sequence of frames makes the reader forward, in
    /// order.
    pub open spec fn forwarded(self, frames: Seq<Frame>) -> Seq<IngestedMessage>
        decreases frames.len(),
    {
        if frames.len() == 0 {
            Seq::empty()
        } else {
            let before = self.forwarded(frames.drop_last());
            match self.after(frames.drop_last()).on_frame(frames.last()).action {
                ReaderAction::Forward(message) => before.push(message),
                _ => before,
            }
        }
    }
}

/// The payloads of the text frames of a stream, in order, up to the first
/// frame that ends it.
pub open spec fn texts_until_end(frames: Seq<Frame>) -> Seq<String>
    decreases frames.len(),
{
    if frames.len() == 0 {
        Seq::empty()
    } else {
        match frames[0] {
            Frame::Text(payload) => seq![payload] + texts_until_end(frames.drop_first()),
            Frame::Liveness | Frame::Other(_) => texts_until_end(frames.drop_first()),
            Frame::EndOfStream | Frame::Error => Seq::empty(),
        }
    }
}

/// The payloads as messages of one connection, numbered from `start` on.
pub open spec fn numbered(source: usize, start: u64, payloads: Seq<String>) -> Seq<IngestedMessage> {
    Seq::new(
        payloads.len(),
        |i: int| IngestedMessage { source, payload: payloads[i], arrival: (start + i) as u64 },
    )
}

/// The per-connection read loop, as a state machine.
#[derive(Debug)]
pub struct ReaderTask {
    target: usize,
    state: ConnectionState,
    accepted: u64,
}

impl View for ReaderTask {
    type V = ReaderView;

    closed spec fn view(&self) -> ReaderView {
        ReaderView { target: self.target, state: self.state, accepted: self.accepted }
    }
}

impl ReaderTask {
    /// A reader task for the connection to the server at position `target`,
    /// which has just been opened.
    pub fn new(target: usize) -> (reader: ReaderTask)
        ensures
            reader@ == ReaderView::fresh(target),
    {
        ReaderTask { target, state: ConnectionState::Open, accepted: 0 }
    }

    /// The reader task that takes over a connection. There is one only for
    /// a connection that is open.
    pub fn bind(connection: Connection) -> (reader: Option<ReaderTask>)
        ensures
            reader is Some <==> connection@.state is Open,
            reader matches Some(r) ==> r@ == ReaderView::fresh(connection@.target),
    {
        match connection.state() {
            ConnectionState::Open => Some(ReaderTask::new(connection.target())),
            _ => None,
        }
    }

    pub fn target(&self) -> (target: usize)
        ensures
            target == self@.target,
    {
        self.target
    }

    pub fn state(&self) -> (state: ConnectionState)
        ensures
            state == self@.state,
    {
        self.state
    }

    /// Number of text frames taken so far.
    pub fn accepted(&self) -> (accepted: u64)
        ensures
            accepted == self@.accepted,
    {
        self.accepted
    }

    /// A reader task in the same state.
    pub(crate) fn duplicate(&self) -> (copy: ReaderTask)
        ensures
            copy@ == self@,
    {
        ReaderTask { target: self.target, state: self.state, accepted: self.accepted }
    }

    /// Whether the caller should call receive again.
    pub fn is_reading(&self) -> (reading: bool)
        ensures
            reading == (self@.state is Open),
    {
        match self.state {
            ConnectionState::Open => true,
            _ => false,
        }
    }

    /// Handles one received frame.
    pub fn on_frame(&mut self, frame: Frame) -> (action: ReaderAction)
        ensures
            final(self)@ == old(self)@.on_frame(frame).next,
            action == old(self)@.on_frame(frame).action,
    {
        if !self.is_reading() {
            return ReaderAction::Stop;
        }
        match frame {
            Frame::Text(payload) => {
                if self.accepted < u64::MAX {
                    let arrival: u64 = self.accepted;
                    self.accepted = arrival + 1;
                    ReaderAction::Forward(IngestedMessage { source: self.target, payload, arrival })
                } else {
                    self.state = ConnectionState::Failed;
                    ReaderAction::Stop
                }
            },
            Frame::Liveness => ReaderAction::Ignore,
            Frame::Other(kind) => ReaderAction::Diagnose(kind),
            Frame::EndOfStream => {
                self.state = ConnectionState::Closed;
                ReaderAction::Stop
            },
            Frame::Error => {
                self.state = ConnectionState::Failed;
                ReaderAction::Stop
            },
        }
    }

    /// The channel refused a message because its consumer is gone: for this
    /// reader that is the signal to stop, not a failure.
    pub fn on_channel_closed(&mut self) -> (action: ReaderAction)
        ensures
            final(self)@ == old(self)@.on_stop_signal().next,
            action == old(self)@.on_stop_signal().action,
    {
        self.stop()
    }

    /// Shutdown was asked for.
    pub fn cancel(&mut self) -> (action: ReaderAction)
        ensures
            final(self)@ == old(self)@.on_stop_signal().next,
            action == old(self)@.on_stop_signal().action,
    {
        self.stop()
    }

    fn stop(&mut self) -> (action: ReaderAction)
        ensures
            final(self)@ == old(self)@.on_stop_signal().next,
            action == old(self)@.on_stop_signal().action,
    {
        match self.state {
            ConnectionState::Closed | ConnectionState::Failed => {},
            _ => {
                self.state = ConnectionState::Closed;
            },
        }
        ReaderAction::Stop
    }
}

} // verus!
