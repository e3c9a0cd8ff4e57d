//! A connection: the wire session to one server, as far as the pipeline
//! keeps track of it. The transport handle itself stays with the caller.

use vstd::prelude::*;

verus! {

/// Where a connection stands. `Closed` and `Failed` are final.
#[derive(Debug, Clone, Copy, PartialEq, Eq)]
pub enum ConnectionState {
    Connecting,
    Open,
    Closed,
    Failed,
}

impl ConnectionState {
    /// Whether the state is final.
    pub open spec fn is_terminal(self) -> bool {
        self is Closed || self is Failed
    }
}

/// How the attempt to open the connection to one target ended.
#[derive(Debug, Clone, Copy, PartialEq, Eq)]
pub enum OpenOutcome {
    /// The connection is open and the subscription request was sent.
    Opened,
    /// The connection could not be opened, or the request could not be sent.
    Refused,
}

/// What a connection is, for contracts.
pub struct ConnectionView {
    /// Position of the server in the configured target list.
    pub target: usize,
    pub state: ConnectionState,
}

impl ConnectionView {
    /// A connection that is being opened.
    pub open spec fn connecting(target: usize) -> ConnectionView {
        ConnectionView { target, state: ConnectionState::Connecting }
    }

    /// The connection once the attempt to open it has ended. Only a
    /// connection that is being opened can become open or fail to.
    pub open spec fn record(self, outcome: OpenOutcome) -> ConnectionView {
        if self.state is Connecting {
            match outcome {
                OpenOutcome::Opened => ConnectionView { state: ConnectionState::Open, ..self },
                OpenOutcome::Refused => ConnectionView { state: ConnectionState::Failed, ..self },
            }
        } else {
            self
        }
    }
}

/// The connection to one target during the opening phase. Once open it is
/// handed to its reader task, which owns it from then on.
#[derive(Debug)]
pub struct Connection {
    target: usize,
    state: ConnectionState,
}

impl View for Connection {
    type V = ConnectionView;

    closed spec fn view(&self) -> ConnectionView {
        ConnectionView { target: self.target, state: self.state }
    }
}

impl Connection {
    /// The connection to the server at position `target`, not yet open.
    pub fn connecting(target: usize) -> (connection: Connection)
        ensures
            connection@ == ConnectionView::connecting(target),
    {
        Connection { target, state: ConnectionState::Connecting }
    }

    pub fn target(&self) -> (target: usize)
        ensures
            target == self@.target,
    {
        self.target
    }

    pub fn state(&self) -> (state: ConnectionState)
        ensures
            state == self@.state,
    {
        self.state
    }

    /// Records how the attempt to open the connection ended.
    pub fn record(&mut self, outcome: OpenOutcome)
        ensures
            final(self)@ == old(self)@.record(outcome),
    {
        match self.state {
            ConnectionState::Connecting => {
                match outcome {
                    OpenOutcome::Opened => {
                        self.state = ConnectionState::Open;
                    },
                    OpenOutcome::Refused => {
                        self.state = ConnectionState::Failed;
                    },
                }
            },
            _ => {},
        }
    }
}

} // verus!
