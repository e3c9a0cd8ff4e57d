//! Frames: what a connection yields, and how the pipeline sees it.

use vstd::prelude::*;

verus! {

/// What one call of a connection's receive operation gave back, as the
/// transport reports it.
#[derive(Debug, Clone, PartialEq, Eq)]
pub enum Incoming {
    /// A text frame with its payload.
    Text(String),
    /// A binary frame.
    Binary,
    /// A liveness probe from the peer.
    Ping,
    /// The answer to a liveness probe.
    Pong,
    /// The peer's close frame.
    Close,
    /// A raw or continuation frame.
    Raw,
    /// The stream has ended.
    EndOfStream,
    /// The transport failed.
    TransportError,
}

/// The kinds of frame that carry nothing the pipeline ingests, and are not
/// liveness traffic either.
#[derive(Debug, Clone, Copy, PartialEq, Eq)]
pub enum OtherKind {
    Binary,
    Close,
    Raw,
}

/// A received item as the reader task handles it: a closed set of cases.
#[derive(Debug, Clone, PartialEq, Eq)]
pub enum Frame {
    /// A text payload, to be ingested.
    Text(String),
    /// Ping or pong: consumed silently.
    Liveness,
    /// Any other frame kind: worth a diagnostic, never fatal.
    Other(OtherKind),
    /// The stream has ended.
    EndOfStream,
    /// The transport failed.
    Error,
}

/// The classification rule.
pub open spec fn classified(incoming: Incoming) -> Frame {
    match incoming {
        Incoming::Text(payload) => Frame::Text(payload),
        Incoming::Ping | Incoming::Pong => Frame::Liveness,
        Incoming::Binary => Frame::Other(OtherKind::Binary),
        Incoming::Close => Frame::Other(OtherKind::Close),
        Incoming::Raw => Frame::Other(OtherKind::Raw),
        Incoming::EndOfStream => Frame::EndOfStream,
        Incoming::TransportError => Frame::Error,
    }
}

impl Frame {
    /// Whether the reader task goes on reading after this frame.
    pub open spec fn ends_stream(self) -> bool {
        self is EndOfStream || self is Error
    }

    /// Whether the frame is consumed without any effect on the pipeline's
    /// state: liveness traffic and unrecognised kinds.
    pub open spec fn is_passed_over(self) -> bool {
        self is Liveness || self is Other
    }
}

/// Classifies what a connection yielded. A text payload is kept as it is.
pub fn classify(incoming: Incoming) -> (frame: Frame)
    ensures
        frame == classified(incoming),
{
    match incoming {
        Incoming::Text(payload) => Frame::Text(payload),
        Incoming::Ping => Frame::Liveness,
        Incoming::Pong => Frame::Liveness,
        Incoming::Binary => Frame::Other(OtherKind::Binary),
        Incoming::Close => Frame::Other(OtherKind::Close),
        Incoming::Raw => Frame::Other(OtherKind::Raw),
        Incoming::EndOfStream => Frame::EndOfStream,
        Incoming::TransportError => Frame::Error,
    }
}

} // verus!
