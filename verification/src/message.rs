//! The unit that flows through the fan-in channel.

use vstd::prelude::*;

verus! {

/// A text payload tagged with where it came from.
///
/// `source` is the position of the originating server in the configured
/// target list: the list may name one address twice, so the position, not
/// the address, identifies a connection. `arrival` counts the messages of
/// that connection from zero, in the order in which they were received.
#[derive(Debug, Clone, PartialEq, Eq)]
pub struct IngestedMessage {
    pub source: usize,
    pub payload: String,
    pub arrival: u64,
}

} // verus!
