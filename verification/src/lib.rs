//! Decision core of a multi-connection event ingestion pipeline.
//!
//! Every connection to an event-streaming server is read by a task of its
//! own; the text frames it receives are tagged with their origin and fanned
//! into one bounded queue that a single consumer drains. This crate holds
//! the rules of that pipeline as verified state machines. The caller does
//! the waiting: it performs an action, and hands back what happened.

pub mod channel;
pub mod cli;
pub mod connection;
pub mod consumer;
pub mod delivery;
pub mod frame;
pub mod history;
pub mod laws;
pub mod message;
pub mod pipeline;
pub mod reader;
pub mod subscription;
pub mod target;
