//! Capabilities through which envelopes are sent and received.

pub mod consumer;
pub mod producer;
