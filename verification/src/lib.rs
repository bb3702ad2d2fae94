//! Topology declaration and message envelopes for an AMQP-style broker client.
//!
//! The crate describes exchanges, queues, bindings and message envelopes as
//! plain values, and drives a desired binding graph onto a pluggable broker
//! backend one call at a time, stopping at the first failure.

pub mod amqp;
pub mod routing;
pub mod transport;
