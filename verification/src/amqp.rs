//! Value types that describe broker objects and message envelopes.

pub mod destination;
pub mod exchange;
pub mod package;
pub mod queue;
