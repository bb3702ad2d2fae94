use crate::amqp::package::{InboundPackage, NackPolicy};
use vstd::prelude::*;

verus! {

/// A handler's decision on one delivered message.
pub enum AckMode<'a> {
    Ack,
    Nack(NackPolicy<'a>),
    Retry,
}

/// The receiving side of a transport. It honours the handler's decision once
/// for each delivered message.
pub trait Consumer<'a, T> where T: InboundPackage {
    /// Fetches one message from `queue` without waiting, if there is one.
    fn get(queue: &'a str) -> Option<T>;

    /// Delivers the messages of `queue` to `consumer`, one at a time.
    fn consume<F>(queue: &'a str, consumer: F) where F: Fn(T) -> AckMode<'a>;
}

} // verus!
