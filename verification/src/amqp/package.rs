use crate::amqp::destination::Destination;
use std::collections::HashMap;
use vstd::prelude::*;

verus! {

/// The answer to a message that was not handled: whether the broker should
/// queue it again, and why it was refused.
#[derive(Debug)]
pub struct NackPolicy<'a> {
    pub requeue: bool,
    pub reason: Option<&'a str>,
}

impl<'a> NackPolicy<'a> {
    /// Refuses a message and asks the broker to queue it again.
    pub fn requeue(reason: Option<&'a str>) -> (p: Self)
        ensures
            p.requeue,
            p.reason == reason,
    {
        Self { requeue: true, reason }
    }

    /// Refuses a message for good.
    pub fn dont_requeue(reason: Option<&'a str>) -> (p: Self)
        ensures
            !p.requeue,
            p.reason == reason,
    {
        Self { requeue: false, reason }
    }
}

/// What acknowledging a message gives: nothing, or the transport's complaint.
pub type AckResult = Result<(), &'static str>;

/// A delivered message, as the transport hands it to a handler.
pub trait InboundPackage {
    fn id() -> String;

    fn headers() -> HashMap<String, String>;

    fn content() -> String;

    fn ack() -> AckResult;

    fn nack(nack: NackPolicy) -> AckResult;

    fn reject(nack: NackPolicy) -> AckResult;
}

/// Delivery options of one publish.
#[derive(Debug)]
pub struct PublishFlags {
    pub persist: bool,
    pub mandatory: bool,
    pub immediate: bool,
}

impl PublishFlags {
    /// No option is set.
    pub open spec fn is_clear(self) -> bool {
        !self.persist && !self.mandatory && !self.immediate
    }
}

impl Default for PublishFlags {
    fn default() -> (f: Self)
        ensures
            f.is_clear(),
    {
        Self { persist: false, mandatory: false, immediate: false }
    }
}

/// A message to publish: the payload, where it goes, and how.
#[derive(Debug)]
pub struct OutboundPackage<'a> {
    pub destination: Destination<'a>,
    pub publish_flags: PublishFlags,
    pub headers: HashMap<String, String>,
    pub content: String,
}

impl<'a> OutboundPackage<'a> {
    /// Wraps `content` for `destination`, with no headers and no publish flag set.
    pub fn new(content: String, destination: Destination<'a>) -> (p: Self)
        ensures
            p.content == content,
            p.destination == destination,
            p.publish_flags.is_clear(),
            p.headers@ == Map::<String, String>::empty(),
    {
        Self {
            destination,
            content,
            headers: HashMap::new(),
            publish_flags: PublishFlags::default(),
        }
    }
}

} // verus!
