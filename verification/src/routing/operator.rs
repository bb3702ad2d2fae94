use crate::amqp::exchange::{Exchange, ExchangeView};
use crate::amqp::queue::{Queue, QueueView};
use std::collections::HashMap;
use vstd::prelude::*;

verus! {

/// What a broker call gives: nothing, or the backend's complaint.
pub type OperatorResult = Result<(), &'static str>;

/// The routing key, wait flag and arguments of one bind call.
#[derive(Debug)]
pub struct BindArgs<'a> {
    pub routing_key: &'a str,
    pub no_wait: bool,
    pub arguments: HashMap<String, String>,
}

/// What a [`BindArgs`] denotes.
pub ghost struct BindArgsView {
    pub routing_key: Seq<char>,
    pub no_wait: bool,
    pub arguments: Map<String, String>,
}

impl<'a> View for BindArgs<'a> {
    type V = BindArgsView;

    open spec fn view(&self) -> BindArgsView {
        BindArgsView {
            routing_key: self.routing_key@,
            no_wait: self.no_wait,
            arguments: self.arguments@,
        }
    }
}

impl<'a> BindArgs<'a> {
    /// Bind under `routing_key`, waiting for the broker's reply, with no arguments.
    pub fn new(routing_key: &'a str) -> (a: Self)
        ensures
            a.routing_key == routing_key,
            !a.no_wait,
            a.arguments@ == Map::<String, String>::empty(),
    {
        Self { routing_key, no_wait: false, arguments: HashMap::new() }
    }
}

/// One call on an operator, with what was handed to it.
pub ghost enum Step {
    DeclareQueue { queue: QueueView },
    DeclareExchange { exchange: ExchangeView },
    BindQueue { queue: QueueView, exchange: ExchangeView, args: BindArgsView },
    BindExchange { source: ExchangeView, destination: ExchangeView, args: BindArgsView },
}

/// One call made on an operator together with what it gave back.
pub ghost struct Attempt {
    pub step: Step,
    pub outcome: OperatorResult,
}

/// The record of the calls made on an operator, oldest first.
pub type CallRecord = Seq<Attempt>;

/// The backend that performs declarations and bindings on a broker.
///
/// An operator keeps the record of the calls made on it: each call adds one
/// entry, which holds what was asked and what was answered, and leaves the
/// earlier entries alone. Whether a call succeeds is the backend's affair:
/// nothing is promised of what an operator returns, and callers are verified
/// for every answer.
///
/// The record is a matter of proof only and is never computed: an operator
/// written in ordinary Rust gives `calls` a body that is never run.
pub trait AmqpOperator {
    /// The calls made on this operator so far, oldest first, each with what
    /// the operator answered.
    spec fn calls(&self) -> CallRecord;

    /// Asserts that `queue` exists with the given properties.
    fn declare_queue(&mut self, queue: &Queue) -> (r: OperatorResult)
        ensures
            final(self).calls() == old(self).calls().push(
                Attempt { step: Step::DeclareQueue { queue: queue@ }, outcome: r },
            ),
    ;

    /// Asserts that `exchange` exists with the given properties.
    fn declare_exchange(&mut self, exchange: &Exchange) -> (r: OperatorResult)
        ensures
            final(self).calls() == old(self).calls().push(
                Attempt { step: Step::DeclareExchange { exchange: exchange@ }, outcome: r },
            ),
    ;

    /// Binds a declared queue to a declared exchange.
    fn bind_queue(&mut self, queue: &Queue, exchange: &Exchange, bind_args: BindArgs) -> (r:
        OperatorResult)
        ensures
            final(self).calls() == old(self).calls().push(
                Attempt {
                    step: Step::BindQueue { queue: queue@, exchange: exchange@, args: bind_args@ },
                    outcome: r,
                },
            ),
    ;

    /// Binds the declared exchange `source` to the declared exchange `destination`.
    fn bind_exchange(
        &mut self,
        source: &Exchange,
        destination: &Exchange,
        bind_args: BindArgs,
    ) -> (r: OperatorResult)
        ensures
            final(self).calls() == old(self).calls().push(
                Attempt {
                    step: Step::BindExchange {
                        source: source@,
                        destination: destination@,
                        args: bind_args@,
                    },
                    outcome: r,
                },
            ),
    ;
}

} // verus!
