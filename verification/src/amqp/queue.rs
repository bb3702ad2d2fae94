use crate::amqp::exchange::{Exchange, ExchangeView};
use std::collections::HashMap;
use vstd::prelude::*;

verus! {

/// A queue as it is to be declared on the broker.
#[derive(Debug, Clone)]
pub struct Queue<'a> {
    pub name: &'a str,
    pub passive: bool,
    pub durable: bool,
    pub exclusive: bool,
    pub auto_delete: bool,
    pub arguments: HashMap<String, String>,
}

/// What a [`Queue`] denotes.
pub ghost struct QueueView {
    pub name: Seq<char>,
    pub passive: bool,
    pub durable: bool,
    pub exclusive: bool,
    pub auto_delete: bool,
    pub arguments: Map<String, String>,
}

impl QueueView {
    /// The queue that a fresh declaration of `name` describes: durable, every
    /// other flag off, no arguments.
    pub open spec fn fresh(name: Seq<char>) -> QueueView {
        QueueView {
            name,
            passive: false,
            durable: true,
            exclusive: false,
            auto_delete: false,
            arguments: Map::empty(),
        }
    }
}

impl<'a> View for Queue<'a> {
    type V = QueueView;

    open spec fn view(&self) -> QueueView {
        QueueView {
            name: self.name@,
            passive: self.passive,
            durable: self.durable,
            exclusive: self.exclusive,
            auto_delete: self.auto_delete,
            arguments: self.arguments@,
        }
    }
}

impl<'a> Queue<'a> {
    /// A durable queue with every other flag off and no arguments. The fields
    /// are public, to be overridden before use.
    pub fn new(name: &'a str) -> (q: Self)
        ensures
            q.name == name,
            q@ == QueueView::fresh(name@),
    {
        Self {
            name,
            passive: false,
            durable: true,
            exclusive: false,
            auto_delete: false,
            arguments: HashMap::new(),
        }
    }
}

/// A request to bind something to a target exchange, which is declared first.
#[derive(Debug)]
pub struct Bind<'a> {
    pub exchange: Exchange<'a>,
    pub routing_key: &'a str,
    pub no_wait: bool,
    pub arguments: HashMap<String, String>,
}

/// What a [`Bind`] denotes.
pub ghost struct BindView {
    pub exchange: ExchangeView,
    pub routing_key: Seq<char>,
    pub no_wait: bool,
    pub arguments: Map<String, String>,
}

impl<'a> View for Bind<'a> {
    type V = BindView;

    open spec fn view(&self) -> BindView {
        BindView {
            exchange: self.exchange@,
            routing_key: self.routing_key@,
            no_wait: self.no_wait,
            arguments: self.arguments@,
        }
    }
}

impl<'a> Bind<'a> {
    /// A binding to `exchange` under `routing_key`, waiting for the broker's
    /// reply and with no arguments.
    pub fn new(exchange: Exchange<'a>, routing_key: &'a str) -> (b: Self)
        ensures
            b.exchange == exchange,
            b.routing_key == routing_key,
            !b.no_wait,
            b.arguments@ == Map::<String, String>::empty(),
    {
        Self { exchange, routing_key, no_wait: false, arguments: HashMap::new() }
    }
}

} // verus!
