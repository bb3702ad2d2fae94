use std::collections::HashMap;
use vstd::prelude::*;

verus! {

/// The kind of a broker exchange.
#[derive(Debug)]
pub enum ExchangeType {
    Direct,
    Topic,
    Fanout,
    /// Routes on message headers; carries the headers to match.
    Headers(HashMap<String, String>),
    Delayed,
}

/// What an [`ExchangeType`] denotes.
pub ghost enum ExchangeTypeView {
    Direct,
    Topic,
    Fanout,
    Headers(Map<String, String>),
    Delayed,
}

impl ExchangeTypeView {
    /// The broker's name for this kind of exchange.
    pub open spec fn token(self) -> Seq<char> {
        match self {
            ExchangeTypeView::Direct => "direct"@,
            ExchangeTypeView::Topic => "topic"@,
            ExchangeTypeView::Fanout => "fanout"@,
            ExchangeTypeView::Headers(_) => "headers"@,
            ExchangeTypeView::Delayed => "x-delayed-message"@,
        }
    }
}

impl View for ExchangeType {
    type V = ExchangeTypeView;

    open spec fn view(&self) -> ExchangeTypeView {
        match self {
            ExchangeType::Direct => ExchangeTypeView::Direct,
            ExchangeType::Topic => ExchangeTypeView::Topic,
            ExchangeType::Fanout => ExchangeTypeView::Fanout,
            ExchangeType::Headers(headers) => ExchangeTypeView::Headers(headers@),
            ExchangeType::Delayed => ExchangeTypeView::Delayed,
        }
    }
}

impl ExchangeType {
    /// The broker's name for this kind of exchange, as used verbatim when an
    /// exchange is declared.
    pub fn to_string(&self) -> (s: String)
        ensures
            s@ == self@.token(),
    {
        match self {
            ExchangeType::Direct => "direct".to_owned(),
            ExchangeType::Topic => "topic".to_owned(),
            ExchangeType::Fanout => "fanout".to_owned(),
            ExchangeType::Headers(_) => "headers".to_owned(),
            ExchangeType::Delayed => "x-delayed-message".to_owned(),
        }
    }
}

/// An exchange as it is to be declared on the broker.
#[derive(Debug)]
pub struct Exchange<'a> {
    pub name: &'a str,
    pub exchange_type: ExchangeType,
    pub passive: bool,
    pub durable: bool,
    pub auto_delete: bool,
    pub internal: bool,
    pub no_wait: bool,
    pub arguments: HashMap<String, String>,
}

/// What an [`Exchange`] denotes.
pub ghost struct ExchangeView {
    pub name: Seq<char>,
    pub exchange_type: ExchangeTypeView,
    pub passive: bool,
    pub durable: bool,
    pub auto_delete: bool,
    pub internal: bool,
    pub no_wait: bool,
    pub arguments: Map<String, String>,
}

impl ExchangeView {
    /// The exchange that a fresh declaration of `name` and `exchange_type`
    /// describes: durable, every other flag off, no arguments.
    pub open spec fn fresh(name: Seq<char>, exchange_type: ExchangeTypeView) -> ExchangeView {
        ExchangeView {
            name,
            exchange_type,
            passive: false,
            durable: true,
            auto_delete: false,
            internal: false,
            no_wait: false,
            arguments: Map::empty(),
        }
    }
}

impl<'a> View for Exchange<'a> {
    type V = ExchangeView;

    open spec fn view(&self) -> ExchangeView {
        ExchangeView {
            name: self.name@,
            exchange_type: self.exchange_type@,
            passive: self.passive,
            durable: self.durable,
            auto_delete: self.auto_delete,
            internal: self.internal,
            no_wait: self.no_wait,
            arguments: self.arguments@,
        }
    }
}

impl<'a> Exchange<'a> {
    /// A durable exchange with every other flag off and no arguments. The
    /// fields are public, to be overridden before use.
    pub fn new(name: &'a str, exchange_type: ExchangeType) -> (e: Self)
        ensures
            e.name == name,
            e.exchange_type == exchange_type,
            e@ == ExchangeView::fresh(name@, exchange_type@),
    {
        Self {
            name,
            exchange_type,
            passive: false,
            durable: true,
            auto_delete: false,
            internal: false,
            no_wait: false,
            arguments: HashMap::new(),
        }
    }
}

/// A request to bind an exchange to the exchange named here.
#[derive(Debug)]
pub struct Bind<'a> {
    pub exchange: &'a str,
    pub routing_key: &'a str,
    pub no_wait: bool,
    pub arguments: HashMap<String, String>,
}

/// What a [`Bind`] denotes.
pub ghost struct BindView {
    pub exchange: Seq<char>,
    pub routing_key: Seq<char>,
    pub no_wait: bool,
    pub arguments: Map<String, String>,
}

impl<'a> View for Bind<'a> {
    type V = BindView;

    open spec fn view(&self) -> BindView {
        BindView {
            exchange: self.exchange@,
            routing_key: self.routing_key@,
            no_wait: self.no_wait,
            arguments: self.arguments@,
        }
    }
}

impl<'a> Bind<'a> {
    /// A binding to `exchange` under `routing_key`, waiting for the broker's
    /// reply and with no arguments.
    pub fn new(exchange: &'a str, routing_key: &'a str) -> (b: Self)
        ensures
            b.exchange == exchange,
            b.routing_key == routing_key,
            !b.no_wait,
            b.arguments@ == Map::<String, String>::empty(),
    {
        Self { exchange, routing_key, no_wait: false, arguments: HashMap::new() }
    }
}

} // verus!
