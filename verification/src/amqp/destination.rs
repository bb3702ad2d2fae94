use vstd::prelude::*;

verus! {

/// A publish target: the exchange to publish to and the routing key to use.
#[derive(Debug)]
pub struct Destination<'a> {
    pub exchange: &'a str,
    pub routing_key: &'a str,
}

/// What a [`Destination`] denotes.
pub ghost struct DestinationView {
    pub exchange: Seq<char>,
    pub routing_key: Seq<char>,
}

impl<'a> View for Destination<'a> {
    type V = DestinationView;

    open spec fn view(&self) -> DestinationView {
        DestinationView { exchange: self.exchange@, routing_key: self.routing_key@ }
    }
}

impl<'a> Destination<'a> {
    /// Pairs an exchange name with a routing key. Neither is checked for emptiness.
    pub fn new(exchange: &'a str, routing_key: &'a str) -> (d: Self)
        ensures
            d.exchange == exchange,
            d.routing_key == routing_key,
    {
        Self { exchange, routing_key }
    }
}

} // verus!
