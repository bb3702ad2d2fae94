use crate::amqp::package::OutboundPackage;
use vstd::prelude::*;

verus! {

/// What publishing gives: nothing, or the transport's complaint.
pub type ProduceResult = Result<(), &'static str>;

/// The sending side of a transport. Whether a batch is published whole or as
/// far as it goes is for each transport to decide and to document.
pub trait Producer {
    fn produce_one(package: OutboundPackage) -> ProduceResult;

    fn produce_batch(packages: Vec<OutboundPackage>) -> ProduceResult;
}

} // verus!
