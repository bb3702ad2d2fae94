use amqp_topology::amqp::destination::Destination;
use amqp_topology::amqp::exchange::{Bind as ExchangeBind, Exchange, ExchangeType};
use amqp_topology::amqp::package::{NackPolicy, OutboundPackage, PublishFlags};
use amqp_topology::amqp::queue::{Bind as QueueBind, Queue};
use amqp_topology::routing::operator::BindArgs;
use amqp_topology::transport::consumer::AckMode;
use std::collections::HashMap;

#[test]
fn new_destination() {
    let destination = Destination::new("events", "click");
    assert_eq!("events", destination.exchange);
    assert_eq!("click", destination.routing_key);
}

#[test]
fn destination_accepts_empty_names() {
    let destination = Destination::new("", "");
    assert_eq!("", destination.exchange);
    assert_eq!("", destination.routing_key);
}

#[test]
fn new_exchange() {
    let exchange = Exchange::new("test", ExchangeType::Direct);
    assert_eq!("test", exchange.name);
    assert_eq!("direct", exchange.exchange_type.to_string().as_str());
    assert_eq!(false, exchange.passive);
    assert_eq!(true, exchange.durable);
    assert_eq!(false, exchange.auto_delete);
    assert_eq!(false, exchange.internal);
    assert_eq!(false, exchange.no_wait);
    assert_eq!(0, exchange.arguments.len());
}

#[test]
fn exchange_type() {
    assert_eq!("direct", ExchangeType::Direct.to_string().as_str());
    assert_eq!("fanout", ExchangeType::Fanout.to_string().as_str());
    assert_eq!("topic", ExchangeType::Topic.to_string().as_str());
    assert_eq!("x-delayed-message", ExchangeType::Delayed.to_string().as_str());

    let mut headers: HashMap<String, String> = HashMap::default();
    headers.insert(String::from("x-key"), String::from("value"));

    let headers_exchange_type = ExchangeType::Headers(headers);
    assert_eq!("headers", headers_exchange_type.to_string().as_str());
    match headers_exchange_type {
        ExchangeType::Headers(headers) => {
            assert_eq!("value", headers.get("x-key").unwrap().as_str());
        }
        _ => {
            assert_eq!(1, 2);
        }
    };
}

#[test]
fn exchange_type_of_empty_headers_is_headers() {
    let kind = ExchangeType::Headers(HashMap::new());
    assert_eq!(String::from("headers"), kind.to_string());
}

#[test]
fn exchange_keeps_the_type_it_was_given() {
    let exchange = Exchange::new("delayed", ExchangeType::Delayed);
    assert!(matches!(exchange.exchange_type, ExchangeType::Delayed));
    assert_eq!("x-delayed-message", exchange.exchange_type.to_string());

    let mut headers: HashMap<String, String> = HashMap::new();
    headers.insert(String::from("x-match"), String::from("all"));
    let exchange = Exchange::new("by_header", ExchangeType::Headers(headers));
    match exchange.exchange_type {
        ExchangeType::Headers(headers) => {
            assert_eq!(1, headers.len());
            assert_eq!("all", headers.get("x-match").unwrap().as_str());
        }
        _ => panic!("the headers were lost"),
    }
    assert_eq!(0, exchange.arguments.len());
}

#[test]
fn exchange_defaults_hold_for_any_name() {
    for name in ["", "a", "amq.topic", "with space", "x-delayed-message"] {
        let exchange = Exchange::new(name, ExchangeType::Topic);
        assert_eq!(name, exchange.name);
        assert!(exchange.durable);
        assert!(!exchange.passive);
        assert!(!exchange.auto_delete);
        assert!(!exchange.internal);
        assert!(!exchange.no_wait);
        assert!(exchange.arguments.is_empty());
    }
}

#[test]
fn exchange_new_bind() {
    let bind = ExchangeBind::new("test_exchange", "test_routing_key");
    assert_eq!("test_exchange", bind.exchange);
    assert_eq!("test_routing_key", bind.routing_key);
    assert_eq!(false, bind.no_wait);
    assert_eq!(0, bind.arguments.len());
}

#[test]
fn requeue() {
    let nack = NackPolicy::requeue(None);
    assert_eq!(true, nack.requeue);
    assert_eq!(None, nack.reason);

    let nack = NackPolicy::requeue(Some("error"));
    assert_eq!(true, nack.requeue);
    assert_eq!("error", nack.reason.unwrap());
}

#[test]
fn dont_requeue() {
    let nack = NackPolicy::dont_requeue(None);
    assert_eq!(false, nack.requeue);
    assert_eq!(None, nack.reason);

    let nack = NackPolicy::dont_requeue(Some("panic"));
    assert_eq!(false, nack.requeue);
    assert_eq!("panic", nack.reason.unwrap());
}

#[test]
fn nack_reason_round_trips() {
    for reason in [None, Some(""), Some("timeout"), Some("bad payload")] {
        let again = NackPolicy::requeue(reason);
        assert!(again.requeue);
        assert_eq!(reason, again.reason);
        let never = NackPolicy::dont_requeue(reason);
        assert!(!never.requeue);
        assert_eq!(reason, never.reason);
    }
}

#[test]
fn new_outbound_package() {
    let package = OutboundPackage::new(
        String::from("some_content"),
        Destination::new("test_exchange", "test_routing_key"),
    );

    assert_eq!("some_content", package.content.as_str());
    assert_eq!(false, package.publish_flags.persist);
    assert_eq!(false, package.publish_flags.immediate);
    assert_eq!(false, package.publish_flags.mandatory);
    assert_eq!("test_exchange", package.destination.exchange);
    assert_eq!("test_routing_key", package.destination.routing_key);
}

#[test]
fn outbound_package_with_empty_content() {
    let package = OutboundPackage::new(String::new(), Destination::new("", ""));
    assert_eq!("", package.content.as_str());
    assert!(!package.publish_flags.persist);
    assert!(!package.publish_flags.mandatory);
    assert!(!package.publish_flags.immediate);
    assert_eq!(0, package.headers.len());
    assert_eq!("", package.destination.exchange);
    assert_eq!("", package.destination.routing_key);
}

#[test]
fn publish_flags_default_to_off() {
    let flags = PublishFlags::default();
    assert!(!flags.persist);
    assert!(!flags.mandatory);
    assert!(!flags.immediate);
}

#[test]
fn new_queue() {
    let queue = Queue::new("test");
    assert_eq!("test", queue.name);
    assert_eq!(false, queue.passive);
    assert_eq!(true, queue.durable);
    assert_eq!(false, queue.exclusive);
    assert_eq!(false, queue.auto_delete);
    assert_eq!(0, queue.arguments.len());
}

#[test]
fn queue_defaults_hold_for_any_name() {
    for name in ["", "q", "orders", "orders.dead-letter"] {
        let queue = Queue::new(name);
        assert_eq!(name, queue.name);
        assert!(queue.durable);
        assert!(!queue.passive);
        assert!(!queue.exclusive);
        assert!(!queue.auto_delete);
        assert!(queue.arguments.is_empty());
    }
}

#[test]
fn queue_fields_can_be_overridden() {
    let mut queue = Queue::new("jobs");
    queue.exclusive = true;
    queue.durable = false;
    queue.arguments.insert(String::from("x-max-length"), String::from("10"));
    let copy = queue.clone();
    assert_eq!("jobs", copy.name);
    assert!(copy.exclusive);
    assert!(!copy.durable);
    assert_eq!("10", copy.arguments.get("x-max-length").unwrap().as_str());
}

#[test]
fn queue_new_bind() {
    let exchange = Exchange::new("text_exchange", ExchangeType::Direct);

    let bind = QueueBind::new(exchange, "test_routing_key");
    assert_eq!("text_exchange", bind.exchange.name);
    assert_eq!("test_routing_key", bind.routing_key);
    assert_eq!(false, bind.no_wait);
    assert_eq!(0, bind.arguments.len());
}

#[test]
fn new_bind_args() {
    let args = BindArgs::new("order.created");
    assert_eq!("order.created", args.routing_key);
    assert_eq!(false, args.no_wait);
    assert_eq!(0, args.arguments.len());
}

#[test]
fn ack_mode_carries_the_nack_policy() {
    let decision = AckMode::Nack(NackPolicy::dont_requeue(Some("poison")));
    match decision {
        AckMode::Nack(policy) => {
            assert!(!policy.requeue);
            assert_eq!(Some("poison"), policy.reason);
        }
        AckMode::Ack | AckMode::Retry => panic!("the decision changed"),
    }
    assert!(matches!(AckMode::Ack, AckMode::Ack));
    assert!(matches!(AckMode::Retry, AckMode::Retry));
}
