use node_scheduler::core_node::{Error, MethodName, NodeID, TopicName};
use node_scheduler::local_single_scheduler::{Polled, Scheduler};
use node_scheduler::payload::{EncodeType, PayloadType, RawPayload};

fn id(s: &str) -> NodeID {
    NodeID::try_from(s.to_string()).unwrap()
}

fn topic(s: &str) -> TopicName {
    TopicName::try_from(s.to_string()).unwrap()
}

fn method(s: &str) -> MethodName {
    MethodName::try_from(s.to_string()).unwrap()
}

fn payload(bytes: &[u8]) -> RawPayload {
    RawPayload::new(EncodeType::Json, PayloadType::try_from("ping".to_string()).unwrap(), bytes.to_vec())
}

fn names<N>(ids: &[(NodeID, N)]) -> Vec<String> {
    ids.iter().map(|i| i.0.to_string()).collect()
}

#[test]
fn register_and_look_up_nodes() {
    let mut s: Scheduler<&str, u32> = Scheduler::new();
    assert!(s.node(&id("node_a")).is_none());
    s.register_node(id("node_a"), "A");
    s.register_node(id("node_b"), "B");
    assert_eq!(s.node(&id("node_a")), Some(&"A"));
    assert_eq!(s.node(&id("node_b")), Some(&"B"));
    s.register_node(id("node_a"), "A2");
    assert_eq!(s.node(&id("node_a")), Some(&"A2"));
    assert_eq!(s.node_ids().iter().map(|i| i.to_string()).collect::<Vec<_>>(), vec!["node_a", "node_b"]);
}

#[test]
fn broadcasts_are_delivered_in_order_to_registered_subscribers() {
    let mut s: Scheduler<&str, u32> = Scheduler::new();
    s.register_node(id("node_a"), "A");
    s.register_node(id("node_c"), "C");
    s.subscribe_topic(&id("node_c"), topic("hello")).unwrap();
    s.subscribe_topic(&id("ghost"), topic("hello")).unwrap();
    s.subscribe_topic(&id("node_a"), topic("hello")).unwrap();
    s.broadcast_topic(topic("hello"), payload(b"1")).unwrap();
    s.broadcast_topic(topic("other"), payload(b"2")).unwrap();

    let (t, p, to) = s.take_topic_delivery().unwrap();
    assert_eq!(t, topic("hello"));
    assert_eq!(p.raw(), b"1");
    assert_eq!(names(&to), vec!["node_c", "node_a"]);
    assert_eq!(*to[0].1, "C");
    assert_eq!(*to[1].1, "A");

    let (t, p, to) = s.take_topic_delivery().unwrap();
    assert_eq!(t, topic("other"));
    assert_eq!(p.raw(), b"2");
    assert!(to.is_empty());

    assert!(s.take_topic_delivery().is_none());
}

#[test]
fn subscribing_twice_delivers_once() {
    let mut s: Scheduler<&str, u32> = Scheduler::new();
    s.register_node(id("node_a"), "A");
    s.subscribe_topic(&id("node_a"), topic("hello")).unwrap();
    s.subscribe_topic(&id("node_a"), topic("hello")).unwrap();
    s.broadcast_topic(topic("hello"), payload(b"x")).unwrap();
    let (_, _, to) = s.take_topic_delivery().unwrap();
    assert_eq!(names(&to), vec!["node_a"]);
}

#[test]
fn unsubscribing_stops_delivery() {
    let mut s: Scheduler<&str, u32> = Scheduler::new();
    s.register_node(id("node_a"), "A");
    s.register_node(id("node_b"), "B");
    s.subscribe_topic(&id("node_a"), topic("hello")).unwrap();
    s.subscribe_topic(&id("node_b"), topic("hello")).unwrap();
    s.unsubscribe_topic(&id("node_a"), topic("hello")).unwrap();
    s.unsubscribe_topic(&id("node_a"), topic("nothing")).unwrap();
    s.broadcast_topic(topic("hello"), payload(b"x")).unwrap();
    let (_, _, to) = s.take_topic_delivery().unwrap();
    assert_eq!(names(&to), vec!["node_b"]);
}

#[test]
fn a_call_to_an_unknown_node_fails() {
    let s: Scheduler<&str, u32> = Scheduler::new();
    match s.prepare_async_call(&id("nobody")) {
        Err(Error::NodeNotFound(n)) => assert_eq!(n, id("nobody")),
        _ => panic!("unknown node accepted"),
    }
}

#[test]
fn a_ready_answer_goes_to_the_callback() {
    let mut s: Scheduler<&str, u32> = Scheduler::new();
    s.register_node(id("node_a"), "A");
    let (call, _) = s.prepare_async_call(&id("node_a")).unwrap();
    let r = s
        .settle_async_call(id("node_a"), call, method("m"), payload(b"q"), 7, Polled::Ready(Ok(payload(b"a"))))
        .unwrap();
    let (cb, answer) = r.unwrap();
    assert_eq!(cb, 7);
    assert_eq!(answer.raw(), b"a");
    assert!(s.take_async_work().is_none());
}

#[test]
fn a_failed_answer_is_the_error_of_the_call() {
    let mut s: Scheduler<&str, u32> = Scheduler::new();
    s.register_node(id("node_a"), "A");
    let (call, _) = s.prepare_async_call(&id("node_a")).unwrap();
    let r = s.settle_async_call(
        id("node_a"),
        call,
        method("m"),
        payload(b"q"),
        7,
        Polled::Ready(Err(Error::UnimplementedOperation)),
    );
    assert!(matches!(r, Err(Error::UnimplementedOperation)));
    assert!(s.take_async_work().is_none());
}

#[test]
fn a_pending_call_waits_and_is_polled_again() {
    let mut s: Scheduler<&str, u32> = Scheduler::new();
    s.register_node(id("node_a"), "A");
    let (c1, _) = s.prepare_async_call(&id("node_a")).unwrap();
    let (c2, _) = s.prepare_async_call(&id("node_a")).unwrap();
    assert_ne!(c1, c2);
    assert!(s.settle_async_call(id("node_a"), c1, method("m"), payload(b"1"), 1, Polled::Pending).unwrap().is_none());
    assert!(s.settle_async_call(id("node_a"), c2, method("m"), payload(b"2"), 2, Polled::Pending).unwrap().is_none());

    let (e, node) = s.take_async_work().unwrap();
    assert_eq!(*node, "A");
    assert_eq!(e.callback_once, 1);
    assert_eq!(e.call_id, c1);
    assert_eq!(e.to, id("node_a"));
    assert_eq!(e.method_name, method("m"));
    assert_eq!(e.payload.raw(), b"1");
    assert!(s.settle_polled(e, Polled::Pending).is_none());

    let (e, node) = s.take_async_work().unwrap();
    assert_eq!(*node, "A");
    assert_eq!(e.callback_once, 2);
    let (cb, answer) = s.settle_polled(e, Polled::Ready(Ok(payload(b"done")))).unwrap();
    assert_eq!(cb, 2);
    assert_eq!(answer.unwrap().raw(), b"done");

    let (e, node) = s.take_async_work().unwrap();
    assert_eq!(*node, "A");
    assert_eq!(e.callback_once, 1);
    let (cb, answer) = s.settle_polled(e, Polled::Ready(Err(Error::SpawnError))).unwrap();
    assert_eq!(cb, 1);
    assert!(matches!(answer, Err(Error::SpawnError)));
    assert!(s.take_async_work().is_none());
}

/// The scenario of the original ping test, with the scheduler driven by hand: node_a
/// subscribes to `hello` and answers calls at once; node_b broadcasts on `hello` and
/// calls node_a.
#[test]
fn test_ping() {
    let mut s: Scheduler<&str, &str> = Scheduler::new();
    s.register_node(id("node_a"), "A");
    s.register_node(id("node_b"), "B");
    // init
    for n in s.node_ids() {
        if n == id("node_a") {
            s.subscribe_topic(&n, topic("hello")).unwrap();
        } else {
            s.broadcast_topic(topic("hello"), payload(b"{\"ping_text\":\"hello\"}")).unwrap();
            let (call, _) = s.prepare_async_call(&id("node_a")).unwrap();
            let r = s
                .settle_async_call(
                    id("node_a"),
                    call,
                    method("test_method"),
                    payload(b"{\"ping_text\":\"hello2\"}"),
                    "resp2",
                    Polled::Ready(Ok(payload(b"{\"pong_text\":\"pong\"}"))),
                )
                .unwrap();
            assert_eq!(r.unwrap().0, "resp2");
        }
    }
    // two rounds of scheduling
    assert!(s.take_async_work().is_none());
    let (t, _, to) = s.take_topic_delivery().unwrap();
    assert_eq!(t, topic("hello"));
    assert_eq!(names(&to), vec!["node_a"]);
    assert!(s.take_async_work().is_none());
    assert!(s.take_topic_delivery().is_none());
}

#[test]
fn unsubscribing_undoes_a_subscription() {
    let mut s: Scheduler<&str, u32> = Scheduler::new();
    s.register_node(id("node_a"), "A");
    s.register_node(id("node_b"), "B");
    s.subscribe_topic(&id("node_b"), topic("hello")).unwrap();
    s.subscribe_topic(&id("node_a"), topic("hello")).unwrap();
    s.unsubscribe_topic(&id("node_a"), topic("hello")).unwrap();
    s.unsubscribe_topic(&id("node_a"), topic("hello")).unwrap();
    s.subscribe_topic(&id("node_a"), topic("hello")).unwrap();
    s.broadcast_topic(topic("hello"), payload(b"x")).unwrap();
    let (_, _, to) = s.take_topic_delivery().unwrap();
    assert_eq!(names(&to), vec!["node_b", "node_a"]);
}

#[test]
fn a_subscriber_registered_later_still_gets_the_broadcast() {
    let mut s: Scheduler<&str, u32> = Scheduler::new();
    s.subscribe_topic(&id("node_a"), topic("hello")).unwrap();
    s.broadcast_topic(topic("hello"), payload(b"x")).unwrap();
    s.register_node(id("node_a"), "A");
    let (_, _, to) = s.take_topic_delivery().unwrap();
    assert_eq!(names(&to), vec!["node_a"]);
}
