use node_scheduler::local_single_scheduler::Polled;
use node_scheduler::node::{Error, NodeID, TopicName};
use node_scheduler::payload::{EncodeType, PayloadType, RawPayload};
use node_scheduler::simple_scheduler::{gen_msg_seq, MsgSeqCounter, Scheduler};

fn id(s: &str) -> NodeID {
    NodeID::try_from(s.to_string()).unwrap()
}

fn payload(bytes: &[u8]) -> RawPayload {
    RawPayload::new(EncodeType::Bincode, PayloadType::try_from("pong".to_string()).unwrap(), bytes.to_vec())
}

#[test]
fn message_numbers_count_up_from_one() {
    let mut c = MsgSeqCounter::new();
    assert_eq!(gen_msg_seq(&mut c), 1);
    assert_eq!(gen_msg_seq(&mut c), 2);
    assert_eq!(gen_msg_seq(&mut c), 3);
}

#[test]
fn a_sync_call_finds_its_node() {
    let mut s: Scheduler<&str, u32> = Scheduler::new();
    s.register_node(id("node_a"), "A");
    assert_eq!(*s.sync_call_target(&id("node_a")).ok().unwrap(), "A");
    match s.sync_call_target(&id("node_x")) {
        Err(Error::ComponentNotFound(n)) => assert_eq!(n, id("node_x")),
        _ => panic!("unknown node accepted"),
    }
}

#[test]
fn async_calls_are_numbered_only_when_the_node_exists() {
    let mut s: Scheduler<&str, u32> = Scheduler::new();
    s.register_node(id("node_a"), "A");
    let mut c = MsgSeqCounter::new();
    assert!(matches!(s.prepare_async_call(&id("node_x"), &mut c), Err(Error::ComponentNotFound(_))));
    assert_eq!(s.prepare_async_call(&id("node_a"), &mut c).ok().map(|r| r.0), Some(1));
    assert_eq!(s.prepare_async_call(&id("node_a"), &mut c).ok().map(|r| (r.0, *r.1)), Some((2, "A")));
    assert_eq!(gen_msg_seq(&mut c), 3);
}

#[test]
fn an_accepted_call_waits_for_its_answer() {
    let mut s: Scheduler<&str, u32> = Scheduler::new();
    s.register_node(id("node_a"), "A");
    let seq = s.prepare_async_call(&id("node_a"), &mut MsgSeqCounter::new()).ok().unwrap().0;
    assert!(s.settle_async_call(id("node_a"), seq, 9, Ok(())).is_ok());
    let (e, _) = s.take_async_work().unwrap();
    assert_eq!(e.seq, seq);
    assert_eq!(e.to, id("node_a"));
    assert!(s.settle_polled(e, Ok(Polled::Pending)).is_none());
    let (e, _) = s.take_async_work().unwrap();
    let (cb, answer) = s.settle_polled(e, Ok(Polled::Ready(payload(b"ok")))).unwrap();
    assert_eq!(cb, 9);
    assert_eq!(answer.raw(), b"ok");
    assert!(s.take_async_work().is_none());
}

#[test]
fn a_refused_call_is_not_queued() {
    let mut s: Scheduler<&str, u32> = Scheduler::new();
    s.register_node(id("node_a"), "A");
    let seq = s.prepare_async_call(&id("node_a"), &mut MsgSeqCounter::new()).ok().unwrap().0;
    assert!(matches!(s.settle_async_call(id("node_a"), seq, 9, Err(Error::Unimplemented)), Err(Error::Unimplemented)));
    assert!(s.take_async_work().is_none());
}

#[test]
fn a_failed_poll_drops_the_call() {
    let mut s: Scheduler<&str, u32> = Scheduler::new();
    s.register_node(id("node_a"), "A");
    let seq = s.prepare_async_call(&id("node_a"), &mut MsgSeqCounter::new()).ok().unwrap().0;
    s.settle_async_call(id("node_a"), seq, 9, Ok(())).ok().unwrap();
    let (e, _) = s.take_async_work().unwrap();
    assert!(s.settle_polled(e, Err(Error::Unimplemented)).is_none());
    assert!(s.take_async_work().is_none());
}

#[test]
fn simple_broadcasts_reach_subscribers() {
    let mut s: Scheduler<&str, u32> = Scheduler::new();
    s.register_node(id("node_a"), "A");
    let t = TopicName::try_from("news".to_string()).unwrap();
    s.subscribe_topic(&id("node_a"), t.clone());
    s.broadcast_topic(t.clone(), payload(b"n"));
    let (topic, p, to) = s.take_topic_delivery().unwrap();
    assert_eq!(topic, t);
    assert_eq!(p.raw(), b"n");
    assert_eq!(to.len(), 1);
    assert_eq!(to[0].0, id("node_a"));
    assert_eq!(*to[0].1, "A");
    s.unsubscribe_topic(&id("node_a"), t.clone());
    s.broadcast_topic(t, payload(b"m"));
    let (_, _, to) = s.take_topic_delivery().unwrap();
    assert!(to.is_empty());
}

#[test]
fn message_numbers_follow_each_other() {
    let mut c = MsgSeqCounter::new();
    let mut last = 0;
    for _ in 0..5 {
        last = gen_msg_seq(&mut c);
    }
    assert_eq!(last, 5);
}

#[test]
fn schedulers_sharing_a_counter_number_calls_in_one_sequence() {
    let mut s1: Scheduler<&str, u32> = Scheduler::new();
    let mut s2: Scheduler<&str, u32> = Scheduler::new();
    s1.register_node(id("node_a"), "A");
    s2.register_node(id("node_b"), "B");
    let mut c = MsgSeqCounter::new();
    assert_eq!(s1.prepare_async_call(&id("node_a"), &mut c).ok().map(|r| r.0), Some(1));
    assert_eq!(s2.prepare_async_call(&id("node_b"), &mut c).ok().map(|r| r.0), Some(2));
    assert_eq!(s1.prepare_async_call(&id("node_a"), &mut c).ok().map(|r| r.0), Some(3));
}
