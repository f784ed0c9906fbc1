use node_scheduler::core_node::{Error, MethodName, NodeID, TopicName};

#[test]
fn node_id_accepts_a_valid_name() {
    let id = NodeID::try_from("node_a".to_string()).unwrap();
    assert_eq!(id.to_string(), "node_a");
    assert_eq!(String::from(id), "node_a".to_string());
}

#[test]
fn node_id_accepts_the_edges_of_the_pattern() {
    assert!(NodeID::try_from("_".to_string()).is_ok());
    assert!(NodeID::try_from("a".to_string()).is_ok());
    assert!(NodeID::try_from("Z9_".to_string()).is_ok());
    assert!(NodeID::try_from("abcdefghijklmnop".to_string()).is_ok());
}

#[test]
fn node_id_refuses_invalid_names() {
    for bad in ["", "1abc", "a-b", "abcdefghijklmnopq", "abc\n", "é", " a", "a b"] {
        match NodeID::try_from(bad.to_string()) {
            Err(Error::InvalidNodeID(s)) => assert_eq!(s, bad),
            _ => panic!("{bad:?} was accepted"),
        }
    }
}

#[test]
fn method_name_follows_the_pattern() {
    let m = MethodName::try_from("test_method".to_string()).unwrap();
    assert_eq!(m.to_string(), "test_method");
    assert_eq!(String::from(m), "test_method");
    assert!(matches!(
        MethodName::try_from("9method".to_string()),
        Err(Error::InvalidMethodName(s)) if s == "9method"
    ));
}

#[test]
fn topic_name_follows_the_pattern() {
    let t = TopicName::try_from("hello".to_string()).unwrap();
    assert_eq!(t.to_string(), "hello");
    assert_eq!(String::from(t.clone()), "hello");
    assert_eq!(t, TopicName::try_from("hello".to_string()).unwrap());
    assert!(matches!(
        TopicName::try_from("hello.world".to_string()),
        Err(Error::InvalidTopicName(s)) if s == "hello.world"
    ));
}

#[test]
fn payload_error_converts_into_node_error() {
    let e = node_scheduler::payload::Error::InvalidPayloadType("x y".to_string());
    match Error::from(e) {
        Error::PayloadError(node_scheduler::payload::Error::InvalidPayloadType(s)) => assert_eq!(s, "x y"),
        _ => panic!("wrong conversion"),
    }
}

#[test]
fn every_name_value_reads_back_as_a_valid_name() {
    let id = NodeID::try_from("node_a".to_string()).unwrap();
    let text = String::from(id.clone());
    assert_eq!(NodeID::try_from(text).unwrap(), id);
}
