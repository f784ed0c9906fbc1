use node_scheduler::scheduler::{gen_msg_seq, MsgSeqCounter};

#[test]
fn component_message_numbers_count_up() {
    let mut c = MsgSeqCounter::new();
    assert_eq!(gen_msg_seq(&mut c), 1);
    assert_eq!(gen_msg_seq(&mut c), 2);
}
