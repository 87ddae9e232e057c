//! Tests of the dispatcher and the envelope logic on decoded values,
//! below the wire format.

use maelstrom_node::message::{Body, Message, Payload};
use maelstrom_node::node::{handle, NodeState};

fn msg(payload: Payload, msg_id: Option<u64>) -> Message {
    Message {
        src: b"c1".to_vec(),
        dest: b"n1".to_vec(),
        body: Body { msg_id, in_reply_to: None, payload },
    }
}

fn node() -> NodeState {
    NodeState::new(b"n1".to_vec(), vec![b"n1".to_vec(), b"n2".to_vec()])
}

#[test]
fn new_reply_swaps_and_correlates() {
    let m = msg(Payload::Read, Some(7));
    let r = m.new_reply();
    assert_eq!(r.src, b"n1".to_vec());
    assert_eq!(r.dest, b"c1".to_vec());
    assert_eq!(r.body.msg_id, Some(8));
    assert_eq!(r.body.in_reply_to, Some(7));
    assert_eq!(r.body.payload, Payload::Read);
}

#[test]
fn echo_is_answered_in_kind() {
    let mut st = node();
    let r = handle(&mut st, msg(Payload::Echo { echo: b"hello".to_vec() }, Some(1)))
        .expect("echo reply");
    assert_eq!(r.body.payload, Payload::EchoOk { echo: b"hello".to_vec() });
    assert_eq!(r.body.in_reply_to, Some(1));
    assert_eq!(r.body.msg_id, Some(2));
    assert_eq!(r.src, b"n1".to_vec());
    assert_eq!(r.dest, b"c1".to_vec());
}

#[test]
fn broadcasts_then_read_in_order() {
    let mut st = node();
    for (i, v) in [5u64, 7, 5, 2].iter().enumerate() {
        let r = handle(&mut st, msg(Payload::Broadcast { message: Some(*v) }, Some(i as u64)))
            .expect("broadcast reply");
        assert_eq!(r.body.payload, Payload::BroadcastOk);
    }
    let r = handle(&mut st, msg(Payload::Read, Some(10))).expect("read reply");
    assert_eq!(r.body.payload, Payload::ReadOk { messages: vec![5, 7, 5, 2] });
}

#[test]
fn broadcast_without_message_acknowledged_store_unchanged() {
    let mut st = node();
    handle(&mut st, msg(Payload::Broadcast { message: Some(9) }, Some(1))).expect("reply");
    let r = handle(&mut st, msg(Payload::Broadcast { message: None }, Some(2))).expect("reply");
    assert_eq!(r.body.payload, Payload::BroadcastOk);
    assert_eq!(st.messages, vec![9]);
}

#[test]
fn generate_ids_distinct_across_many() {
    let mut st = node();
    let mut seen = Vec::new();
    for i in 0..100u64 {
        let r = handle(&mut st, msg(Payload::Generate, Some(i))).expect("generate reply");
        match r.body.payload {
            Payload::GenerateOk { id } => {
                assert!(!seen.contains(&id), "duplicate generated id");
                seen.push(id);
            },
            p => panic!("unexpected reply payload: {:?}", p),
        }
    }
}

#[test]
fn unanswered_kinds_change_nothing() {
    let mut st = node();
    assert!(handle(&mut st, msg(Payload::InitOk, Some(1))).is_none());
    assert!(handle(&mut st, msg(Payload::BroadcastOk, Some(1))).is_none());
    assert!(handle(&mut st, msg(Payload::GenerateOk { id: 3 }, Some(1))).is_none());
    assert!(handle(
        &mut st,
        msg(
            Payload::Init { node_id: b"nx".to_vec(), node_ids: vec![] },
            Some(1)
        )
    )
    .is_none());
    assert_eq!(st.node_id, b"n1".to_vec());
    assert!(st.messages.is_empty());
}

#[test]
fn missing_msg_id_discards_even_a_broadcast() {
    let mut st = node();
    assert!(handle(&mut st, msg(Payload::Broadcast { message: Some(4) }, None)).is_none());
    assert!(st.messages.is_empty());
}

#[test]
fn append_and_snapshot_preserve_order() {
    let mut st = node();
    st.append(3);
    st.append(1);
    st.append(3);
    assert_eq!(st.snapshot(), vec![3, 1, 3]);
    assert_eq!(st.messages, vec![3, 1, 3]);
}

#[test]
fn topology_contents_do_not_matter() {
    let mut st = node();
    let r = handle(&mut st, msg(Payload::Topology { topology: vec![] }, Some(1))).expect("reply");
    assert_eq!(r.body.payload, Payload::TopologyOk);
    let topo = vec![(b"n1".to_vec(), vec![b"n2".to_vec()]), (b"n2".to_vec(), vec![])];
    let r = handle(&mut st, msg(Payload::Topology { topology: topo }, Some(2))).expect("reply");
    assert_eq!(r.body.payload, Payload::TopologyOk);
    assert_eq!(st.node_id, b"n1".to_vec());
}
