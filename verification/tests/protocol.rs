//! End-to-end scenarios over whole wire lines: handshake, steady-state
//! dispatch, and error tolerance. Replies are cross-checked with
//! serde_json to confirm the emitted lines are ordinary JSON.

use maelstrom_node::node::{handle_init, process_line, InitError, LineOutcome, NodeState};

fn init_line() -> &'static [u8] {
    br#"{"src":"c1","dest":"n1","body":{"type":"init","msg_id":1,"node_id":"n1","node_ids":["n1"]}}"#
}

fn ready_node() -> NodeState {
    let (st, _) = handle_init(init_line()).expect("handshake");
    st
}

fn json_of(line: &[u8]) -> serde_json::Value {
    serde_json::from_slice(line).expect("reply must be valid JSON")
}

fn reply(st: &mut NodeState, line: &[u8]) -> Vec<u8> {
    match process_line(st, line) {
        LineOutcome::Reply(v) => v,
        o => panic!("expected a reply, got {:?}", o),
    }
}

fn discarded(st: &mut NodeState, line: &[u8]) -> bool {
    matches!(process_line(st, line), LineOutcome::Discarded)
}

fn ignored(st: &mut NodeState, line: &[u8]) -> bool {
    matches!(process_line(st, line), LineOutcome::Ignored)
}

#[test]
fn handshake_yields_one_init_ok_line() {
    let (st, out) = handle_init(init_line()).expect("handshake");
    let v = json_of(&out);
    assert_eq!(v["src"], "n1");
    assert_eq!(v["dest"], "c1");
    assert_eq!(v["body"]["type"], "init_ok");
    assert_eq!(v["body"]["in_reply_to"], 1);
    assert_eq!(st.node_id, b"n1".to_vec());
    assert_eq!(st.node_ids, vec![b"n1".to_vec()]);
    assert!(st.messages.is_empty());
}

#[test]
fn handshake_exact_bytes() {
    let (_, out) = handle_init(init_line()).expect("handshake");
    assert_eq!(
        out,
        br#"{"src":"n1","dest":"c1","body":{"in_reply_to":1,"msg_id":2,"type":"init_ok"}}"#.to_vec()
    );
}

#[test]
fn handshake_rejects_non_init_first_line() {
    let r = handle_init(br#"{"src":"c1","dest":"n1","body":{"type":"echo","msg_id":1,"echo":"hi"}}"#);
    assert_eq!(r.unwrap_err(), InitError::NotInit);
}

#[test]
fn handshake_rejects_malformed_first_line() {
    assert_eq!(handle_init(b"not json").unwrap_err(), InitError::Malformed);
}

#[test]
fn handshake_rejects_init_without_msg_id() {
    let r = handle_init(br#"{"src":"c1","dest":"n1","body":{"type":"init","node_id":"n1","node_ids":[]}}"#);
    assert_eq!(r.unwrap_err(), InitError::Uncorrelated);
}

#[test]
fn broadcast_broadcast_read_scenario() {
    let mut st = ready_node();
    let r1 = reply(&mut st, br#"{"src":"c1","dest":"n1","body":{"type":"broadcast","msg_id":3,"message":5}}"#);
    assert_eq!(json_of(&r1)["body"]["type"], "broadcast_ok");
    let r2 = reply(&mut st, br#"{"src":"c1","dest":"n1","body":{"type":"broadcast","msg_id":4,"message":7}}"#);
    assert_eq!(json_of(&r2)["body"]["in_reply_to"], 4);
    let r3 = reply(&mut st, br#"{"src":"c1","dest":"n1","body":{"type":"read","msg_id":5}}"#);
    let v = json_of(&r3);
    assert_eq!(v["body"]["type"], "read_ok");
    assert_eq!(v["body"]["messages"], serde_json::Value::from(vec![5u64, 7]));
}

#[test]
fn echo_reply_same_string() {
    let mut st = ready_node();
    let out = reply(&mut st, br#"{"src":"c1","dest":"n1","body":{"type":"echo","msg_id":1,"echo":"hi"}}"#);
    assert_eq!(
        out,
        br#"{"src":"n1","dest":"c1","body":{"in_reply_to":1,"msg_id":2,"type":"echo_ok","echo":"hi"}}"#
            .to_vec()
    );
}

#[test]
fn echo_keeps_escapes_byte_for_byte() {
    let mut st = ready_node();
    let line = br#"{"src":"c1","dest":"n1","body":{"type":"echo","msg_id":9,"echo":"a\"b\\cA\n"}}"#;
    let out = reply(&mut st, line);
    let sent = json_of(line);
    let got = json_of(&out);
    assert_eq!(got["body"]["echo"], sent["body"]["echo"]);
    assert_eq!(got["body"]["type"], "echo_ok");
}

#[test]
fn malformed_line_yields_nothing_and_does_not_stop_the_node() {
    let mut st = ready_node();
    assert!(discarded(&mut st, b"{\"src\": nope"));
    assert!(discarded(&mut st, b""));
    let out = reply(
        &mut st,
        br#"{"src":"c1","dest":"n1","body":{"type":"echo","msg_id":1,"echo":"still here"}}"#,
    );
    assert_eq!(json_of(&out)["body"]["echo"], "still here");
}

#[test]
fn generate_ids_distinct() {
    let mut st = ready_node();
    let r1 = reply(&mut st, br#"{"src":"c1","dest":"n1","body":{"type":"generate","msg_id":1}}"#);
    let r2 = reply(&mut st, br#"{"src":"c1","dest":"n1","body":{"type":"generate","msg_id":2}}"#);
    let id1 = json_of(&r1)["body"]["id"].as_u64().expect("id");
    let id2 = json_of(&r2)["body"]["id"].as_u64().expect("id");
    assert_ne!(id1, id2);
    assert_eq!(json_of(&r1)["body"]["type"], "generate_ok");
}

#[test]
fn broadcast_without_message_keeps_store() {
    let mut st = ready_node();
    let r = reply(&mut st, br#"{"src":"c1","dest":"n1","body":{"type":"broadcast","msg_id":3}}"#);
    assert_eq!(json_of(&r)["body"]["type"], "broadcast_ok");
    let read = reply(&mut st, br#"{"src":"c1","dest":"n1","body":{"type":"read","msg_id":4}}"#);
    assert_eq!(json_of(&read)["body"]["messages"], serde_json::Value::from(Vec::<u64>::new()));
}

#[test]
fn broadcast_null_message_keeps_store() {
    let mut st = ready_node();
    let r = reply(&mut st, br#"{"src":"c1","dest":"n1","body":{"type":"broadcast","msg_id":3,"message":null}}"#);
    assert_eq!(json_of(&r)["body"]["type"], "broadcast_ok");
    assert!(st.messages.is_empty());
}

#[test]
fn topology_always_acknowledged() {
    let mut st = ready_node();
    let r1 = reply(&mut st, br#"{"src":"c1","dest":"n1","body":{"type":"topology","msg_id":1,"topology":{}}}"#);
    assert_eq!(json_of(&r1)["body"]["type"], "topology_ok");
    let r2 = reply(&mut st, br#"{"src":"c1","dest":"n1","body":{"type":"topology","msg_id":2,"topology":{"n1":["n2","n3"],"n2":[]}}}"#);
    assert_eq!(json_of(&r2)["body"]["type"], "topology_ok");
}

#[test]
fn reply_kinds_are_silently_ignored() {
    let mut st = ready_node();
    assert!(ignored(
        &mut st,
        br#"{"src":"c1","dest":"n1","body":{"type":"echo_ok","msg_id":1,"echo":"hi"}}"#
    ));
    assert!(ignored(&mut st, br#"{"src":"c1","dest":"n1","body":{"type":"init_ok","msg_id":1}}"#));
    assert!(ignored(
        &mut st,
        br#"{"src":"c1","dest":"n1","body":{"type":"init","msg_id":1,"node_id":"nx","node_ids":[]}}"#
    ));
    assert_eq!(st.node_id, b"n1".to_vec());
}

#[test]
fn request_without_msg_id_is_discarded() {
    let mut st = ready_node();
    assert!(discarded(&mut st, br#"{"src":"c1","dest":"n1","body":{"type":"echo","echo":"hi"}}"#));
    assert!(discarded(
        &mut st,
        br#"{"src":"c1","dest":"n1","body":{"type":"broadcast","msg_id":null,"message":3}}"#
    ));
    assert!(st.messages.is_empty());
}
