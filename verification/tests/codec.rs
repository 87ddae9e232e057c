//! Tests of the line decoder and encoder on their own: member order,
//! whitespace, numbers, strings, and the inputs that must be refused.

use maelstrom_node::decode::parse_message;
use maelstrom_node::encode::encode_message;
use maelstrom_node::message::{Body, Message, Payload};

fn parse(line: &[u8]) -> Option<Message> {
    parse_message(line)
}

#[test]
fn members_in_any_order_decode_alike() {
    let a = parse(br#"{"src":"c1","dest":"n1","body":{"type":"echo","msg_id":1,"echo":"hi"}}"#)
        .expect("decodes");
    let b = parse(br#"{"body":{"echo":"hi","msg_id":1,"type":"echo"},"dest":"n1","src":"c1"}"#)
        .expect("decodes");
    assert_eq!(a, b);
}

#[test]
fn whitespace_is_tolerated() {
    let m = parse(
        b" { \"src\" : \"c1\" ,\n\t\"dest\" : \"n1\" , \"body\" : { \"type\" : \"read\" , \"msg_id\" : 4 } } ",
    )
    .expect("decodes");
    assert_eq!(m.body.msg_id, Some(4));
    assert_eq!(m.body.payload, Payload::Read);
}

#[test]
fn init_fields_decode() {
    let m = parse(
        br#"{"src":"c1","dest":"n1","body":{"type":"init","msg_id":1,"node_id":"n3","node_ids":["n1","n2","n3"]}}"#,
    )
    .expect("decodes");
    assert_eq!(
        m.body.payload,
        Payload::Init {
            node_id: b"n3".to_vec(),
            node_ids: vec![b"n1".to_vec(), b"n2".to_vec(), b"n3".to_vec()],
        }
    );
}

#[test]
fn topology_mapping_decodes_in_order() {
    let m = parse(
        br#"{"src":"c1","dest":"n1","body":{"type":"topology","msg_id":1,"topology":{"n2":["n1"],"n1":[]}}}"#,
    )
    .expect("decodes");
    assert_eq!(
        m.body.payload,
        Payload::Topology {
            topology: vec![(b"n2".to_vec(), vec![b"n1".to_vec()]), (b"n1".to_vec(), vec![])],
        }
    );
}

#[test]
fn rejects_structural_faults() {
    assert!(parse(b"").is_none());
    assert!(parse(b"   ").is_none());
    assert!(parse(b"[1,2]").is_none());
    assert!(parse(br#"{"src":"c1","dest":"n1"}"#).is_none());
    assert!(parse(br#"{"src":"c1","dest":"n1","body":{"msg_id":1}}"#).is_none());
    assert!(parse(br#"{"src":"c1","dest":"n1","body":{"type":"echo","msg_id":1,"echo":"hi"}"#).is_none());
    assert!(parse(br#"{"src":"c1","dest":"n1","body":{"type":"echo","msg_id":1,"echo":"hi"}}x"#).is_none());
    assert!(parse(br#"{"src":"c1","dest":"n1","body":{"type":"nonsense","msg_id":1}}"#).is_none());
}

#[test]
fn rejects_wrongly_typed_members() {
    assert!(parse(br#"{"src":1,"dest":"n1","body":{"type":"read","msg_id":1}}"#).is_none());
    assert!(parse(br#"{"src":"c1","dest":"n1","body":{"type":"echo","msg_id":1,"echo":7}}"#).is_none());
    assert!(parse(br#"{"src":"c1","dest":"n1","body":{"type":"read","msg_id":"1"}}"#).is_none());
    assert!(parse(br#"{"src":"c1","dest":"n1","body":{"type":"broadcast","msg_id":1,"message":-4}}"#)
        .is_none());
    assert!(parse(br#"{"src":"c1","dest":"n1","body":{"type":"broadcast","msg_id":1,"message":1.5}}"#)
        .is_none());
}

#[test]
fn rejects_number_edge_forms() {
    assert!(parse(br#"{"src":"c1","dest":"n1","body":{"type":"read","msg_id":01}}"#).is_none());
    assert!(parse(br#"{"src":"c1","dest":"n1","body":{"type":"read","msg_id":1e3}}"#).is_none());
    // anything past the top of the unsigned 64-bit range is refused
    assert!(parse(br#"{"src":"c1","dest":"n1","body":{"type":"read","msg_id":18446744073709551616}}"#)
        .is_none());
    assert!(parse(br#"{"src":"c1","dest":"n1","body":{"type":"read","msg_id":99999999999999999999}}"#)
        .is_none());
    let m = parse(br#"{"src":"c1","dest":"n1","body":{"type":"read","msg_id":18446744073709551615}}"#)
        .expect("decodes");
    assert_eq!(m.body.msg_id, Some(u64::MAX));
    let m = parse(br#"{"src":"c1","dest":"n1","body":{"type":"read","msg_id":0}}"#).expect("decodes");
    assert_eq!(m.body.msg_id, Some(0));
}

#[test]
fn rejects_duplicate_and_unknown_members() {
    assert!(parse(br#"{"src":"c1","dest":"n1","body":{"type":"read","msg_id":1,"msg_id":2}}"#)
        .is_none());
    assert!(parse(br#"{"src":"c1","src":"c2","dest":"n1","body":{"type":"read","msg_id":1}}"#)
        .is_none());
    assert!(parse(br#"{"src":"c1","dest":"n1","body":{"type":"read","msg_id":1,"stray":3}}"#)
        .is_none());
    assert!(parse(br#"{"src":"c1","dest":"n1","extra":0,"body":{"type":"read","msg_id":1}}"#)
        .is_none());
}

#[test]
fn unused_known_members_are_ignored() {
    // a field belonging to another variant may be present; the variant
    // simply does not take it
    let m = parse(br#"{"src":"c1","dest":"n1","body":{"type":"read","msg_id":1,"echo":"x"}}"#)
        .expect("decodes");
    assert_eq!(m.body.payload, Payload::Read);
}

#[test]
fn string_escapes_validated_and_kept_raw() {
    let m = parse(br#"{"src":"c1","dest":"n1","body":{"type":"echo","msg_id":1,"echo":"a\"b\\cA"}}"#)
        .expect("decodes");
    assert_eq!(m.body.payload, Payload::Echo { echo: br#"a\"b\\cA"#.to_vec() });
    assert!(parse(br#"{"src":"c1","dest":"n1","body":{"type":"echo","msg_id":1,"echo":"a\qb"}}"#)
        .is_none());
    assert!(parse(br#"{"src":"c1","dest":"n1","body":{"type":"echo","msg_id":1,"echo":"a\u00g1"}}"#)
        .is_none());
    assert!(parse(b"{\"src\":\"c1\",\"dest\":\"n1\",\"body\":{\"type\":\"echo\",\"msg_id\":1,\"echo\":\"a\x01b\"}}")
        .is_none());
}

#[test]
fn in_reply_to_is_carried_through() {
    let m = parse(br#"{"src":"c1","dest":"n1","body":{"in_reply_to":9,"msg_id":10,"type":"echo_ok","echo":"hi"}}"#)
        .expect("decodes");
    assert_eq!(m.body.in_reply_to, Some(9));
    assert_eq!(m.body.payload, Payload::EchoOk { echo: b"hi".to_vec() });
}

#[test]
fn encode_decode_round_trip() {
    let m = Message {
        src: b"n1".to_vec(),
        dest: b"c1".to_vec(),
        body: Body {
            msg_id: Some(2),
            in_reply_to: Some(1),
            payload: Payload::ReadOk { messages: vec![210, 0, 9] },
        },
    };
    let line = encode_message(&m);
    assert_eq!(
        line,
        br#"{"src":"n1","dest":"c1","body":{"in_reply_to":1,"msg_id":2,"type":"read_ok","messages":[210,0,9]}}"#
            .to_vec()
    );
    let back = parse_message(&line).expect("own output decodes");
    assert_eq!(back, m);
}

#[test]
fn encode_omits_absent_optionals() {
    let m = Message {
        src: b"n1".to_vec(),
        dest: b"c1".to_vec(),
        body: Body { msg_id: None, in_reply_to: None, payload: Payload::Broadcast { message: None } },
    };
    assert_eq!(
        encode_message(&m),
        br#"{"src":"n1","dest":"c1","body":{"type":"broadcast"}}"#.to_vec()
    );
}

#[test]
fn encode_topology_and_init() {
    let m = Message {
        src: b"a".to_vec(),
        dest: b"b".to_vec(),
        body: Body {
            msg_id: Some(1),
            in_reply_to: None,
            payload: Payload::Topology {
                topology: vec![(b"n1".to_vec(), vec![b"n2".to_vec(), b"n3".to_vec()]), (b"n2".to_vec(), vec![])],
            },
        },
    };
    assert_eq!(
        encode_message(&m),
        br#"{"src":"a","dest":"b","body":{"msg_id":1,"type":"topology","topology":{"n1":["n2","n3"],"n2":[]}}}"#
            .to_vec()
    );
    let m2 = Message {
        src: b"a".to_vec(),
        dest: b"b".to_vec(),
        body: Body {
            msg_id: Some(1),
            in_reply_to: None,
            payload: Payload::Init { node_id: b"n1".to_vec(), node_ids: vec![b"n1".to_vec()] },
        },
    };
    assert_eq!(
        encode_message(&m2),
        br#"{"src":"a","dest":"b","body":{"msg_id":1,"type":"init","node_id":"n1","node_ids":["n1"]}}"#
            .to_vec()
    );
}

#[test]
fn serde_json_agrees_the_output_is_json() {
    let m = Message {
        src: b"n1".to_vec(),
        dest: b"c1".to_vec(),
        body: Body {
            msg_id: Some(2),
            in_reply_to: Some(1),
            payload: Payload::GenerateOk { id: 18446744073709551615 },
        },
    };
    let v: serde_json::Value = serde_json::from_slice(&encode_message(&m)).expect("valid JSON");
    assert_eq!(v["body"]["id"].as_u64(), Some(u64::MAX));
    assert_eq!(v["body"]["type"], "generate_ok");
}
