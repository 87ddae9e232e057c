//! The line encoder: the canonical byte form of an outgoing message.
//! Compact JSON, members in a fixed order (`src`, `dest`, `body`; inside
//! the body `in_reply_to`, then `msg_id`, then the `type` tag, then the
//! variant's fields), absent optional members omitted entirely. String
//! content is emitted exactly as held, so echoed strings round-trip
//! byte for byte.

use vstd::prelude::*;

use crate::bytes::{fmt_u64, spec_u64_digits};
use crate::keys::{
    tag_broadcast, tag_broadcast_ok, tag_echo, tag_echo_ok, tag_generate, tag_generate_ok,
    tag_init, tag_init_ok, tag_read, tag_read_ok, tag_topology, tag_topology_ok,
};
use crate::message::{BodyView, Message, MessageView, Payload, PayloadView};

verus! {

/// `{"src":`
pub open spec fn l_src() -> Seq<u8> {
    seq![0x7bu8, 0x22u8, 0x73u8, 0x72u8, 0x63u8, 0x22u8, 0x3au8]
}

/// `,"dest":`
pub open spec fn l_dest() -> Seq<u8> {
    seq![0x2cu8, 0x22u8, 0x64u8, 0x65u8, 0x73u8, 0x74u8, 0x22u8, 0x3au8]
}

/// `,"body":`
pub open spec fn l_body() -> Seq<u8> {
    seq![0x2cu8, 0x22u8, 0x62u8, 0x6fu8, 0x64u8, 0x79u8, 0x22u8, 0x3au8]
}

/// `"in_reply_to":`
pub open spec fn l_in_reply_to() -> Seq<u8> {
    seq![
        0x22u8,
        0x69u8,
        0x6eu8,
        0x5fu8,
        0x72u8,
        0x65u8,
        0x70u8,
        0x6cu8,
        0x79u8,
        0x5fu8,
        0x74u8,
        0x6fu8,
        0x22u8,
        0x3au8,
    ]
}

/// `"msg_id":`
pub open spec fn l_msg_id() -> Seq<u8> {
    seq![0x22u8, 0x6du8, 0x73u8, 0x67u8, 0x5fu8, 0x69u8, 0x64u8, 0x22u8, 0x3au8]
}

/// `"type":"`
pub open spec fn l_type() -> Seq<u8> {
    seq![0x22u8, 0x74u8, 0x79u8, 0x70u8, 0x65u8, 0x22u8, 0x3au8, 0x22u8]
}

/// `,"node_id":`
pub open spec fn l_node_id() -> Seq<u8> {
    seq![0x2cu8, 0x22u8, 0x6eu8, 0x6fu8, 0x64u8, 0x65u8, 0x5fu8, 0x69u8, 0x64u8, 0x22u8, 0x3au8]
}

/// `,"node_ids":`
pub open spec fn l_node_ids() -> Seq<u8> {
    seq![
        0x2cu8,
        0x22u8,
        0x6eu8,
        0x6fu8,
        0x64u8,
        0x65u8,
        0x5fu8,
        0x69u8,
        0x64u8,
        0x73u8,
        0x22u8,
        0x3au8,
    ]
}

/// `,"echo":`
pub open spec fn l_echo() -> Seq<u8> {
    seq![0x2cu8, 0x22u8, 0x65u8, 0x63u8, 0x68u8, 0x6fu8, 0x22u8, 0x3au8]
}

/// `,"id":`
pub open spec fn l_id() -> Seq<u8> {
    seq![0x2cu8, 0x22u8, 0x69u8, 0x64u8, 0x22u8, 0x3au8]
}

/// `,"message":`
pub open spec fn l_message() -> Seq<u8> {
    seq![0x2cu8, 0x22u8, 0x6du8, 0x65u8, 0x73u8, 0x73u8, 0x61u8, 0x67u8, 0x65u8, 0x22u8, 0x3au8]
}

/// `,"messages":`
pub open spec fn l_messages() -> Seq<u8> {
    seq![
        0x2cu8,
        0x22u8,
        0x6du8,
        0x65u8,
        0x73u8,
        0x73u8,
        0x61u8,
        0x67u8,
        0x65u8,
        0x73u8,
        0x22u8,
        0x3au8,
    ]
}

/// `,"topology":`
pub open spec fn l_topology() -> Seq<u8> {
    seq![
        0x2cu8,
        0x22u8,
        0x74u8,
        0x6fu8,
        0x70u8,
        0x6fu8,
        0x6cu8,
        0x6fu8,
        0x67u8,
        0x79u8,
        0x22u8,
        0x3au8,
    ]
}

/// A string value: the raw content between quotes.
pub open spec fn enc_string(c: Seq<u8>) -> Seq<u8> {
    seq![0x22u8] + c + seq![0x22u8]
}

/// Comma-separated unsigned numbers.
pub open spec fn enc_u64_elems(v: Seq<u64>) -> Seq<u8>
    decreases v.len(),
{
    if v.len() == 0 {
        Seq::empty()
    } else if v.len() == 1 {
        spec_u64_digits(v[0] as nat)
    } else {
        spec_u64_digits(v[0] as nat) + seq![0x2cu8] + enc_u64_elems(v.drop_first())
    }
}

/// `[1,2,3]`
pub open spec fn enc_u64_array(v: Seq<u64>) -> Seq<u8> {
    seq![0x5bu8] + enc_u64_elems(v) + seq![0x5du8]
}

/// Comma-separated strings.
pub open spec fn enc_str_elems(v: Seq<Seq<u8>>) -> Seq<u8>
    decreases v.len(),
{
    if v.len() == 0 {
        Seq::empty()
    } else if v.len() == 1 {
        enc_string(v[0])
    } else {
        enc_string(v[0]) + seq![0x2cu8] + enc_str_elems(v.drop_first())
    }
}

/// `["a","b"]`
pub open spec fn enc_str_array(v: Seq<Seq<u8>>) -> Seq<u8> {
    seq![0x5bu8] + enc_str_elems(v) + seq![0x5du8]
}

/// Comma-separated `"key":["a","b"]` members.
pub open spec fn enc_topo_members(v: Seq<(Seq<u8>, Seq<Seq<u8>>)>) -> Seq<u8>
    decreases v.len(),
{
    if v.len() == 0 {
        Seq::empty()
    } else if v.len() == 1 {
        enc_string(v[0].0) + seq![0x3au8] + enc_str_array(v[0].1)
    } else {
        enc_string(v[0].0) + seq![0x3au8] + enc_str_array(v[0].1) + seq![0x2cu8]
            + enc_topo_members(v.drop_first())
    }
}

/// `{"a":["b"],"c":[]}`
pub open spec fn enc_topology(v: Seq<(Seq<u8>, Seq<Seq<u8>>)>) -> Seq<u8> {
    seq![0x7bu8] + enc_topo_members(v) + seq![0x7du8]
}

/// The `type` tag of a payload variant.
pub open spec fn tag_of(p: PayloadView) -> Seq<u8> {
    match p {
        PayloadView::Init { .. } => tag_init(),
        PayloadView::InitOk => tag_init_ok(),
        PayloadView::Echo { .. } => tag_echo(),
        PayloadView::EchoOk { .. } => tag_echo_ok(),
        PayloadView::Generate => tag_generate(),
        PayloadView::GenerateOk { .. } => tag_generate_ok(),
        PayloadView::Broadcast { .. } => tag_broadcast(),
        PayloadView::BroadcastOk => tag_broadcast_ok(),
        PayloadView::Read => tag_read(),
        PayloadView::ReadOk { .. } => tag_read_ok(),
        PayloadView::Topology { .. } => tag_topology(),
        PayloadView::TopologyOk => tag_topology_ok(),
    }
}

/// The variant's own members, each with its leading comma.
pub open spec fn enc_fields(p: PayloadView) -> Seq<u8> {
    match p {
        PayloadView::Init { node_id, node_ids } => l_node_id() + enc_string(node_id)
            + l_node_ids() + enc_str_array(node_ids),
        PayloadView::InitOk => Seq::empty(),
        PayloadView::Echo { echo } => l_echo() + enc_string(echo),
        PayloadView::EchoOk { echo } => l_echo() + enc_string(echo),
        PayloadView::Generate => Seq::empty(),
        PayloadView::GenerateOk { id } => l_id() + spec_u64_digits(id as nat),
        PayloadView::Broadcast { message } => match message {
            Some(m) => l_message() + spec_u64_digits(m as nat),
            None => Seq::empty(),
        },
        PayloadView::BroadcastOk => Seq::empty(),
        PayloadView::Read => Seq::empty(),
        PayloadView::ReadOk { messages } => l_messages() + enc_u64_array(messages),
        PayloadView::Topology { topology } => l_topology() + enc_topology(topology),
        PayloadView::TopologyOk => Seq::empty(),
    }
}

/// `"type":"tag"` followed by the variant's members.
pub open spec fn enc_payload(p: PayloadView) -> Seq<u8> {
    l_type() + tag_of(p) + seq![0x22u8] + enc_fields(p)
}

/// The body object.
pub open spec fn spec_encode_body(b: BodyView) -> Seq<u8> {
    seq![0x7bu8] + (match b.in_reply_to {
        Some(n) => l_in_reply_to() + spec_u64_digits(n as nat) + seq![0x2cu8],
        None => Seq::empty(),
    }) + (match b.msg_id {
        Some(n) => l_msg_id() + spec_u64_digits(n as nat) + seq![0x2cu8],
        None => Seq::empty(),
    }) + enc_payload(b.payload) + seq![0x7du8]
}

/// One whole output line (without the trailing newline, which the
/// transport adds).
pub open spec fn spec_encode_message(m: MessageView) -> Seq<u8> {
    l_src() + enc_string(m.src) + l_dest() + enc_string(m.dest) + l_body() + spec_encode_body(
        m.body,
    ) + seq![0x7du8]
}

/// Appends all of `s` to `out`.
fn push_bytes(out: &mut Vec<u8>, s: &[u8])
    ensures
        final(out)@ == old(out)@ + s@,
{
    let ghost out0 = out@;
    let mut i: usize = 0;
    while i < s.len()
        invariant
            i <= s@.len(),
            out@ == out0 + s@.subrange(0, i as int),
        decreases s@.len() - i,
    {
        out.push(s[i]);
        proof {
            assert(out@ =~= out0 + s@.subrange(0, (i + 1) as int));
        }
        i = i + 1;
    }
    proof {
        assert(out0 + s@.subrange(0, s@.len() as int) =~= out0 + s@);
    }
}

/// Appends `"content"`.
fn emit_string(c: &Vec<u8>, out: &mut Vec<u8>)
    ensures
        final(out)@ == old(out)@ + enc_string(c@),
{
    let ghost out0 = out@;
    out.push(0x22);
    push_bytes(out, c.as_slice());
    out.push(0x22);
    proof {
        assert(out@ =~= out0 + enc_string(c@));
    }
}

fn emit_u64_elems(v: &Vec<u64>, i: usize, out: &mut Vec<u8>)
    requires
        i <= v@.len(),
    ensures
        final(out)@ == old(out)@ + enc_u64_elems(v@.skip(i as int)),
    decreases v@.len() - i,
{
    let ghost out0 = out@;
    if i < v.len() {
        fmt_u64(v[i], out);
        proof {
            assert(v@.skip(i as int)[0] == v@[i as int]);
        }
        if i + 1 < v.len() {
            out.push(0x2c);
            emit_u64_elems(v, i + 1, out);
            proof {
                assert(v@.skip(i as int).drop_first() =~= v@.skip(i + 1));
                assert(out@ =~= out0 + enc_u64_elems(v@.skip(i as int)));
            }
        } else {
            proof {
                assert(v@.skip(i as int).len() == 1);
                assert(out@ =~= out0 + enc_u64_elems(v@.skip(i as int)));
            }
        }
    } else {
        proof {
            assert(v@.skip(i as int).len() == 0);
            assert(out@ =~= out0 + enc_u64_elems(v@.skip(i as int)));
        }
    }
}

fn emit_u64_array(v: &Vec<u64>, out: &mut Vec<u8>)
    ensures
        final(out)@ == old(out)@ + enc_u64_array(v@),
{
    let ghost out0 = out@;
    out.push(0x5b);
    emit_u64_elems(v, 0, out);
    out.push(0x5d);
    proof {
        assert(v@.skip(0) =~= v@);
        assert(out@ =~= out0 + enc_u64_array(v@));
    }
}

fn emit_str_elems(v: &Vec<Vec<u8>>, i: usize, out: &mut Vec<u8>)
    requires
        i <= v@.len(),
    ensures
        final(out)@ == old(out)@ + enc_str_elems(v.deep_view().skip(i as int)),
    decreases v@.len() - i,
{
    let ghost out0 = out@;
    let ghost dv = v.deep_view();
    proof {
        assert(dv.len() == v@.len());
    }
    if i < v.len() {
        emit_string(&v[i], out);
        proof {
            crate::json::lemma_deep_u8(v@[i as int]);
            assert(dv.skip(i as int)[0] == dv[i as int]);
            assert(dv[i as int] == v@[i as int]@);
        }
        if i + 1 < v.len() {
            out.push(0x2c);
            emit_str_elems(v, i + 1, out);
            proof {
                assert(dv.skip(i as int).drop_first() =~= dv.skip(i + 1));
                assert(out@ =~= out0 + enc_str_elems(dv.skip(i as int)));
            }
        } else {
            proof {
                assert(dv.skip(i as int).len() == 1);
                assert(out@ =~= out0 + enc_str_elems(dv.skip(i as int)));
            }
        }
    } else {
        proof {
            assert(dv.skip(i as int).len() == 0);
            assert(out@ =~= out0 + enc_str_elems(dv.skip(i as int)));
        }
    }
}

fn emit_str_array(v: &Vec<Vec<u8>>, out: &mut Vec<u8>)
    ensures
        final(out)@ == old(out)@ + enc_str_array(v.deep_view()),
{
    let ghost out0 = out@;
    out.push(0x5b);
    emit_str_elems(v, 0, out);
    out.push(0x5d);
    proof {
        assert(v.deep_view().skip(0) =~= v.deep_view());
        assert(out@ =~= out0 + enc_str_array(v.deep_view()));
    }
}

fn emit_topo_members(v: &Vec<(Vec<u8>, Vec<Vec<u8>>)>, i: usize, out: &mut Vec<u8>)
    requires
        i <= v@.len(),
    ensures
        final(out)@ == old(out)@ + enc_topo_members(v.deep_view().skip(i as int)),
    decreases v@.len() - i,
{
    let ghost out0 = out@;
    let ghost dv = v.deep_view();
    proof {
        assert(dv.len() == v@.len());
    }
    if i < v.len() {
        emit_string(&v[i].0, out);
        out.push(0x3a);
        emit_str_array(&v[i].1, out);
        proof {
            crate::json::lemma_deep_u8(v@[i as int].0);
            assert(dv.skip(i as int)[0] == dv[i as int]);
            assert(dv[i as int].0 == v@[i as int].0@);
            assert(dv[i as int].1 == v@[i as int].1.deep_view());
        }
        if i + 1 < v.len() {
            out.push(0x2c);
            emit_topo_members(v, i + 1, out);
            proof {
                assert(dv.skip(i as int).drop_first() =~= dv.skip(i + 1));
                assert(out@ =~= out0 + enc_topo_members(dv.skip(i as int)));
            }
        } else {
            proof {
                assert(dv.skip(i as int).len() == 1);
                assert(out@ =~= out0 + enc_topo_members(dv.skip(i as int)));
            }
        }
    } else {
        proof {
            assert(dv.skip(i as int).len() == 0);
            assert(out@ =~= out0 + enc_topo_members(dv.skip(i as int)));
        }
    }
}

fn emit_topology(v: &Vec<(Vec<u8>, Vec<Vec<u8>>)>, out: &mut Vec<u8>)
    ensures
        final(out)@ == old(out)@ + enc_topology(v.deep_view()),
{
    let ghost out0 = out@;
    out.push(0x7b);
    emit_topo_members(v, 0, out);
    out.push(0x7d);
    proof {
        assert(v.deep_view().skip(0) =~= v.deep_view());
        assert(out@ =~= out0 + enc_topology(v.deep_view()));
    }
}

/// Appends `"type":"tag"` and the variant's members.
fn emit_payload(p: &Payload, out: &mut Vec<u8>)
    ensures
        final(out)@ == old(out)@ + enc_payload(p@),
{
    let ghost out0 = out@;
    let w_type: [u8; 8] = [0x22, 0x74, 0x79, 0x70, 0x65, 0x22, 0x3a, 0x22];
    proof {
        assert(w_type@ =~= l_type());
    }
    push_bytes(out, w_type.as_slice());
    match p {
        Payload::Init { node_id, node_ids } => {
            let w_tag: [u8; 4] = [0x69, 0x6e, 0x69, 0x74];
            let w_nid: [u8; 11] = [0x2c, 0x22, 0x6e, 0x6f, 0x64, 0x65, 0x5f, 0x69, 0x64, 0x22, 0x3a];
            let w_nids: [u8; 12] = [
                0x2c,
                0x22,
                0x6e,
                0x6f,
                0x64,
                0x65,
                0x5f,
                0x69,
                0x64,
                0x73,
                0x22,
                0x3a,
            ];
            proof {
                assert(w_tag@ =~= tag_init());
                assert(w_nid@ =~= l_node_id());
                assert(w_nids@ =~= l_node_ids());
            }
            push_bytes(out, w_tag.as_slice());
            out.push(0x22);
            push_bytes(out, w_nid.as_slice());
            emit_string(node_id, out);
            push_bytes(out, w_nids.as_slice());
            emit_str_array(node_ids, out);
            proof {
                assert(out@ =~= out0 + enc_payload(p@));
            }
        },
        Payload::InitOk => {
            let w_tag: [u8; 7] = [0x69, 0x6e, 0x69, 0x74, 0x5f, 0x6f, 0x6b];
            proof {
                assert(w_tag@ =~= tag_init_ok());
            }
            push_bytes(out, w_tag.as_slice());
            out.push(0x22);
            proof {
                assert(out@ =~= out0 + enc_payload(p@));
            }
        },
        Payload::Echo { echo } => {
            let w_tag: [u8; 4] = [0x65, 0x63, 0x68, 0x6f];
            let w_echo: [u8; 8] = [0x2c, 0x22, 0x65, 0x63, 0x68, 0x6f, 0x22, 0x3a];
            proof {
                assert(w_tag@ =~= tag_echo());
                assert(w_echo@ =~= l_echo());
            }
            push_bytes(out, w_tag.as_slice());
            out.push(0x22);
            push_bytes(out, w_echo.as_slice());
            emit_string(echo, out);
            proof {
                assert(out@ =~= out0 + enc_payload(p@));
            }
        },
        Payload::EchoOk { echo } => {
            let w_tag: [u8; 7] = [0x65, 0x63, 0x68, 0x6f, 0x5f, 0x6f, 0x6b];
            let w_echo: [u8; 8] = [0x2c, 0x22, 0x65, 0x63, 0x68, 0x6f, 0x22, 0x3a];
            proof {
                assert(w_tag@ =~= tag_echo_ok());
                assert(w_echo@ =~= l_echo());
            }
            push_bytes(out, w_tag.as_slice());
            out.push(0x22);
            push_bytes(out, w_echo.as_slice());
            emit_string(echo, out);
            proof {
                assert(out@ =~= out0 + enc_payload(p@));
            }
        },
        Payload::Generate => {
            let w_tag: [u8; 8] = [0x67, 0x65, 0x6e, 0x65, 0x72, 0x61, 0x74, 0x65];
            proof {
                assert(w_tag@ =~= tag_generate());
            }
            push_bytes(out, w_tag.as_slice());
            out.push(0x22);
            proof {
                assert(out@ =~= out0 + enc_payload(p@));
            }
        },
        Payload::GenerateOk { id } => {
            let w_tag: [u8; 11] = [0x67, 0x65, 0x6e, 0x65, 0x72, 0x61, 0x74, 0x65, 0x5f, 0x6f, 0x6b];
            let w_id: [u8; 6] = [0x2c, 0x22, 0x69, 0x64, 0x22, 0x3a];
            proof {
                assert(w_tag@ =~= tag_generate_ok());
                assert(w_id@ =~= l_id());
            }
            push_bytes(out, w_tag.as_slice());
            out.push(0x22);
            push_bytes(out, w_id.as_slice());
            fmt_u64(*id, out);
            proof {
                assert(out@ =~= out0 + enc_payload(p@));
            }
        },
        Payload::Broadcast { message } => {
            let w_tag: [u8; 9] = [0x62, 0x72, 0x6f, 0x61, 0x64, 0x63, 0x61, 0x73, 0x74];
            let w_msg: [u8; 11] = [0x2c, 0x22, 0x6d, 0x65, 0x73, 0x73, 0x61, 0x67, 0x65, 0x22, 0x3a];
            proof {
                assert(w_tag@ =~= tag_broadcast());
                assert(w_msg@ =~= l_message());
            }
            push_bytes(out, w_tag.as_slice());
            out.push(0x22);
            match message {
                Some(m) => {
                    push_bytes(out, w_msg.as_slice());
                    fmt_u64(*m, out);
                },
                None => {},
            }
            proof {
                assert(out@ =~= out0 + enc_payload(p@));
            }
        },
        Payload::BroadcastOk => {
            let w_tag: [u8; 12] = [
                0x62,
                0x72,
                0x6f,
                0x61,
                0x64,
                0x63,
                0x61,
                0x73,
                0x74,
                0x5f,
                0x6f,
                0x6b,
            ];
            proof {
                assert(w_tag@ =~= tag_broadcast_ok());
            }
            push_bytes(out, w_tag.as_slice());
            out.push(0x22);
            proof {
                assert(out@ =~= out0 + enc_payload(p@));
            }
        },
        Payload::Read => {
            let w_tag: [u8; 4] = [0x72, 0x65, 0x61, 0x64];
            proof {
                assert(w_tag@ =~= tag_read());
            }
            push_bytes(out, w_tag.as_slice());
            out.push(0x22);
            proof {
                assert(out@ =~= out0 + enc_payload(p@));
            }
        },
        Payload::ReadOk { messages } => {
            let w_tag: [u8; 7] = [0x72, 0x65, 0x61, 0x64, 0x5f, 0x6f, 0x6b];
            let w_msgs: [u8; 12] = [
                0x2c,
                0x22,
                0x6d,
                0x65,
                0x73,
                0x73,
                0x61,
                0x67,
                0x65,
                0x73,
                0x22,
                0x3a,
            ];
            proof {
                assert(w_tag@ =~= tag_read_ok());
                assert(w_msgs@ =~= l_messages());
            }
            push_bytes(out, w_tag.as_slice());
            out.push(0x22);
            push_bytes(out, w_msgs.as_slice());
            emit_u64_array(messages, out);
            proof {
                assert(out@ =~= out0 + enc_payload(p@));
            }
        },
        Payload::Topology { topology } => {
            let w_tag: [u8; 8] = [0x74, 0x6f, 0x70, 0x6f, 0x6c, 0x6f, 0x67, 0x79];
            let w_topo: [u8; 12] = [
                0x2c,
                0x22,
                0x74,
                0x6f,
                0x70,
                0x6f,
                0x6c,
                0x6f,
                0x67,
                0x79,
                0x22,
                0x3a,
            ];
            proof {
                assert(w_tag@ =~= tag_topology());
                assert(w_topo@ =~= l_topology());
            }
            push_bytes(out, w_tag.as_slice());
            out.push(0x22);
            push_bytes(out, w_topo.as_slice());
            emit_topology(topology, out);
            proof {
                assert(out@ =~= out0 + enc_payload(p@));
            }
        },
        Payload::TopologyOk => {
            let w_tag: [u8; 11] = [0x74, 0x6f, 0x70, 0x6f, 0x6c, 0x6f, 0x67, 0x79, 0x5f, 0x6f, 0x6b];
            proof {
                assert(w_tag@ =~= tag_topology_ok());
            }
            push_bytes(out, w_tag.as_slice());
            out.push(0x22);
            proof {
                assert(out@ =~= out0 + enc_payload(p@));
            }
        },
    }
}

/// Encodes one outgoing message into its canonical line bytes.
pub fn encode_message(m: &Message) -> (r: Vec<u8>)
    ensures
        r@ == spec_encode_message(m@),
{
    let mut out: Vec<u8> = Vec::new();
    let w_src: [u8; 7] = [0x7b, 0x22, 0x73, 0x72, 0x63, 0x22, 0x3a];
    let w_dest: [u8; 8] = [0x2c, 0x22, 0x64, 0x65, 0x73, 0x74, 0x22, 0x3a];
    let w_body: [u8; 8] = [0x2c, 0x22, 0x62, 0x6f, 0x64, 0x79, 0x22, 0x3a];
    let w_irt: [u8; 14] = [
        0x22,
        0x69,
        0x6e,
        0x5f,
        0x72,
        0x65,
        0x70,
        0x6c,
        0x79,
        0x5f,
        0x74,
        0x6f,
        0x22,
        0x3a,
    ];
    let w_mid: [u8; 9] = [0x22, 0x6d, 0x73, 0x67, 0x5f, 0x69, 0x64, 0x22, 0x3a];
    proof {
        assert(w_src@ =~= l_src());
        assert(w_dest@ =~= l_dest());
        assert(w_body@ =~= l_body());
        assert(w_irt@ =~= l_in_reply_to());
        assert(w_mid@ =~= l_msg_id());
    }
    push_bytes(&mut out, w_src.as_slice());
    emit_string(&m.src, &mut out);
    push_bytes(&mut out, w_dest.as_slice());
    emit_string(&m.dest, &mut out);
    push_bytes(&mut out, w_body.as_slice());
    let ghost before_body = out@;
    out.push(0x7b);
    match &m.body.in_reply_to {
        Some(n) => {
            push_bytes(&mut out, w_irt.as_slice());
            fmt_u64(*n, &mut out);
            out.push(0x2c);
        },
        None => {},
    }
    match &m.body.msg_id {
        Some(n) => {
            push_bytes(&mut out, w_mid.as_slice());
            fmt_u64(*n, &mut out);
            out.push(0x2c);
        },
        None => {},
    }
    emit_payload(&m.body.payload, &mut out);
    out.push(0x7d);
    proof {
        assert(out@ =~= before_body + spec_encode_body(m.body@));
    }
    out.push(0x7d);
    proof {
        assert(out@ =~= spec_encode_message(m@));
    }
    out
}

} // verus!
