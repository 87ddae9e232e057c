//! The field names and `type` tags of the wire protocol, as byte
//! sequences, with executable classifiers proved against them.

use vstd::prelude::*;

use crate::bytes::bytes_eq;

verus! {

pub open spec fn key_src() -> Seq<u8> {
    seq![0x73u8, 0x72u8, 0x63u8]
}

pub open spec fn key_dest() -> Seq<u8> {
    seq![0x64u8, 0x65u8, 0x73u8, 0x74u8]
}

pub open spec fn key_body() -> Seq<u8> {
    seq![0x62u8, 0x6fu8, 0x64u8, 0x79u8]
}

pub open spec fn key_msg_id() -> Seq<u8> {
    seq![0x6du8, 0x73u8, 0x67u8, 0x5fu8, 0x69u8, 0x64u8]
}

pub open spec fn key_in_reply_to() -> Seq<u8> {
    seq![0x69u8, 0x6eu8, 0x5fu8, 0x72u8, 0x65u8, 0x70u8, 0x6cu8, 0x79u8, 0x5fu8, 0x74u8, 0x6fu8]
}

pub open spec fn key_type() -> Seq<u8> {
    seq![0x74u8, 0x79u8, 0x70u8, 0x65u8]
}

pub open spec fn key_node_id() -> Seq<u8> {
    seq![0x6eu8, 0x6fu8, 0x64u8, 0x65u8, 0x5fu8, 0x69u8, 0x64u8]
}

pub open spec fn key_node_ids() -> Seq<u8> {
    seq![0x6eu8, 0x6fu8, 0x64u8, 0x65u8, 0x5fu8, 0x69u8, 0x64u8, 0x73u8]
}

pub open spec fn key_echo() -> Seq<u8> {
    seq![0x65u8, 0x63u8, 0x68u8, 0x6fu8]
}

pub open spec fn key_message() -> Seq<u8> {
    seq![0x6du8, 0x65u8, 0x73u8, 0x73u8, 0x61u8, 0x67u8, 0x65u8]
}

pub open spec fn key_messages() -> Seq<u8> {
    seq![0x6du8, 0x65u8, 0x73u8, 0x73u8, 0x61u8, 0x67u8, 0x65u8, 0x73u8]
}

pub open spec fn key_id() -> Seq<u8> {
    seq![0x69u8, 0x64u8]
}

pub open spec fn key_topology() -> Seq<u8> {
    seq![0x74u8, 0x6fu8, 0x70u8, 0x6fu8, 0x6cu8, 0x6fu8, 0x67u8, 0x79u8]
}

pub open spec fn tag_init() -> Seq<u8> {
    seq![0x69u8, 0x6eu8, 0x69u8, 0x74u8]
}

pub open spec fn tag_init_ok() -> Seq<u8> {
    seq![0x69u8, 0x6eu8, 0x69u8, 0x74u8, 0x5fu8, 0x6fu8, 0x6bu8]
}

pub open spec fn tag_echo() -> Seq<u8> {
    seq![0x65u8, 0x63u8, 0x68u8, 0x6fu8]
}

pub open spec fn tag_echo_ok() -> Seq<u8> {
    seq![0x65u8, 0x63u8, 0x68u8, 0x6fu8, 0x5fu8, 0x6fu8, 0x6bu8]
}

pub open spec fn tag_generate() -> Seq<u8> {
    seq![0x67u8, 0x65u8, 0x6eu8, 0x65u8, 0x72u8, 0x61u8, 0x74u8, 0x65u8]
}

pub open spec fn tag_generate_ok() -> Seq<u8> {
    seq![0x67u8, 0x65u8, 0x6eu8, 0x65u8, 0x72u8, 0x61u8, 0x74u8, 0x65u8, 0x5fu8, 0x6fu8, 0x6bu8]
}

pub open spec fn tag_broadcast() -> Seq<u8> {
    seq![0x62u8, 0x72u8, 0x6fu8, 0x61u8, 0x64u8, 0x63u8, 0x61u8, 0x73u8, 0x74u8]
}

pub open spec fn tag_broadcast_ok() -> Seq<u8> {
    seq![
        0x62u8,
        0x72u8,
        0x6fu8,
        0x61u8,
        0x64u8,
        0x63u8,
        0x61u8,
        0x73u8,
        0x74u8,
        0x5fu8,
        0x6fu8,
        0x6bu8,
    ]
}

pub open spec fn tag_read() -> Seq<u8> {
    seq![0x72u8, 0x65u8, 0x61u8, 0x64u8]
}

pub open spec fn tag_read_ok() -> Seq<u8> {
    seq![0x72u8, 0x65u8, 0x61u8, 0x64u8, 0x5fu8, 0x6fu8, 0x6bu8]
}

pub open spec fn tag_topology() -> Seq<u8> {
    seq![0x74u8, 0x6fu8, 0x70u8, 0x6fu8, 0x6cu8, 0x6fu8, 0x67u8, 0x79u8]
}

pub open spec fn tag_topology_ok() -> Seq<u8> {
    seq![
        0x74u8,
        0x6fu8,
        0x70u8,
        0x6fu8,
        0x6cu8,
        0x6fu8,
        0x67u8,
        0x79u8,
        0x5fu8,
        0x6fu8,
        0x6bu8,
    ]
}

/// The recognized keys of the envelope object.
pub enum EnvKey {
    Src,
    Dest,
    BodyField,
    Unknown,
}

pub open spec fn spec_env_key(k: Seq<u8>) -> EnvKey {
    if k == key_src() {
        EnvKey::Src
    } else if k == key_dest() {
        EnvKey::Dest
    } else if k == key_body() {
        EnvKey::BodyField
    } else {
        EnvKey::Unknown
    }
}

pub fn env_key(k: &[u8]) -> (r: EnvKey)
    ensures
        r == spec_env_key(k@),
{
    let w_src: [u8; 3] = [0x73, 0x72, 0x63];
    let w_dest: [u8; 4] = [0x64, 0x65, 0x73, 0x74];
    let w_body: [u8; 4] = [0x62, 0x6f, 0x64, 0x79];
    proof {
        assert(w_src@ =~= key_src());
        assert(w_dest@ =~= key_dest());
        assert(w_body@ =~= key_body());
    }
    if bytes_eq(k, w_src.as_slice()) {
        EnvKey::Src
    } else if bytes_eq(k, w_dest.as_slice()) {
        EnvKey::Dest
    } else if bytes_eq(k, w_body.as_slice()) {
        EnvKey::BodyField
    } else {
        EnvKey::Unknown
    }
}

/// The recognized keys of the body object.
pub enum BodyKey {
    MsgId,
    InReplyTo,
    Ty,
    NodeId,
    NodeIds,
    Echo,
    Message,
    Messages,
    Id,
    Topology,
    Unknown,
}

pub open spec fn spec_body_key(k: Seq<u8>) -> BodyKey {
    if k == key_msg_id() {
        BodyKey::MsgId
    } else if k == key_in_reply_to() {
        BodyKey::InReplyTo
    } else if k == key_type() {
        BodyKey::Ty
    } else if k == key_node_id() {
        BodyKey::NodeId
    } else if k == key_node_ids() {
        BodyKey::NodeIds
    } else if k == key_echo() {
        BodyKey::Echo
    } else if k == key_message() {
        BodyKey::Message
    } else if k == key_messages() {
        BodyKey::Messages
    } else if k == key_id() {
        BodyKey::Id
    } else if k == key_topology() {
        BodyKey::Topology
    } else {
        BodyKey::Unknown
    }
}

pub fn body_key(k: &[u8]) -> (r: BodyKey)
    ensures
        r == spec_body_key(k@),
{
    let w_msg_id: [u8; 6] = [0x6d, 0x73, 0x67, 0x5f, 0x69, 0x64];
    let w_irt: [u8; 11] = [0x69, 0x6e, 0x5f, 0x72, 0x65, 0x70, 0x6c, 0x79, 0x5f, 0x74, 0x6f];
    let w_type: [u8; 4] = [0x74, 0x79, 0x70, 0x65];
    let w_node_id: [u8; 7] = [0x6e, 0x6f, 0x64, 0x65, 0x5f, 0x69, 0x64];
    let w_node_ids: [u8; 8] = [0x6e, 0x6f, 0x64, 0x65, 0x5f, 0x69, 0x64, 0x73];
    let w_echo: [u8; 4] = [0x65, 0x63, 0x68, 0x6f];
    let w_message: [u8; 7] = [0x6d, 0x65, 0x73, 0x73, 0x61, 0x67, 0x65];
    let w_messages: [u8; 8] = [0x6d, 0x65, 0x73, 0x73, 0x61, 0x67, 0x65, 0x73];
    let w_id: [u8; 2] = [0x69, 0x64];
    let w_topology: [u8; 8] = [0x74, 0x6f, 0x70, 0x6f, 0x6c, 0x6f, 0x67, 0x79];
    proof {
        assert(w_msg_id@ =~= key_msg_id());
        assert(w_irt@ =~= key_in_reply_to());
        assert(w_type@ =~= key_type());
        assert(w_node_id@ =~= key_node_id());
        assert(w_node_ids@ =~= key_node_ids());
        assert(w_echo@ =~= key_echo());
        assert(w_message@ =~= key_message());
        assert(w_messages@ =~= key_messages());
        assert(w_id@ =~= key_id());
        assert(w_topology@ =~= key_topology());
    }
    if bytes_eq(k, w_msg_id.as_slice()) {
        BodyKey::MsgId
    } else if bytes_eq(k, w_irt.as_slice()) {
        BodyKey::InReplyTo
    } else if bytes_eq(k, w_type.as_slice()) {
        BodyKey::Ty
    } else if bytes_eq(k, w_node_id.as_slice()) {
        BodyKey::NodeId
    } else if bytes_eq(k, w_node_ids.as_slice()) {
        BodyKey::NodeIds
    } else if bytes_eq(k, w_echo.as_slice()) {
        BodyKey::Echo
    } else if bytes_eq(k, w_message.as_slice()) {
        BodyKey::Message
    } else if bytes_eq(k, w_messages.as_slice()) {
        BodyKey::Messages
    } else if bytes_eq(k, w_id.as_slice()) {
        BodyKey::Id
    } else if bytes_eq(k, w_topology.as_slice()) {
        BodyKey::Topology
    } else {
        BodyKey::Unknown
    }
}

/// The recognized values of the `type` tag.
pub enum TagKind {
    Init,
    InitOk,
    Echo,
    EchoOk,
    Generate,
    GenerateOk,
    Broadcast,
    BroadcastOk,
    Read,
    ReadOk,
    Topology,
    TopologyOk,
    Unknown,
}

pub open spec fn spec_tag_kind(t: Seq<u8>) -> TagKind {
    if t == tag_init() {
        TagKind::Init
    } else if t == tag_init_ok() {
        TagKind::InitOk
    } else if t == tag_echo() {
        TagKind::Echo
    } else if t == tag_echo_ok() {
        TagKind::EchoOk
    } else if t == tag_generate() {
        TagKind::Generate
    } else if t == tag_generate_ok() {
        TagKind::GenerateOk
    } else if t == tag_broadcast() {
        TagKind::Broadcast
    } else if t == tag_broadcast_ok() {
        TagKind::BroadcastOk
    } else if t == tag_read() {
        TagKind::Read
    } else if t == tag_read_ok() {
        TagKind::ReadOk
    } else if t == tag_topology() {
        TagKind::Topology
    } else if t == tag_topology_ok() {
        TagKind::TopologyOk
    } else {
        TagKind::Unknown
    }
}

pub fn tag_kind(t: &[u8]) -> (r: TagKind)
    ensures
        r == spec_tag_kind(t@),
{
    let w_init: [u8; 4] = [0x69, 0x6e, 0x69, 0x74];
    let w_init_ok: [u8; 7] = [0x69, 0x6e, 0x69, 0x74, 0x5f, 0x6f, 0x6b];
    let w_echo: [u8; 4] = [0x65, 0x63, 0x68, 0x6f];
    let w_echo_ok: [u8; 7] = [0x65, 0x63, 0x68, 0x6f, 0x5f, 0x6f, 0x6b];
    let w_generate: [u8; 8] = [0x67, 0x65, 0x6e, 0x65, 0x72, 0x61, 0x74, 0x65];
    let w_generate_ok: [u8; 11] = [
        0x67,
        0x65,
        0x6e,
        0x65,
        0x72,
        0x61,
        0x74,
        0x65,
        0x5f,
        0x6f,
        0x6b,
    ];
    let w_broadcast: [u8; 9] = [0x62, 0x72, 0x6f, 0x61, 0x64, 0x63, 0x61, 0x73, 0x74];
    let w_broadcast_ok: [u8; 12] = [
        0x62,
        0x72,
        0x6f,
        0x61,
        0x64,
        0x63,
        0x61,
        0x73,
        0x74,
        0x5f,
        0x6f,
        0x6b,
    ];
    let w_read: [u8; 4] = [0x72, 0x65, 0x61, 0x64];
    let w_read_ok: [u8; 7] = [0x72, 0x65, 0x61, 0x64, 0x5f, 0x6f, 0x6b];
    let w_topology: [u8; 8] = [0x74, 0x6f, 0x70, 0x6f, 0x6c, 0x6f, 0x67, 0x79];
    let w_topology_ok: [u8; 11] = [
        0x74,
        0x6f,
        0x70,
        0x6f,
        0x6c,
        0x6f,
        0x67,
        0x79,
        0x5f,
        0x6f,
        0x6b,
    ];
    proof {
        assert(w_init@ =~= tag_init());
        assert(w_init_ok@ =~= tag_init_ok());
        assert(w_echo@ =~= tag_echo());
        assert(w_echo_ok@ =~= tag_echo_ok());
        assert(w_generate@ =~= tag_generate());
        assert(w_generate_ok@ =~= tag_generate_ok());
        assert(w_broadcast@ =~= tag_broadcast());
        assert(w_broadcast_ok@ =~= tag_broadcast_ok());
        assert(w_read@ =~= tag_read());
        assert(w_read_ok@ =~= tag_read_ok());
        assert(w_topology@ =~= tag_topology());
        assert(w_topology_ok@ =~= tag_topology_ok());
    }
    if bytes_eq(t, w_init.as_slice()) {
        TagKind::Init
    } else if bytes_eq(t, w_init_ok.as_slice()) {
        TagKind::InitOk
    } else if bytes_eq(t, w_echo.as_slice()) {
        TagKind::Echo
    } else if bytes_eq(t, w_echo_ok.as_slice()) {
        TagKind::EchoOk
    } else if bytes_eq(t, w_generate.as_slice()) {
        TagKind::Generate
    } else if bytes_eq(t, w_generate_ok.as_slice()) {
        TagKind::GenerateOk
    } else if bytes_eq(t, w_broadcast.as_slice()) {
        TagKind::Broadcast
    } else if bytes_eq(t, w_broadcast_ok.as_slice()) {
        TagKind::BroadcastOk
    } else if bytes_eq(t, w_read.as_slice()) {
        TagKind::Read
    } else if bytes_eq(t, w_read_ok.as_slice()) {
        TagKind::ReadOk
    } else if bytes_eq(t, w_topology.as_slice()) {
        TagKind::Topology
    } else if bytes_eq(t, w_topology_ok.as_slice()) {
        TagKind::TopologyOk
    } else {
        TagKind::Unknown
    }
}

} // verus!
