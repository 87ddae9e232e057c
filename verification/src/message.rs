//! The wire envelope and its typed payloads.
//!
//! A `Message` is the `{src, dest, body}` record carried by one input or
//! output line; its `Body` holds the correlation ids and one `Payload`
//! variant. Node identifiers and echoed strings are kept as the raw bytes
//! of their JSON string content, so replies return them unchanged.

use vstd::prelude::*;

verus! {

/// The closed set of payload kinds: one variant per request and one per
/// reply.
#[derive(Debug, PartialEq, Eq)]
pub enum Payload {
    Init { node_id: Vec<u8>, node_ids: Vec<Vec<u8>> },
    InitOk,
    Echo { echo: Vec<u8> },
    EchoOk { echo: Vec<u8> },
    Generate,
    GenerateOk { id: u64 },
    Broadcast { message: Option<u64> },
    BroadcastOk,
    Read,
    ReadOk { messages: Vec<u64> },
    Topology { topology: Vec<(Vec<u8>, Vec<Vec<u8>>)> },
    TopologyOk,
}

/// Mathematical model of a payload.
pub ghost enum PayloadView {
    Init { node_id: Seq<u8>, node_ids: Seq<Seq<u8>> },
    InitOk,
    Echo { echo: Seq<u8> },
    EchoOk { echo: Seq<u8> },
    Generate,
    GenerateOk { id: u64 },
    Broadcast { message: Option<u64> },
    BroadcastOk,
    Read,
    ReadOk { messages: Seq<u64> },
    Topology { topology: Seq<(Seq<u8>, Seq<Seq<u8>>)> },
    TopologyOk,
}

impl View for Payload {
    type V = PayloadView;

    open spec fn view(&self) -> PayloadView {
        match self {
            Payload::Init { node_id, node_ids } => PayloadView::Init {
                node_id: node_id@,
                node_ids: node_ids.deep_view(),
            },
            Payload::InitOk => PayloadView::InitOk,
            Payload::Echo { echo } => PayloadView::Echo { echo: echo@ },
            Payload::EchoOk { echo } => PayloadView::EchoOk { echo: echo@ },
            Payload::Generate => PayloadView::Generate,
            Payload::GenerateOk { id } => PayloadView::GenerateOk { id: *id },
            Payload::Broadcast { message } => PayloadView::Broadcast { message: *message },
            Payload::BroadcastOk => PayloadView::BroadcastOk,
            Payload::Read => PayloadView::Read,
            Payload::ReadOk { messages } => PayloadView::ReadOk { messages: messages@ },
            Payload::Topology { topology } => PayloadView::Topology {
                topology: topology.deep_view(),
            },
            Payload::TopologyOk => PayloadView::TopologyOk,
        }
    }
}

/// The envelope body: correlation ids beside the typed payload.
#[derive(Debug, PartialEq, Eq)]
pub struct Body {
    pub msg_id: Option<u64>,
    pub in_reply_to: Option<u64>,
    pub payload: Payload,
}

pub ghost struct BodyView {
    pub msg_id: Option<u64>,
    pub in_reply_to: Option<u64>,
    pub payload: PayloadView,
}

impl View for Body {
    type V = BodyView;

    open spec fn view(&self) -> BodyView {
        BodyView { msg_id: self.msg_id, in_reply_to: self.in_reply_to, payload: self.payload@ }
    }
}

/// One wire record: sender, recipient and body.
#[derive(Debug, PartialEq, Eq)]
pub struct Message {
    pub src: Vec<u8>,
    pub dest: Vec<u8>,
    pub body: Body,
}

pub ghost struct MessageView {
    pub src: Seq<u8>,
    pub dest: Seq<u8>,
    pub body: BodyView,
}

impl View for Message {
    type V = MessageView;

    open spec fn view(&self) -> MessageView {
        MessageView { src: self.src@, dest: self.dest@, body: self.body@ }
    }
}

impl Message {
    /// Turns a request into the skeleton of its reply: `src` and `dest`
    /// swapped, a fresh `msg_id` one above the request's, `in_reply_to` set
    /// to the request's `msg_id`, and the payload carried over unchanged
    /// (the caller replaces it with the reply variant).
    ///
    /// A request without a `msg_id` cannot be correlated, so one is
    /// required here; callers treat its absence as a decode error.
    pub fn new_reply(self) -> (r: Self)
        requires
            self.body.msg_id is Some,
            self.body.msg_id.unwrap() < u64::MAX,
        ensures
            r.src@ == self.dest@,
            r.dest@ == self.src@,
            r.body.msg_id == Some((self.body.msg_id.unwrap() + 1) as u64),
            r.body.in_reply_to == self.body.msg_id,
            r.body.payload@ == self.body.payload@,
    {
        let n = match self.body.msg_id {
            Some(n) => n,
            None => 0,
        };
        Message {
            src: self.dest,
            dest: self.src,
            body: Body {
                msg_id: Some(n + 1),
                in_reply_to: self.body.msg_id,
                payload: self.body.payload,
            },
        }
    }
}

/// The request kinds the dispatcher answers. `init` is not among them:
/// it is consumed once by the handshake, and ignored afterwards, as are
/// all reply kinds.
pub open spec fn is_handled_request(p: PayloadView) -> bool {
    match p {
        PayloadView::Echo { .. } => true,
        PayloadView::Generate => true,
        PayloadView::Broadcast { .. } => true,
        PayloadView::Read => true,
        PayloadView::Topology { .. } => true,
        _ => false,
    }
}

} // verus!
