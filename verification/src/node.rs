//! The node itself: its identity and state, the handshake, and the
//! dispatcher that answers one decoded request at a time.
//!
//! `step_rel` is the node's transition relation: it says, for every
//! payload kind, what the next state is and what reply (if any) goes out.
//! The executable dispatcher is proved to realize it, and the protocol's
//! laws are proved from it.

use vstd::prelude::*;

use crate::decode::{parse_message, spec_parse_message};
use crate::encode::{encode_message, spec_encode_message};
use crate::message::{
    is_handled_request, Body, BodyView, Message, MessageView, Payload, PayloadView,
};

verus! {

/// Relies on rand::random: a value sampled from the Standard
/// distribution. Nothing is promised of it; uniqueness of generated ids
/// never rests on it.
pub assume_specification<T>[ rand::random::<T> ]() -> (r: T)
    where
        rand::distributions::Standard: rand::distributions::Distribution<T>,
;

/// The node's process-lifetime state: its identity from the handshake,
/// the broadcast store, and the count of `generate` requests answered.
#[derive(Debug)]
pub struct NodeState {
    pub node_id: Vec<u8>,
    pub node_ids: Vec<Vec<u8>>,
    pub messages: Vec<u64>,
    pub gen_count: u64,
}

pub ghost struct NodeStateView {
    pub node_id: Seq<u8>,
    pub node_ids: Seq<Seq<u8>>,
    pub messages: Seq<u64>,
    pub gen_count: u64,
}

impl View for NodeState {
    type V = NodeStateView;

    open spec fn view(&self) -> NodeStateView {
        NodeStateView {
            node_id: self.node_id@,
            node_ids: self.node_ids.deep_view(),
            messages: self.messages@,
            gen_count: self.gen_count,
        }
    }
}

impl NodeState {
    /// A fresh node as the handshake leaves it: identity recorded, no
    /// broadcast values seen, no ids generated.
    pub fn new(node_id: Vec<u8>, node_ids: Vec<Vec<u8>>) -> (r: Self)
        ensures
            r@ == (NodeStateView {
                node_id: node_id@,
                node_ids: node_ids.deep_view(),
                messages: Seq::<u64>::empty(),
                gen_count: 0,
            }),
    {
        let r = NodeState { node_id, node_ids, messages: Vec::new(), gen_count: 0 };
        proof {
            assert(r.messages@ =~= Seq::<u64>::empty());
        }
        r
    }

    /// Appends one broadcast value to the store: never fails, keeps
    /// insertion order, touches nothing else.
    pub fn append(&mut self, v: u64)
        ensures
            final(self)@ == (NodeStateView { messages: old(self)@.messages.push(v), ..old(self)@ }),
    {
        self.messages.push(v);
    }

    /// A full copy of the store, in insertion order, as of this call.
    pub fn snapshot(&self) -> (r: Vec<u64>)
        ensures
            r@ == self@.messages,
    {
        let mut r: Vec<u64> = Vec::new();
        let mut i: usize = 0;
        while i < self.messages.len()
            invariant
                i <= self.messages@.len(),
                r@ == self.messages@.subrange(0, i as int),
            decreases self.messages@.len() - i,
        {
            r.push(self.messages[i]);
            proof {
                assert(r@ =~= self.messages@.subrange(0, (i + 1) as int));
            }
            i = i + 1;
        }
        proof {
            assert(self.messages@.subrange(0, self.messages@.len() as int) =~= self.messages@);
        }
        r
    }
}

/// A request can be answered only when it carries a `msg_id`, and the
/// reply's fresh id `msg_id + 1` must still fit.
pub open spec fn correlatable(m: MessageView) -> bool {
    m.body.msg_id is Some && m.body.msg_id.unwrap() < u64::MAX
}

/// A generated id: the count of earlier `generate` replies in the high
/// bits, a sampled value in the low bits. Distinct counts give distinct
/// ids whatever was sampled.
pub open spec fn gen_id(count: u64, low: u64) -> u64 {
    (count * 0x1_0000_0000 + low) as u64
}

/// The correlation part every reply shares: swapped endpoints, fresh
/// `msg_id`, `in_reply_to` echoing the request's id.
pub open spec fn reply_correlated(m: MessageView, r: MessageView) -> bool {
    &&& r.src == m.dest
    &&& r.dest == m.src
    &&& r.body.msg_id == Some((m.body.msg_id.unwrap() + 1) as u64)
    &&& r.body.in_reply_to == m.body.msg_id
}

/// The node's transition relation: given the state before and a decoded
/// message, which state after and which reply are allowed. Everything is
/// determined except the sampled low bits of a generated id.
pub open spec fn step_rel(
    pre: NodeStateView,
    m: MessageView,
    post: NodeStateView,
    reply: Option<MessageView>,
) -> bool {
    if !(is_handled_request(m.body.payload) && correlatable(m)) {
        post == pre && reply is None
    } else {
        reply is Some && reply_correlated(m, reply.unwrap()) && {
            let r = reply.unwrap();
            match m.body.payload {
                PayloadView::Echo { echo } => post == pre && r.body.payload
                    == (PayloadView::EchoOk { echo }),
                PayloadView::Generate => post == (NodeStateView {
                    gen_count: (pre.gen_count + 1) as u64,
                    ..pre
                }) && pre.gen_count < 0xffff_ffff && exists|low: u64|
                    low < 0x1_0000_0000 && r.body.payload == (PayloadView::GenerateOk {
                        id: gen_id(pre.gen_count, low),
                    }),
                PayloadView::Broadcast { message } => r.body.payload == PayloadView::BroadcastOk
                    && match message {
                    Some(v) => post == (NodeStateView { messages: pre.messages.push(v), ..pre }),
                    None => post == pre,
                },
                PayloadView::Read => post == pre && r.body.payload == (PayloadView::ReadOk {
                    messages: pre.messages,
                }),
                PayloadView::Topology { .. } => post == pre && r.body.payload
                    == PayloadView::TopologyOk,
                _ => false,
            }
        }
    }
}

/// Executable check for the request kinds the dispatcher answers.
fn is_handled(p: &Payload) -> (r: bool)
    ensures
        r == is_handled_request(p@),
{
    match p {
        Payload::Echo { .. } => true,
        Payload::Generate => true,
        Payload::Broadcast { .. } => true,
        Payload::Read => true,
        Payload::Topology { .. } => true,
        _ => false,
    }
}

pub open spec fn opt_msg_view(r: Option<Message>) -> Option<MessageView> {
    match r {
        Some(x) => Some(x@),
        None => None,
    }
}

/// Answers one decoded message in the Ready state: mutates the store on
/// `broadcast`, counts `generate`, and returns the correlated reply, or
/// nothing for unanswered kinds and for requests without a usable
/// `msg_id`.
pub fn handle(st: &mut NodeState, m: Message) -> (r: Option<Message>)
    requires
        old(st).gen_count < 0xffff_ffff || !(m.body.payload@ is Generate),
    ensures
        step_rel(old(st)@, m@, final(st)@, opt_msg_view(r)),
{
    if !is_handled(&m.body.payload) {
        return None;
    }
    let n: u64 = match m.body.msg_id {
        Some(n) => n,
        None => {
            return None;
        },
    };
    if n == u64::MAX {
        return None;
    }
    let ghost pre = old(st)@;
    let ghost mv = m@;
    let reply = m.new_reply();
    let Message { src, dest, body } = reply;
    let Body { msg_id, in_reply_to, payload } = body;
    let new_payload = match payload {
        Payload::Echo { echo } => Payload::EchoOk { echo },
        Payload::Generate => {
            let low: u32 = rand::random();
            let id: u64 = st.gen_count * 0x1_0000_0000 + (low as u64);
            st.gen_count = st.gen_count + 1;
            proof {
                assert((low as u64) < 0x1_0000_0000);
                assert(id == gen_id(pre.gen_count, low as u64));
                assert(exists|l: u64| l < 0x1_0000_0000 && id == gen_id(pre.gen_count, l));
            }
            Payload::GenerateOk { id }
        },
        Payload::Broadcast { message } => {
            match message {
                Some(v) => {
                    st.append(v);
                },
                None => {},
            }
            Payload::BroadcastOk
        },
        Payload::Read => Payload::ReadOk { messages: st.snapshot() },
        Payload::Topology { .. } => Payload::TopologyOk,
        other => {
            proof {
                assert(is_handled_request(mv.body.payload));
                assert(false);
            }
            other
        },
    };
    let out = Message { src, dest, body: Body { msg_id, in_reply_to, payload: new_payload } };
    proof {
        assert(reply_correlated(mv, out@));
        assert(step_rel(pre, mv, st@, Some(out@)));
    }
    Some(out)
}

/// Why the handshake failed.
#[derive(Debug, PartialEq, Eq, Structural)]
pub enum InitError {
    /// The first line does not decode as any known message.
    Malformed,
    /// The first line decodes, but its payload is not `init`.
    NotInit,
    /// An `init` without a usable `msg_id` cannot be answered.
    Uncorrelated,
}

/// The one reply the handshake owes: `init_ok`, correlated to the
/// `init` request.
pub open spec fn init_ok_reply(m: MessageView) -> MessageView {
    MessageView {
        src: m.dest,
        dest: m.src,
        body: BodyView {
            msg_id: Some((m.body.msg_id.unwrap() + 1) as u64),
            in_reply_to: m.body.msg_id,
            payload: PayloadView::InitOk,
        },
    }
}

/// Consumes the first input line. Exactly when it is an `init` request
/// with a usable `msg_id`, the node's state is created from it and the
/// single `init_ok` reply line is returned; every other first line is a
/// fatal protocol error, and which one the error says.
pub fn handle_init(line: &[u8]) -> (r: Result<(NodeState, Vec<u8>), InitError>)
    ensures
        match spec_parse_message(line@) {
            None => r == Err::<(NodeState, Vec<u8>), InitError>(InitError::Malformed),
            Some(m) => match m.body.payload {
                PayloadView::Init { node_id, node_ids } => {
                    if correlatable(m) {
                        r matches Ok(p) && p.0@ == (NodeStateView {
                            node_id,
                            node_ids,
                            messages: Seq::<u64>::empty(),
                            gen_count: 0,
                        }) && p.1@ == spec_encode_message(init_ok_reply(m))
                    } else {
                        r == Err::<(NodeState, Vec<u8>), InitError>(InitError::Uncorrelated)
                    }
                },
                _ => r == Err::<(NodeState, Vec<u8>), InitError>(InitError::NotInit),
            },
        },
{
    let msg = match parse_message(line) {
        Some(msg) => msg,
        None => {
            return Err(InitError::Malformed);
        },
    };
    let Message { src, dest, body } = msg;
    let Body { msg_id, in_reply_to: _, payload } = body;
    match payload {
        Payload::Init { node_id, node_ids } => {
            let n: u64 = match msg_id {
                Some(n) => n,
                None => {
                    return Err(InitError::Uncorrelated);
                },
            };
            if n == u64::MAX {
                return Err(InitError::Uncorrelated);
            }
            let st = NodeState::new(node_id, node_ids);
            let reply = Message {
                src: dest,
                dest: src,
                body: Body { msg_id: Some(n + 1), in_reply_to: Some(n), payload: Payload::InitOk },
            };
            let out = encode_message(&reply);
            Ok((st, out))
        },
        _ => Err(InitError::NotInit),
    }
}

/// What one steady-state input line came to.
#[derive(Debug)]
pub enum LineOutcome {
    /// An answerable request: this reply line goes out.
    Reply(Vec<u8>),
    /// A recognized but unanswered kind (a reply, or a late `init`):
    /// silence, not an error.
    Ignored,
    /// Undecodable, or a request that cannot be correlated: the line is
    /// dropped and a diagnostic is in order.
    Discarded,
}

/// One steady-state line, end to end: decode, dispatch, encode. A line
/// that decodes to an answerable request yields exactly one reply line
/// and the step's state change; any other line yields no reply and
/// leaves the state as it was, and the outcome says whether that is
/// silence or a discarded fault.
pub fn process_line(st: &mut NodeState, line: &[u8]) -> (r: LineOutcome)
    requires
        old(st).gen_count < 0xffff_ffff,
    ensures
        match spec_parse_message(line@) {
            None => r is Discarded && final(st)@ == old(st)@,
            Some(m) => if !is_handled_request(m.body.payload) {
                r is Ignored && final(st)@ == old(st)@
            } else if !correlatable(m) {
                r is Discarded && final(st)@ == old(st)@
            } else {
                r is Reply && exists|rv: MessageView|
                    #[trigger] step_rel(old(st)@, m, final(st)@, Some(rv)) && r->0@
                        == spec_encode_message(rv)
            },
        },
{
    let msg = match parse_message(line) {
        Some(msg) => msg,
        None => {
            return LineOutcome::Discarded;
        },
    };
    if !is_handled(&msg.body.payload) {
        return LineOutcome::Ignored;
    }
    let ghost mv = msg@;
    match handle(st, msg) {
        Some(reply) => {
            let ghost rv = reply@;
            let out = encode_message(&reply);
            proof {
                assert(step_rel(old(st)@, mv, st@, Some(rv)));
            }
            LineOutcome::Reply(out)
        },
        None => LineOutcome::Discarded,
    }
}

} // verus!
