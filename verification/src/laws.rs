//! The protocol's laws, proved once and for all over the node's
//! transition relation `step_rel` — the same relation the executable
//! dispatcher is proved to realize.

use vstd::prelude::*;

use crate::message::{MessageView, PayloadView};
use crate::node::{correlatable, gen_id, step_rel, NodeStateView};

verus! {

/// Law: an answered `echo{echo: s}` request is replied to with
/// `echo_ok{echo: s}`, the very same string, and the state is untouched.
pub proof fn lemma_echo_roundtrip(
    pre: NodeStateView,
    m: MessageView,
    post: NodeStateView,
    reply: Option<MessageView>,
    e: Seq<u8>,
)
    requires
        step_rel(pre, m, post, reply),
        m.body.payload == (PayloadView::Echo { echo: e }),
        correlatable(m),
    ensures
        post == pre,
        reply is Some,
        reply.unwrap().body.payload == (PayloadView::EchoOk { echo: e }),
{
}

/// Law: every reply, of every request kind, is correlated: its
/// `in_reply_to` equals the request's `msg_id`, its `msg_id` is one
/// above it, and its endpoints are the request's swapped.
pub proof fn lemma_reply_correlation(
    pre: NodeStateView,
    m: MessageView,
    post: NodeStateView,
    reply: Option<MessageView>,
)
    requires
        step_rel(pre, m, post, reply),
        reply is Some,
    ensures
        reply.unwrap().body.in_reply_to == m.body.msg_id,
        reply.unwrap().body.msg_id == Some((m.body.msg_id.unwrap() + 1) as u64),
        reply.unwrap().src == m.dest,
        reply.unwrap().dest == m.src,
{
}

/// Law: a `broadcast` without a `message` member alters nothing and is
/// still acknowledged with `broadcast_ok`.
pub proof fn lemma_broadcast_absent_message(
    pre: NodeStateView,
    m: MessageView,
    post: NodeStateView,
    reply: Option<MessageView>,
)
    requires
        step_rel(pre, m, post, reply),
        m.body.payload == (PayloadView::Broadcast { message: None }),
        correlatable(m),
    ensures
        post == pre,
        reply is Some,
        reply.unwrap().body.payload == PayloadView::BroadcastOk,
{
}

/// Law: a `topology` request is acknowledged with `topology_ok`
/// whatever its mapping holds, the empty one included, and changes
/// nothing.
pub proof fn lemma_topology_acknowledged(
    pre: NodeStateView,
    m: MessageView,
    post: NodeStateView,
    reply: Option<MessageView>,
    t: Seq<(Seq<u8>, Seq<Seq<u8>>)>,
)
    requires
        step_rel(pre, m, post, reply),
        m.body.payload == (PayloadView::Topology { topology: t }),
        correlatable(m),
    ensures
        post == pre,
        reply is Some,
        reply.unwrap().body.payload == PayloadView::TopologyOk,
{
}

/// Law: a `read` returns a snapshot of the whole store as it stood
/// before the read, and changes nothing.
pub proof fn lemma_read_snapshot(
    pre: NodeStateView,
    m: MessageView,
    post: NodeStateView,
    reply: Option<MessageView>,
)
    requires
        step_rel(pre, m, post, reply),
        m.body.payload is Read,
        correlatable(m),
    ensures
        post == pre,
        reply is Some,
        reply.unwrap().body.payload == (PayloadView::ReadOk { messages: pre.messages }),
{
}

/// Distinct generation counts give distinct ids, whatever low bits were
/// sampled.
pub proof fn lemma_gen_id_injective(c1: u64, l1: u64, c2: u64, l2: u64)
    requires
        c1 != c2,
        c1 < 0x1_0000_0000,
        c2 < 0x1_0000_0000,
        l1 < 0x1_0000_0000,
        l2 < 0x1_0000_0000,
    ensures
        gen_id(c1, l1) != gen_id(c2, l2),
{
    assert(c1 * 0x1_0000_0000 + l1 != c2 * 0x1_0000_0000 + l2) by (nonlinear_arith)
        requires
            c1 != c2,
            l1 < 0x1_0000_0000,
            l2 < 0x1_0000_0000,
    ;
    assert(c1 * 0x1_0000_0000 + l1 <= 0xffff_ffffu64 * 0x1_0000_0000 + 0xffff_ffff)
        by (nonlinear_arith)
        requires
            c1 < 0x1_0000_0000,
            l1 < 0x1_0000_0000,
    ;
    assert(c2 * 0x1_0000_0000 + l2 <= 0xffff_ffffu64 * 0x1_0000_0000 + 0xffff_ffff)
        by (nonlinear_arith)
        requires
            c2 < 0x1_0000_0000,
            l2 < 0x1_0000_0000,
    ;
}

/// A run of the node: adjacent states are linked by one dispatched
/// message each, with its reply.
pub open spec fn valid_trace(
    states: Seq<NodeStateView>,
    msgs: Seq<MessageView>,
    replies: Seq<Option<MessageView>>,
) -> bool {
    &&& states.len() == msgs.len() + 1
    &&& replies.len() == msgs.len()
    &&& forall|i: int|
        0 <= i < msgs.len() ==> #[trigger] step_rel(states[i], msgs[i], states[i + 1], replies[i])
}

/// The step a run takes at position `i`.
pub proof fn trace_step(
    states: Seq<NodeStateView>,
    msgs: Seq<MessageView>,
    replies: Seq<Option<MessageView>>,
    i: int,
)
    requires
        valid_trace(states, msgs, replies),
        0 <= i < msgs.len(),
    ensures
        step_rel(states[i], msgs[i], states[i + 1], replies[i]),
{
}

/// No step lowers the generation count.
pub proof fn lemma_step_gen_monotone(
    pre: NodeStateView,
    m: MessageView,
    post: NodeStateView,
    reply: Option<MessageView>,
)
    requires
        step_rel(pre, m, post, reply),
    ensures
        pre.gen_count <= post.gen_count,
{
}

/// Along a run, the generation count never decreases.
pub proof fn lemma_trace_gen_monotone(
    states: Seq<NodeStateView>,
    msgs: Seq<MessageView>,
    replies: Seq<Option<MessageView>>,
    i: int,
    j: int,
)
    requires
        valid_trace(states, msgs, replies),
        0 <= i <= j < states.len(),
    ensures
        states[i].gen_count <= states[j].gen_count,
    decreases j - i,
{
    if i < j {
        lemma_trace_gen_monotone(states, msgs, replies, i, j - 1);
        trace_step(states, msgs, replies, j - 1);
        lemma_step_gen_monotone(states[j - 1], msgs[j - 1], states[j], replies[j - 1]);
    }
}

/// The id inside a `generate_ok` reply.
pub open spec fn generated_id(r: Option<MessageView>) -> u64 {
    match r {
        Some(x) => match x.body.payload {
            PayloadView::GenerateOk { id } => id,
            _ => 0,
        },
        None => 0,
    }
}

/// Law: the ids of any two answered `generate` requests in one run are
/// distinct, whatever was sampled for their low bits.
pub proof fn lemma_generate_ids_distinct(
    states: Seq<NodeStateView>,
    msgs: Seq<MessageView>,
    replies: Seq<Option<MessageView>>,
    i: int,
    j: int,
)
    requires
        valid_trace(states, msgs, replies),
        0 <= i < j < msgs.len(),
        msgs[i].body.payload is Generate,
        correlatable(msgs[i]),
        msgs[j].body.payload is Generate,
        correlatable(msgs[j]),
    ensures
        replies[i] is Some && replies[i].unwrap().body.payload is GenerateOk,
        replies[j] is Some && replies[j].unwrap().body.payload is GenerateOk,
        generated_id(replies[i]) != generated_id(replies[j]),
{
    trace_step(states, msgs, replies, i);
    trace_step(states, msgs, replies, j);
    let ci = states[i].gen_count;
    let cj = states[j].gen_count;
    let li = choose|l: u64|
        l < 0x1_0000_0000 && replies[i].unwrap().body.payload == (PayloadView::GenerateOk {
            id: gen_id(ci, l),
        });
    let lj = choose|l: u64|
        l < 0x1_0000_0000 && replies[j].unwrap().body.payload == (PayloadView::GenerateOk {
            id: gen_id(cj, l),
        });
    lemma_trace_gen_monotone(states, msgs, replies, i + 1, j);
    assert(states[i + 1].gen_count == ci + 1);
    assert(cj > ci);
    lemma_gen_id_injective(ci, li, cj, lj);
}

/// Law: a run of `broadcast{message: m1}` .. `broadcast{message: mk}`
/// appends exactly `[m1, .., mk]`, in order, to the store — no loss, no
/// deduplication, no reordering.
pub proof fn lemma_broadcast_sequence(
    states: Seq<NodeStateView>,
    msgs: Seq<MessageView>,
    replies: Seq<Option<MessageView>>,
    values: Seq<u64>,
)
    requires
        valid_trace(states, msgs, replies),
        msgs.len() == values.len(),
        forall|i: int|
            0 <= i < msgs.len() ==> (#[trigger] msgs[i].body.payload) == (PayloadView::Broadcast {
                message: Some(values[i]),
            }) && correlatable(msgs[i]),
    ensures
        states.last().messages == states.first().messages + values,
    decreases msgs.len(),
{
    if msgs.len() == 0 {
        assert(states.last() == states.first());
        assert(states.first().messages + values =~= states.first().messages);
    } else {
        trace_step(states, msgs, replies, 0);
        assert(states[1].messages == states[0].messages.push(values[0]));
        let st2 = states.drop_first();
        let ms2 = msgs.drop_first();
        let rp2 = replies.drop_first();
        let vs2 = values.drop_first();
        assert forall|i: int| 0 <= i < ms2.len() implies #[trigger] step_rel(
            st2[i],
            ms2[i],
            st2[i + 1],
            rp2[i],
        ) by {
            trace_step(states, msgs, replies, i + 1);
        }
        assert forall|i: int| 0 <= i < ms2.len() implies (#[trigger] ms2[i].body.payload)
            == (PayloadView::Broadcast { message: Some(vs2[i]) }) && correlatable(ms2[i]) by {
            assert(msgs[i + 1].body.payload == (PayloadView::Broadcast {
                message: Some(values[i + 1]),
            }) && correlatable(msgs[i + 1]));
        }
        lemma_broadcast_sequence(st2, ms2, rp2, vs2);
        assert(st2.last() == states.last());
        assert(st2.first() == states[1]);
        assert(states.last().messages =~= states.first().messages + values);
    }
}

/// Law: after any sequence of `broadcast` requests, a `read` replies
/// with exactly the values already stored followed by the broadcast
/// ones, in order.
pub proof fn lemma_broadcasts_then_read(
    states: Seq<NodeStateView>,
    msgs: Seq<MessageView>,
    replies: Seq<Option<MessageView>>,
    values: Seq<u64>,
    rm: MessageView,
    rpost: NodeStateView,
    rreply: Option<MessageView>,
)
    requires
        valid_trace(states, msgs, replies),
        msgs.len() == values.len(),
        forall|i: int|
            0 <= i < msgs.len() ==> (#[trigger] msgs[i].body.payload) == (PayloadView::Broadcast {
                message: Some(values[i]),
            }) && correlatable(msgs[i]),
        step_rel(states.last(), rm, rpost, rreply),
        rm.body.payload is Read,
        correlatable(rm),
    ensures
        rreply is Some,
        rreply.unwrap().body.payload == (PayloadView::ReadOk {
            messages: states.first().messages + values,
        }),
{
    lemma_broadcast_sequence(states, msgs, replies, values);
}

} // verus!
