//! The line decoder: one JSON object per line, `{"src": .., "dest": ..,
//! "body": {..}}`, with the body's `type` tag selecting the payload
//! variant and its remaining members supplying the variant's fields.
//!
//! The grammar is exactly the declared shapes: members may come in any
//! order, each recognized key at most once and with its declared value
//! type, every key must be recognized, and required members must be
//! present. Anything else fails the line, and the dispatcher discards it.

use vstd::prelude::*;

use crate::bytes::{parse_u64, skip_ws, spec_parse_u64, spec_skip_ws};
use crate::json::{
    bump, parse_opt_u64, parse_str_array, parse_string, parse_topology, parse_u64_array,
    spec_parse_opt_u64, spec_parse_str_array, spec_parse_string, spec_parse_topology,
    spec_parse_u64_array,
};
use crate::keys::{
    body_key, env_key, spec_body_key, spec_env_key, spec_tag_kind, tag_kind, BodyKey, EnvKey,
    TagKind,
};
use crate::message::{Body, BodyView, Message, MessageView, Payload, PayloadView};

verus! {

/// What the body object's members have supplied so far: each recognized
/// key's value, if the key has been seen. `msg_id`, `in_reply_to` and
/// `message` distinguish a member written as `null` (seen, no value)
/// from an absent member.
pub struct BodySlots {
    pub msg_id: Option<Option<u64>>,
    pub in_reply_to: Option<Option<u64>>,
    pub ty: Option<Vec<u8>>,
    pub node_id: Option<Vec<u8>>,
    pub node_ids: Option<Vec<Vec<u8>>>,
    pub echo: Option<Vec<u8>>,
    pub message: Option<Option<u64>>,
    pub messages: Option<Vec<u64>>,
    pub gen_id: Option<u64>,
    pub topology: Option<Vec<(Vec<u8>, Vec<Vec<u8>>)>>,
}

pub ghost struct BodySlotsView {
    pub msg_id: Option<Option<u64>>,
    pub in_reply_to: Option<Option<u64>>,
    pub ty: Option<Seq<u8>>,
    pub node_id: Option<Seq<u8>>,
    pub node_ids: Option<Seq<Seq<u8>>>,
    pub echo: Option<Seq<u8>>,
    pub message: Option<Option<u64>>,
    pub messages: Option<Seq<u64>>,
    pub gen_id: Option<u64>,
    pub topology: Option<Seq<(Seq<u8>, Seq<Seq<u8>>)>>,
}

impl View for BodySlots {
    type V = BodySlotsView;

    open spec fn view(&self) -> BodySlotsView {
        BodySlotsView {
            msg_id: self.msg_id,
            in_reply_to: self.in_reply_to,
            ty: match &self.ty {
                Some(v) => Some(v@),
                None => None,
            },
            node_id: match &self.node_id {
                Some(v) => Some(v@),
                None => None,
            },
            node_ids: match &self.node_ids {
                Some(v) => Some(v.deep_view()),
                None => None,
            },
            echo: match &self.echo {
                Some(v) => Some(v@),
                None => None,
            },
            message: self.message,
            messages: match &self.messages {
                Some(v) => Some(v@),
                None => None,
            },
            gen_id: self.gen_id,
            topology: match &self.topology {
                Some(v) => Some(v.deep_view()),
                None => None,
            },
        }
    }
}

pub open spec fn spec_empty_body_slots() -> BodySlotsView {
    BodySlotsView {
        msg_id: None,
        in_reply_to: None,
        ty: None,
        node_id: None,
        node_ids: None,
        echo: None,
        message: None,
        messages: None,
        gen_id: None,
        topology: None,
    }
}

fn empty_body_slots() -> (r: BodySlots)
    ensures
        r@ == spec_empty_body_slots(),
{
    BodySlots {
        msg_id: None,
        in_reply_to: None,
        ty: None,
        node_id: None,
        node_ids: None,
        echo: None,
        message: None,
        messages: None,
        gen_id: None,
        topology: None,
    }
}

/// One recognized body member's value, parsed at `n` by the key's declared
/// type and stored into its slot; a repeated or unrecognized key fails.
pub open spec fn spec_body_value(s: Seq<u8>, n: int, key: Seq<u8>, sl: BodySlotsView) -> Option<
    (BodySlotsView, int),
> {
    match spec_body_key(key) {
        BodyKey::MsgId => if sl.msg_id is Some {
            None
        } else {
            match spec_parse_opt_u64(s, n) {
                Some((v, p)) => Some((BodySlotsView { msg_id: Some(v), ..sl }, p)),
                None => None,
            }
        },
        BodyKey::InReplyTo => if sl.in_reply_to is Some {
            None
        } else {
            match spec_parse_opt_u64(s, n) {
                Some((v, p)) => Some((BodySlotsView { in_reply_to: Some(v), ..sl }, p)),
                None => None,
            }
        },
        BodyKey::Ty => if sl.ty is Some {
            None
        } else {
            match spec_parse_string(s, n) {
                Some((v, p)) => Some((BodySlotsView { ty: Some(v), ..sl }, p)),
                None => None,
            }
        },
        BodyKey::NodeId => if sl.node_id is Some {
            None
        } else {
            match spec_parse_string(s, n) {
                Some((v, p)) => Some((BodySlotsView { node_id: Some(v), ..sl }, p)),
                None => None,
            }
        },
        BodyKey::NodeIds => if sl.node_ids is Some {
            None
        } else {
            match spec_parse_str_array(s, n) {
                Some((v, p)) => Some((BodySlotsView { node_ids: Some(v), ..sl }, p)),
                None => None,
            }
        },
        BodyKey::Echo => if sl.echo is Some {
            None
        } else {
            match spec_parse_string(s, n) {
                Some((v, p)) => Some((BodySlotsView { echo: Some(v), ..sl }, p)),
                None => None,
            }
        },
        BodyKey::Message => if sl.message is Some {
            None
        } else {
            match spec_parse_opt_u64(s, n) {
                Some((v, p)) => Some((BodySlotsView { message: Some(v), ..sl }, p)),
                None => None,
            }
        },
        BodyKey::Messages => if sl.messages is Some {
            None
        } else {
            match spec_parse_u64_array(s, n) {
                Some((v, p)) => Some((BodySlotsView { messages: Some(v), ..sl }, p)),
                None => None,
            }
        },
        BodyKey::Id => if sl.gen_id is Some {
            None
        } else {
            match spec_parse_u64(s, n) {
                Some((v, p)) => Some((BodySlotsView { gen_id: Some(v), ..sl }, p)),
                None => None,
            }
        },
        BodyKey::Topology => if sl.topology is Some {
            None
        } else {
            match spec_parse_topology(s, n) {
                Some((v, p)) => Some((BodySlotsView { topology: Some(v), ..sl }, p)),
                None => None,
            }
        },
        BodyKey::Unknown => None,
    }
}

fn body_value(s: &[u8], n: usize, key: &Vec<u8>, sl: BodySlots) -> (r: Option<(BodySlots, usize)>)
    requires
        n <= s@.len(),
    ensures
        match r {
            Some((sl2, p)) => spec_body_value(s@, n as int, key@, sl@) == Some((sl2@, p as int))
                && n < p <= s@.len(),
            None => spec_body_value(s@, n as int, key@, sl@) is None,
        },
{
    match body_key(key.as_slice()) {
        BodyKey::MsgId => {
            if sl.msg_id.is_some() {
                return None;
            }
            match parse_opt_u64(s, n) {
                Some((v, p)) => Some((BodySlots { msg_id: Some(v), ..sl }, p)),
                None => None,
            }
        },
        BodyKey::InReplyTo => {
            if sl.in_reply_to.is_some() {
                return None;
            }
            match parse_opt_u64(s, n) {
                Some((v, p)) => Some((BodySlots { in_reply_to: Some(v), ..sl }, p)),
                None => None,
            }
        },
        BodyKey::Ty => {
            if sl.ty.is_some() {
                return None;
            }
            match parse_string(s, n) {
                Some((v, p)) => Some((BodySlots { ty: Some(v), ..sl }, p)),
                None => None,
            }
        },
        BodyKey::NodeId => {
            if sl.node_id.is_some() {
                return None;
            }
            match parse_string(s, n) {
                Some((v, p)) => Some((BodySlots { node_id: Some(v), ..sl }, p)),
                None => None,
            }
        },
        BodyKey::NodeIds => {
            if sl.node_ids.is_some() {
                return None;
            }
            match parse_str_array(s, n) {
                Some((v, p)) => Some((BodySlots { node_ids: Some(v), ..sl }, p)),
                None => None,
            }
        },
        BodyKey::Echo => {
            if sl.echo.is_some() {
                return None;
            }
            match parse_string(s, n) {
                Some((v, p)) => Some((BodySlots { echo: Some(v), ..sl }, p)),
                None => None,
            }
        },
        BodyKey::Message => {
            if sl.message.is_some() {
                return None;
            }
            match parse_opt_u64(s, n) {
                Some((v, p)) => Some((BodySlots { message: Some(v), ..sl }, p)),
                None => None,
            }
        },
        BodyKey::Messages => {
            if sl.messages.is_some() {
                return None;
            }
            match parse_u64_array(s, n) {
                Some((v, p)) => Some((BodySlots { messages: Some(v), ..sl }, p)),
                None => None,
            }
        },
        BodyKey::Id => {
            if sl.gen_id.is_some() {
                return None;
            }
            match parse_u64(s, n) {
                Some((v, p)) => Some((BodySlots { gen_id: Some(v), ..sl }, p)),
                None => None,
            }
        },
        BodyKey::Topology => {
            if sl.topology.is_some() {
                return None;
            }
            match parse_topology(s, n) {
                Some((v, p)) => Some((BodySlots { topology: Some(v), ..sl }, p)),
                None => None,
            }
        },
        BodyKey::Unknown => None,
    }
}

/// One or more `"key": value` members of the body object, followed by `}`.
pub open spec fn spec_body_members(s: Seq<u8>, i: int, sl: BodySlotsView) -> Option<
    (BodySlotsView, int),
>
    decreases s.len() - i,
{
    if !(0 <= i < s.len()) {
        None
    } else {
        let j = spec_skip_ws(s, i);
        match spec_parse_string(s, j) {
            None => None,
            Some((key, k)) => {
                let m = spec_skip_ws(s, k);
                if !(m < s.len() && s[m] == 0x3a) {
                    None
                } else {
                    let n = spec_skip_ws(s, m + 1);
                    match spec_body_value(s, n, key, sl) {
                        None => None,
                        Some((sl2, p)) => {
                            let q = spec_skip_ws(s, p);
                            if q < s.len() && s[q] == 0x7d {
                                Some((sl2, q + 1))
                            } else if q < s.len() && s[q] == 0x2c {
                                spec_body_members(s, bump(s, i, q + 1), sl2)
                            } else {
                                None
                            }
                        },
                    }
                }
            },
        }
    }
}

fn body_members(s: &[u8], i: usize, sl: BodySlots) -> (r: Option<(BodySlots, usize)>)
    requires
        i <= s@.len(),
    ensures
        match r {
            Some((sl2, j)) => spec_body_members(s@, i as int, sl@) == Some((sl2@, j as int)) && i
                < j <= s@.len(),
            None => spec_body_members(s@, i as int, sl@) is None,
        },
    decreases s@.len() - i,
{
    if i >= s.len() {
        return None;
    }
    let j = skip_ws(s, i);
    match parse_string(s, j) {
        None => None,
        Some((key, k)) => {
            let m = skip_ws(s, k);
            if !(m < s.len() && s[m] == 0x3a) {
                return None;
            }
            let n = skip_ws(s, m + 1);
            match body_value(s, n, &key, sl) {
                None => None,
                Some((sl2, p)) => {
                    let q = skip_ws(s, p);
                    if q < s.len() && s[q] == 0x7d {
                        Some((sl2, q + 1))
                    } else if q < s.len() && s[q] == 0x2c {
                        proof {
                            assert(bump(s@, i as int, q + 1) == q + 1);
                        }
                        body_members(s, q + 1, sl2)
                    } else {
                        None
                    }
                },
            }
        },
    }
}

/// The body object at `n` (which must hold `{`): its recognized members,
/// collected into slots.
pub open spec fn spec_parse_body(s: Seq<u8>, n: int) -> Option<(BodySlotsView, int)> {
    if 0 <= n < s.len() && s[n] == 0x7b {
        let j = spec_skip_ws(s, n + 1);
        if j < s.len() && s[j] == 0x7d {
            Some((spec_empty_body_slots(), j + 1))
        } else {
            spec_body_members(s, n + 1, spec_empty_body_slots())
        }
    } else {
        None
    }
}

fn parse_body(s: &[u8], n: usize) -> (r: Option<(BodySlots, usize)>)
    requires
        n <= s@.len(),
    ensures
        match r {
            Some((sl, j)) => spec_parse_body(s@, n as int) == Some((sl@, j as int)) && n < j
                <= s@.len(),
            None => spec_parse_body(s@, n as int) is None,
        },
{
    if n >= s.len() || s[n] != 0x7b {
        return None;
    }
    let j = skip_ws(s, n + 1);
    if j < s.len() && s[j] == 0x7d {
        Some((empty_body_slots(), j + 1))
    } else {
        body_members(s, n + 1, empty_body_slots())
    }
}

/// What the envelope object's members have supplied so far.
pub struct EnvSlots {
    pub src: Option<Vec<u8>>,
    pub dest: Option<Vec<u8>>,
    pub body: Option<BodySlots>,
}

pub ghost struct EnvSlotsView {
    pub src: Option<Seq<u8>>,
    pub dest: Option<Seq<u8>>,
    pub body: Option<BodySlotsView>,
}

impl View for EnvSlots {
    type V = EnvSlotsView;

    open spec fn view(&self) -> EnvSlotsView {
        EnvSlotsView {
            src: match &self.src {
                Some(v) => Some(v@),
                None => None,
            },
            dest: match &self.dest {
                Some(v) => Some(v@),
                None => None,
            },
            body: match &self.body {
                Some(v) => Some(v@),
                None => None,
            },
        }
    }
}

pub open spec fn spec_empty_env_slots() -> EnvSlotsView {
    EnvSlotsView { src: None, dest: None, body: None }
}

/// One recognized envelope member's value at `n`.
pub open spec fn spec_env_value(s: Seq<u8>, n: int, key: Seq<u8>, sl: EnvSlotsView) -> Option<
    (EnvSlotsView, int),
> {
    match spec_env_key(key) {
        EnvKey::Src => if sl.src is Some {
            None
        } else {
            match spec_parse_string(s, n) {
                Some((v, p)) => Some((EnvSlotsView { src: Some(v), ..sl }, p)),
                None => None,
            }
        },
        EnvKey::Dest => if sl.dest is Some {
            None
        } else {
            match spec_parse_string(s, n) {
                Some((v, p)) => Some((EnvSlotsView { dest: Some(v), ..sl }, p)),
                None => None,
            }
        },
        EnvKey::BodyField => if sl.body is Some {
            None
        } else {
            match spec_parse_body(s, n) {
                Some((v, p)) => Some((EnvSlotsView { body: Some(v), ..sl }, p)),
                None => None,
            }
        },
        EnvKey::Unknown => None,
    }
}

fn env_value(s: &[u8], n: usize, key: &Vec<u8>, sl: EnvSlots) -> (r: Option<(EnvSlots, usize)>)
    requires
        n <= s@.len(),
    ensures
        match r {
            Some((sl2, p)) => spec_env_value(s@, n as int, key@, sl@) == Some((sl2@, p as int))
                && n < p <= s@.len(),
            None => spec_env_value(s@, n as int, key@, sl@) is None,
        },
{
    match env_key(key.as_slice()) {
        EnvKey::Src => {
            if sl.src.is_some() {
                return None;
            }
            match parse_string(s, n) {
                Some((v, p)) => Some((EnvSlots { src: Some(v), ..sl }, p)),
                None => None,
            }
        },
        EnvKey::Dest => {
            if sl.dest.is_some() {
                return None;
            }
            match parse_string(s, n) {
                Some((v, p)) => Some((EnvSlots { dest: Some(v), ..sl }, p)),
                None => None,
            }
        },
        EnvKey::BodyField => {
            if sl.body.is_some() {
                return None;
            }
            match parse_body(s, n) {
                Some((v, p)) => Some((EnvSlots { body: Some(v), ..sl }, p)),
                None => None,
            }
        },
        EnvKey::Unknown => None,
    }
}

/// One or more `"key": value` members of the envelope object, followed
/// by `}`.
pub open spec fn spec_env_members(s: Seq<u8>, i: int, sl: EnvSlotsView) -> Option<
    (EnvSlotsView, int),
>
    decreases s.len() - i,
{
    if !(0 <= i < s.len()) {
        None
    } else {
        let j = spec_skip_ws(s, i);
        match spec_parse_string(s, j) {
            None => None,
            Some((key, k)) => {
                let m = spec_skip_ws(s, k);
                if !(m < s.len() && s[m] == 0x3a) {
                    None
                } else {
                    let n = spec_skip_ws(s, m + 1);
                    match spec_env_value(s, n, key, sl) {
                        None => None,
                        Some((sl2, p)) => {
                            let q = spec_skip_ws(s, p);
                            if q < s.len() && s[q] == 0x7d {
                                Some((sl2, q + 1))
                            } else if q < s.len() && s[q] == 0x2c {
                                spec_env_members(s, bump(s, i, q + 1), sl2)
                            } else {
                                None
                            }
                        },
                    }
                }
            },
        }
    }
}

fn env_members(s: &[u8], i: usize, sl: EnvSlots) -> (r: Option<(EnvSlots, usize)>)
    requires
        i <= s@.len(),
    ensures
        match r {
            Some((sl2, j)) => spec_env_members(s@, i as int, sl@) == Some((sl2@, j as int)) && i
                < j <= s@.len(),
            None => spec_env_members(s@, i as int, sl@) is None,
        },
    decreases s@.len() - i,
{
    if i >= s.len() {
        return None;
    }
    let j = skip_ws(s, i);
    match parse_string(s, j) {
        None => None,
        Some((key, k)) => {
            let m = skip_ws(s, k);
            if !(m < s.len() && s[m] == 0x3a) {
                return None;
            }
            let n = skip_ws(s, m + 1);
            match env_value(s, n, &key, sl) {
                None => None,
                Some((sl2, p)) => {
                    let q = skip_ws(s, p);
                    if q < s.len() && s[q] == 0x7d {
                        Some((sl2, q + 1))
                    } else if q < s.len() && s[q] == 0x2c {
                        proof {
                            assert(bump(s@, i as int, q + 1) == q + 1);
                        }
                        env_members(s, q + 1, sl2)
                    } else {
                        None
                    }
                },
            }
        },
    }
}

/// A member seen as `null` and an absent member both mean "no value".
pub open spec fn flatten_opt(o: Option<Option<u64>>) -> Option<u64> {
    match o {
        Some(v) => v,
        None => None,
    }
}

/// The payload variant selected by the `type` tag, built from the slots;
/// fails when the tag is unrecognized or a required field is missing.
/// Fields a variant does not use are ignored, as a tolerant reader would.
pub open spec fn spec_payload_from_slots(sl: BodySlotsView) -> Option<PayloadView> {
    match sl.ty {
        None => None,
        Some(t) => match spec_tag_kind(t) {
            TagKind::Init => match (sl.node_id, sl.node_ids) {
                (Some(nid), Some(nids)) => Some(
                    PayloadView::Init { node_id: nid, node_ids: nids },
                ),
                _ => None,
            },
            TagKind::InitOk => Some(PayloadView::InitOk),
            TagKind::Echo => match sl.echo {
                Some(e) => Some(PayloadView::Echo { echo: e }),
                None => None,
            },
            TagKind::EchoOk => match sl.echo {
                Some(e) => Some(PayloadView::EchoOk { echo: e }),
                None => None,
            },
            TagKind::Generate => Some(PayloadView::Generate),
            TagKind::GenerateOk => match sl.gen_id {
                Some(v) => Some(PayloadView::GenerateOk { id: v }),
                None => None,
            },
            TagKind::Broadcast => Some(
                PayloadView::Broadcast { message: flatten_opt(sl.message) },
            ),
            TagKind::BroadcastOk => Some(PayloadView::BroadcastOk),
            TagKind::Read => Some(PayloadView::Read),
            TagKind::ReadOk => match sl.messages {
                Some(m) => Some(PayloadView::ReadOk { messages: m }),
                None => None,
            },
            TagKind::Topology => match sl.topology {
                Some(t2) => Some(PayloadView::Topology { topology: t2 }),
                None => None,
            },
            TagKind::TopologyOk => Some(PayloadView::TopologyOk),
            TagKind::Unknown => None,
        },
    }
}

fn payload_from_slots(sl: BodySlots) -> (r: Option<Payload>)
    ensures
        match r {
            Some(p) => spec_payload_from_slots(sl@) == Some(p@),
            None => spec_payload_from_slots(sl@) is None,
        },
{
    let BodySlots { msg_id: _, in_reply_to: _, ty, node_id, node_ids, echo, message, messages, gen_id, topology } =
        sl;
    let t = match ty {
        Some(t) => t,
        None => {
            return None;
        },
    };
    match tag_kind(t.as_slice()) {
        TagKind::Init => match (node_id, node_ids) {
            (Some(nid), Some(nids)) => Some(Payload::Init { node_id: nid, node_ids: nids }),
            _ => None,
        },
        TagKind::InitOk => Some(Payload::InitOk),
        TagKind::Echo => match echo {
            Some(e) => Some(Payload::Echo { echo: e }),
            None => None,
        },
        TagKind::EchoOk => match echo {
            Some(e) => Some(Payload::EchoOk { echo: e }),
            None => None,
        },
        TagKind::Generate => Some(Payload::Generate),
        TagKind::GenerateOk => match gen_id {
            Some(v) => Some(Payload::GenerateOk { id: v }),
            None => None,
        },
        TagKind::Broadcast => match message {
            Some(m) => Some(Payload::Broadcast { message: m }),
            None => Some(Payload::Broadcast { message: None }),
        },
        TagKind::BroadcastOk => Some(Payload::BroadcastOk),
        TagKind::Read => Some(Payload::Read),
        TagKind::ReadOk => match messages {
            Some(m) => Some(Payload::ReadOk { messages: m }),
            None => None,
        },
        TagKind::Topology => match topology {
            Some(t2) => Some(Payload::Topology { topology: t2 }),
            None => None,
        },
        TagKind::TopologyOk => Some(Payload::TopologyOk),
        TagKind::Unknown => None,
    }
}

/// One whole input line: the envelope object with nothing but whitespace
/// around it, `src`, `dest` and `body` all present, and the body making a
/// recognized payload. `None` is a decode failure and the line is
/// discarded.
pub open spec fn spec_parse_message(s: Seq<u8>) -> Option<MessageView> {
    let i0 = spec_skip_ws(s, 0);
    if !(i0 < s.len() && s[i0] == 0x7b) {
        None
    } else {
        let j = spec_skip_ws(s, i0 + 1);
        let memres = if j < s.len() && s[j] == 0x7d {
            Some((spec_empty_env_slots(), j + 1))
        } else {
            spec_env_members(s, i0 + 1, spec_empty_env_slots())
        };
        match memres {
            None => None,
            Some((esl, e)) => {
                if spec_skip_ws(s, e) != s.len() {
                    None
                } else {
                    match (esl.src, esl.dest, esl.body) {
                        (Some(src), Some(dest), Some(bsl)) => match spec_payload_from_slots(bsl) {
                            Some(p) => Some(
                                MessageView {
                                    src,
                                    dest,
                                    body: BodyView {
                                        msg_id: flatten_opt(bsl.msg_id),
                                        in_reply_to: flatten_opt(bsl.in_reply_to),
                                        payload: p,
                                    },
                                },
                            ),
                            None => None,
                        },
                        _ => None,
                    }
                }
            },
        }
    }
}

/// Decodes one input line. Yields the message exactly when the line
/// satisfies `spec_parse_message`.
pub fn parse_message(s: &[u8]) -> (r: Option<Message>)
    ensures
        match r {
            Some(msg) => spec_parse_message(s@) == Some(msg@),
            None => spec_parse_message(s@) is None,
        },
{
    let i0 = skip_ws(s, 0);
    if !(i0 < s.len() && s[i0] == 0x7b) {
        return None;
    }
    let j = skip_ws(s, i0 + 1);
    let memres = if j < s.len() && s[j] == 0x7d {
        Some((EnvSlots { src: None, dest: None, body: None }, j + 1))
    } else {
        env_members(s, i0 + 1, EnvSlots { src: None, dest: None, body: None })
    };
    match memres {
        None => None,
        Some((esl, e)) => {
            if skip_ws(s, e) != s.len() {
                return None;
            }
            let EnvSlots { src, dest, body } = esl;
            match (src, dest, body) {
                (Some(src), Some(dest), Some(bsl)) => {
                    let mid: Option<Option<u64>> = bsl.msg_id;
                    let irt: Option<Option<u64>> = bsl.in_reply_to;
                    match payload_from_slots(bsl) {
                        Some(p) => Some(
                            Message {
                                src,
                                dest,
                                body: Body {
                                    msg_id: match mid {
                                        Some(v) => v,
                                        None => None,
                                    },
                                    in_reply_to: match irt {
                                        Some(v) => v,
                                        None => None,
                                    },
                                    payload: p,
                                },
                            },
                        ),
                        None => None,
                    }
                },
                _ => None,
            }
        },
    }
}

} // verus!
