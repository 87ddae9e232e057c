//! The codec's round-trip law: a line the encoder produces decodes back
//! to exactly the message it came from, for every message whose strings
//! are valid string content. A companion law shows a reply to a
//! well-formed request is itself well formed, so every reply line the
//! dispatcher emits re-parses to the reply it encodes.

use vstd::prelude::*;

use crate::bytes::{
    digits_val, is_digit, is_ws, spec_parse_u64, spec_skip_digits, spec_skip_ws, spec_u64_digits,
};
use crate::encode::{enc_str_array, enc_str_elems, enc_string, enc_topo_members, enc_topology, enc_u64_array, enc_u64_elems};
use crate::json::{
    bump, is_hex, spec_at_null, is_simple_escape, spec_parse_str_array, spec_parse_string, spec_parse_topology,
    spec_parse_u64_array, spec_skip_string, spec_str_elems, spec_topo_members, spec_u64_elems,
};
use crate::decode::{
    flatten_opt, spec_body_members, spec_body_value, spec_empty_body_slots, spec_empty_env_slots,
    spec_env_members, spec_env_value, spec_parse_body, spec_parse_message,
    spec_payload_from_slots, BodySlotsView, EnvSlotsView,
};
use crate::message::{BodyView, MessageView, PayloadView};
use crate::node::{step_rel, NodeStateView};
use crate::encode::{
    enc_fields, enc_payload, l_in_reply_to, l_msg_id, spec_encode_body, spec_encode_message,
    tag_of,
};
use crate::keys::{
    key_body, key_dest, key_echo, key_id, key_in_reply_to, key_message, key_messages, key_msg_id,
    key_node_id, key_node_ids, key_src, key_topology, key_type, spec_body_key, spec_env_key,
    spec_tag_kind, tag_broadcast, tag_broadcast_ok, tag_echo, tag_echo_ok, tag_generate,
    tag_generate_ok, tag_init, tag_init_ok, tag_read, tag_read_ok, tag_topology, tag_topology_ok,
    BodyKey, EnvKey, TagKind,
};

verus! {

/// `x` stands verbatim in `s` at position `i`.
spec fn matches_at(s: Seq<u8>, i: int, x: Seq<u8>) -> bool {
    0 <= i && i + x.len() <= s.len() && s.subrange(i, i + x.len()) == x
}

proof fn lemma_matches_index(s: Seq<u8>, i: int, x: Seq<u8>, t: int)
    requires
        matches_at(s, i, x),
        0 <= t < x.len(),
    ensures
        s[i + t] == x[t],
{
    assert(x[t] == s.subrange(i, i + x.len())[t]);
}

/// Valid string content from position `k` on: no raw quote, no raw
/// control byte, every escape complete.
pub open spec fn wf_content(c: Seq<u8>, k: int) -> bool
    decreases c.len() - k,
{
    if !(0 <= k < c.len()) {
        true
    } else if c[k] == 0x22 {
        false
    } else if c[k] == 0x5c {
        if k + 1 < c.len() && is_simple_escape(c[k + 1]) {
            wf_content(c, k + 2)
        } else if k + 5 < c.len() && c[k + 1] == 0x75 && is_hex(c[k + 2]) && is_hex(c[k + 3])
            && is_hex(c[k + 4]) && is_hex(c[k + 5]) {
            wf_content(c, k + 6)
        } else {
            false
        }
    } else if c[k] < 0x20 {
        false
    } else {
        wf_content(c, k + 1)
    }
}

/// A whole string's content is valid.
pub open spec fn wf_str(c: Seq<u8>) -> bool {
    wf_content(c, 0)
}

/// Scanning a string body over a verbatim copy of valid content ends
/// just past the closing quote.
proof fn lemma_skip_string_matches(s: Seq<u8>, i: int, c: Seq<u8>, k: int)
    requires
        0 <= k <= c.len(),
        0 <= i,
        i + (c.len() - k) < s.len(),
        forall|t: int| k <= t < c.len() ==> s[i + (t - k)] == c[t],
        s[i + (c.len() - k)] == 0x22,
        wf_content(c, k),
    ensures
        spec_skip_string(s, i) == Some(i + (c.len() - k) + 1),
    decreases c.len() - k,
{
    if k == c.len() {
        assert(s[i] == 0x22);
    } else {
        assert(s[i + (k - k)] == c[k]);
        if c[k] == 0x5c {
            if k + 1 < c.len() && is_simple_escape(c[k + 1]) {
                assert(s[i + ((k + 1) - k)] == c[k + 1]);
                assert forall|t: int| k + 2 <= t < c.len() implies s[(i + 2) + (t - (k + 2))]
                    == c[t] by {
                    assert(s[i + (t - k)] == c[t]);
                }
                lemma_skip_string_matches(s, i + 2, c, k + 2);
            } else {
                assert(s[i + ((k + 1) - k)] == c[k + 1]);
                assert(s[i + ((k + 2) - k)] == c[k + 2]);
                assert(s[i + ((k + 3) - k)] == c[k + 3]);
                assert(s[i + ((k + 4) - k)] == c[k + 4]);
                assert(s[i + ((k + 5) - k)] == c[k + 5]);
                assert forall|t: int| k + 6 <= t < c.len() implies s[(i + 6) + (t - (k + 6))]
                    == c[t] by {
                    assert(s[i + (t - k)] == c[t]);
                }
                lemma_skip_string_matches(s, i + 6, c, k + 6);
            }
        } else {
            assert forall|t: int| k + 1 <= t < c.len() implies s[(i + 1) + (t - (k + 1))]
                == c[t] by {
                assert(s[i + (t - k)] == c[t]);
            }
            lemma_skip_string_matches(s, i + 1, c, k + 1);
        }
    }
}

/// Parsing at a verbatim copy of an encoded string yields its content.
proof fn lemma_parse_string_enc(s: Seq<u8>, i: int, c: Seq<u8>)
    requires
        matches_at(s, i, enc_string(c)),
        wf_str(c),
        i + c.len() + 2 < s.len() || i + c.len() + 2 == s.len(),
    ensures
        spec_parse_string(s, i) == Some((c, i + c.len() + 2)),
{
    let e = enc_string(c);
    assert(e.len() == c.len() + 2);
    lemma_matches_index(s, i, e, 0);
    assert(e[0] == 0x22);
    assert forall|t: int| 0 <= t < c.len() implies s[(i + 1) + (t - 0)] == c[t] by {
        lemma_matches_index(s, i, e, 1 + t);
        assert(e[1 + t] == c[t]);
    }
    lemma_matches_index(s, i, e, 1 + c.len() as int);
    assert(e[1 + c.len() as int] == 0x22);
    assert(s[(i + 1) + (c.len() - 0)] == 0x22);
    lemma_skip_string_matches(s, i + 1, c, 0);
    assert(spec_skip_string(s, i + 1) == Some(i + c.len() + 2));
    let j = i + c.len() + 2;
    assert forall|t: int| 0 <= t < c.len() implies s.subrange(i + 1, j - 1)[t] == c[t] by {
        assert(s[(i + 1) + (t - 0)] == c[t]);
    }
    assert(s.subrange(i + 1, j - 1) =~= c);
}

proof fn lemma_u64_digits_len(n: nat)
    ensures
        spec_u64_digits(n).len() >= 1,
    decreases n,
{
    if n >= 10 {
        lemma_u64_digits_len(n / 10);
    }
}

proof fn lemma_u64_digits_are_digits(n: nat)
    ensures
        forall|t: int|
            0 <= t < spec_u64_digits(n).len() ==> is_digit(#[trigger] spec_u64_digits(n)[t]),
    decreases n,
{
    if n >= 10 {
        lemma_u64_digits_are_digits(n / 10);
        assert forall|t: int| 0 <= t < spec_u64_digits(n).len() implies is_digit(
            #[trigger] spec_u64_digits(n)[t],
        ) by {
            if t < spec_u64_digits(n / 10).len() {
                assert(spec_u64_digits(n)[t] == spec_u64_digits(n / 10)[t]);
            }
        }
    }
}

/// A positive number's leading digit is not zero.
proof fn lemma_u64_digits_leading(n: nat)
    requires
        n >= 1,
    ensures
        spec_u64_digits(n)[0] != 0x30,
    decreases n,
{
    if n >= 10 {
        lemma_u64_digits_leading(n / 10);
        lemma_u64_digits_len(n / 10);
        assert(spec_u64_digits(n)[0] == spec_u64_digits(n / 10)[0]);
    }
}

/// A digit run delimited on the right scans to exactly its end.
proof fn lemma_skip_digits_exact(s: Seq<u8>, i: int, m: int)
    requires
        0 <= i <= m <= s.len(),
        forall|t: int| i <= t < m ==> is_digit(s[t]),
        m == s.len() || !is_digit(s[m]),
    ensures
        spec_skip_digits(s, i) == m,
    decreases m - i,
{
    if i < m {
        assert(is_digit(s[i]));
        lemma_skip_digits_exact(s, i + 1, m);
    }
}

/// The decimal digits of `n`, copied verbatim, evaluate back to `n`.
proof fn lemma_digits_val_of(s: Seq<u8>, i: int, n: nat)
    requires
        0 <= i,
        forall|t: int| 0 <= t < spec_u64_digits(n).len() ==> s[i + t] == spec_u64_digits(n)[t],
    ensures
        digits_val(s, i, i + spec_u64_digits(n).len()) == n,
    decreases n,
{
    let d = spec_u64_digits(n);
    if n < 10 {
        assert(s[i + 0] == d[0]);
        assert(digits_val(s, i, i) == 0);
        assert(digits_val(s, i, i + 1) == digits_val(s, i, i) * 10 + (s[i + 1 - 1] - 0x30) as nat);
    } else {
        let p = spec_u64_digits(n / 10);
        assert forall|t: int| 0 <= t < p.len() implies s[i + t] == p[t] by {
            assert(s[i + t] == d[t]);
            assert(d[t] == p[t]);
        }
        lemma_digits_val_of(s, i, n / 10);
        assert(s[i + p.len()] == d[p.len() as int]);
        assert(d[p.len() as int] == (0x30 + n % 10) as u8);
        assert(digits_val(s, i, i + d.len()) == digits_val(s, i, i + p.len()) * 10 + (s[i + d.len()
            - 1] - 0x30) as nat);
    }
}

/// Parsing at a verbatim copy of an encoded number, delimited on the
/// right by a non-digit, yields the number back.
proof fn lemma_parse_u64_enc(s: Seq<u8>, i: int, n: u64)
    requires
        matches_at(s, i, spec_u64_digits(n as nat)),
        i + spec_u64_digits(n as nat).len() == s.len() || !is_digit(
            s[i + spec_u64_digits(n as nat).len()],
        ),
    ensures
        spec_parse_u64(s, i) == Some((n, i + spec_u64_digits(n as nat).len())),
{
    let d = spec_u64_digits(n as nat);
    lemma_u64_digits_len(n as nat);
    lemma_u64_digits_are_digits(n as nat);
    assert forall|t: int| 0 <= t < d.len() implies s[i + t] == d[t] by {
        lemma_matches_index(s, i, d, t);
    }
    assert forall|t: int| i <= t < i + d.len() implies is_digit(s[t]) by {
        assert(s[t] == d[t - i]);
    }
    lemma_skip_digits_exact(s, i, i + d.len());
    if n >= 1 {
        lemma_u64_digits_leading(n as nat);
        assert(s[i] != 0x30);
    } else {
        assert(d.len() == 1);
    }
    lemma_digits_val_of(s, i, n as nat);
}

/// A verbatim copy of a concatenation is a verbatim copy of each part.
proof fn lemma_matches_split(s: Seq<u8>, i: int, x: Seq<u8>, y: Seq<u8>)
    requires
        matches_at(s, i, x + y),
    ensures
        matches_at(s, i, x),
        matches_at(s, i + x.len(), y),
{
    assert forall|t: int| 0 <= t < x.len() implies s.subrange(i, i + x.len())[t] == x[t] by {
        lemma_matches_index(s, i, x + y, t);
        assert((x + y)[t] == x[t]);
    }
    assert(s.subrange(i, i + x.len()) =~= x);
    assert forall|t: int| 0 <= t < y.len() implies s.subrange(
        i + x.len(),
        i + x.len() + y.len(),
    )[t] == y[t] by {
        lemma_matches_index(s, i, x + y, x.len() + t);
        assert((x + y)[x.len() + t] == y[t]);
    }
    assert(s.subrange(i + x.len(), i + x.len() + y.len()) =~= y);
}

/// Parsing one or more encoded numbers followed by `]` collects exactly
/// those numbers.
proof fn lemma_u64_elems_enc(s: Seq<u8>, i: int, v: Seq<u64>, acc: Seq<u64>)
    requires
        v.len() >= 1,
        matches_at(s, i, enc_u64_elems(v)),
        i + enc_u64_elems(v).len() < s.len(),
        s[i + enc_u64_elems(v).len()] == 0x5d,
    ensures
        spec_u64_elems(s, i, acc) == Some((acc + v, i + enc_u64_elems(v).len() + 1)),
    decreases v.len(),
{
    let e = enc_u64_elems(v);
    let d0 = spec_u64_digits(v[0] as nat);
    lemma_u64_digits_len(v[0] as nat);
    lemma_u64_digits_are_digits(v[0] as nat);
    if v.len() == 1 {
        assert(e == d0);
        lemma_matches_index(s, i, e, 0);
        assert(!is_ws(s[i]));
        assert(spec_skip_ws(s, i) == i);
        lemma_parse_u64_enc(s, i, v[0]);
        let k = i + d0.len();
        assert(spec_skip_ws(s, k) == k);
        assert(s[k] == 0x5d);
        assert(acc.push(v[0]) =~= acc + v);
    } else {
        assert(e == d0 + seq![0x2cu8] + enc_u64_elems(v.drop_first()));
        lemma_matches_split(s, i, d0 + seq![0x2cu8], enc_u64_elems(v.drop_first()));
        lemma_matches_split(s, i, d0, seq![0x2cu8]);
        let k = i + d0.len();
        lemma_matches_index(s, k, seq![0x2cu8], 0);
        assert(s[k] == 0x2c);
        lemma_matches_index(s, i, d0, 0);
        assert(!is_ws(s[i]));
        assert(spec_skip_ws(s, i) == i);
        lemma_parse_u64_enc(s, i, v[0]);
        assert(spec_skip_ws(s, k) == k);
        assert(bump(s, i, k + 1) == k + 1);
        lemma_u64_elems_enc(s, k + 1, v.drop_first(), acc.push(v[0]));
        assert(acc.push(v[0]) + v.drop_first() =~= acc + v);
    }
}

/// `[1,2,3]` parses back to its elements; `[]` to none.
proof fn lemma_u64_array_enc(s: Seq<u8>, i: int, v: Seq<u64>)
    requires
        matches_at(s, i, enc_u64_array(v)),
        i + enc_u64_array(v).len() <= s.len(),
    ensures
        spec_parse_u64_array(s, i) == Some((v, i + enc_u64_array(v).len())),
{
    let e = enc_u64_array(v);
    assert(e =~= seq![0x5bu8] + (enc_u64_elems(v) + seq![0x5du8]));
    lemma_matches_split(s, i, seq![0x5bu8], enc_u64_elems(v) + seq![0x5du8]);
    lemma_matches_split(s, i + 1, enc_u64_elems(v), seq![0x5du8]);
    lemma_matches_index(s, i, seq![0x5bu8], 0);
    assert(s[i] == 0x5b);
    let close = i + 1 + enc_u64_elems(v).len();
    lemma_matches_index(s, close, seq![0x5du8], 0);
    assert(s[close] == 0x5d);
    if v.len() == 0 {
        assert(enc_u64_elems(v).len() == 0);
        assert(spec_skip_ws(s, i + 1) == i + 1);
        assert(Seq::<u64>::empty() =~= v);
    } else {
        lemma_u64_digits_len(v[0] as nat);
        lemma_u64_digits_are_digits(v[0] as nat);
        if v.len() == 1 {
            lemma_matches_index(s, i + 1, enc_u64_elems(v), 0);
        } else {
            lemma_matches_index(s, i + 1, enc_u64_elems(v), 0);
            assert(enc_u64_elems(v)[0] == spec_u64_digits(v[0] as nat)[0]);
        }
        assert(is_digit(s[i + 1]));
        assert(spec_skip_ws(s, i + 1) == i + 1);
        lemma_u64_elems_enc(s, i + 1, v, Seq::empty());
        assert(Seq::<u64>::empty() + v =~= v);
    }
}

/// Every string of the sequence has valid content.
pub open spec fn wf_strs(v: Seq<Seq<u8>>) -> bool {
    forall|t: int| 0 <= t < v.len() ==> wf_str(#[trigger] v[t])
}

/// Parsing one or more encoded strings followed by `]` collects exactly
/// those strings.
proof fn lemma_str_elems_enc(s: Seq<u8>, i: int, v: Seq<Seq<u8>>, acc: Seq<Seq<u8>>)
    requires
        v.len() >= 1,
        wf_strs(v),
        matches_at(s, i, enc_str_elems(v)),
        i + enc_str_elems(v).len() < s.len(),
        s[i + enc_str_elems(v).len()] == 0x5d,
    ensures
        spec_str_elems(s, i, acc) == Some((acc + v, i + enc_str_elems(v).len() + 1)),
    decreases v.len(),
{
    let e = enc_str_elems(v);
    let e0 = enc_string(v[0]);
    if v.len() == 1 {
        assert(e == e0);
        lemma_matches_index(s, i, e, 0);
        assert(s[i] == 0x22);
        assert(spec_skip_ws(s, i) == i);
        lemma_parse_string_enc(s, i, v[0]);
        let k = i + v[0].len() + 2;
        assert(spec_skip_ws(s, k) == k);
        assert(s[k] == 0x5d);
        assert(acc.push(v[0]) =~= acc + v);
    } else {
        assert(e == e0 + seq![0x2cu8] + enc_str_elems(v.drop_first()));
        lemma_matches_split(s, i, e0 + seq![0x2cu8], enc_str_elems(v.drop_first()));
        lemma_matches_split(s, i, e0, seq![0x2cu8]);
        let k = i + e0.len();
        lemma_matches_index(s, k, seq![0x2cu8], 0);
        assert(s[k] == 0x2c);
        lemma_matches_index(s, i, e0, 0);
        assert(s[i] == 0x22);
        assert(spec_skip_ws(s, i) == i);
        lemma_parse_string_enc(s, i, v[0]);
        assert(spec_skip_ws(s, k) == k);
        assert(bump(s, i, k + 1) == k + 1);
        lemma_str_elems_enc(s, k + 1, v.drop_first(), acc.push(v[0]));
        assert(acc.push(v[0]) + v.drop_first() =~= acc + v);
    }
}

/// `["a","b"]` parses back to its elements; `[]` to none.
proof fn lemma_str_array_enc(s: Seq<u8>, i: int, v: Seq<Seq<u8>>)
    requires
        matches_at(s, i, enc_str_array(v)),
        wf_strs(v),
        i + enc_str_array(v).len() <= s.len(),
    ensures
        spec_parse_str_array(s, i) == Some((v, i + enc_str_array(v).len())),
{
    let e = enc_str_array(v);
    assert(e =~= seq![0x5bu8] + (enc_str_elems(v) + seq![0x5du8]));
    lemma_matches_split(s, i, seq![0x5bu8], enc_str_elems(v) + seq![0x5du8]);
    lemma_matches_split(s, i + 1, enc_str_elems(v), seq![0x5du8]);
    lemma_matches_index(s, i, seq![0x5bu8], 0);
    assert(s[i] == 0x5b);
    let close = i + 1 + enc_str_elems(v).len();
    lemma_matches_index(s, close, seq![0x5du8], 0);
    assert(s[close] == 0x5d);
    if v.len() == 0 {
        assert(enc_str_elems(v).len() == 0);
        assert(spec_skip_ws(s, i + 1) == i + 1);
        assert(Seq::<Seq<u8>>::empty() =~= v);
    } else {
        lemma_matches_index(s, i + 1, enc_str_elems(v), 0);
        if v.len() == 1 {
            assert(enc_str_elems(v)[0] == enc_string(v[0])[0]);
        } else {
            assert(enc_str_elems(v)[0] == enc_string(v[0])[0]);
        }
        assert(s[i + 1] == 0x22);
        assert(spec_skip_ws(s, i + 1) == i + 1);
        lemma_str_elems_enc(s, i + 1, v, Seq::empty());
        assert(Seq::<Seq<u8>>::empty() + v =~= v);
    }
}

/// Every key and every neighbor name of the mapping has valid content.
pub open spec fn wf_topo(v: Seq<(Seq<u8>, Seq<Seq<u8>>)>) -> bool {
    forall|t: int| 0 <= t < v.len() ==> wf_str(#[trigger] v[t].0) && wf_strs(v[t].1)
}

/// Parsing one or more encoded `"key":[..]` members followed by `}`
/// collects exactly those pairs.
proof fn lemma_topo_members_enc(
    s: Seq<u8>,
    i: int,
    v: Seq<(Seq<u8>, Seq<Seq<u8>>)>,
    acc: Seq<(Seq<u8>, Seq<Seq<u8>>)>,
)
    requires
        v.len() >= 1,
        wf_topo(v),
        matches_at(s, i, enc_topo_members(v)),
        i + enc_topo_members(v).len() < s.len(),
        s[i + enc_topo_members(v).len()] == 0x7d,
    ensures
        spec_topo_members(s, i, acc) == Some((acc + v, i + enc_topo_members(v).len() + 1)),
    decreases v.len(),
{
    let e = enc_topo_members(v);
    let ek = enc_string(v[0].0);
    let ea = enc_str_array(v[0].1);
    let m = i + ek.len();
    let n = m + 1;
    let p = n + ea.len();
    if v.len() == 1 {
        assert(e == ek + seq![0x3au8] + ea);
        lemma_matches_split(s, i, ek + seq![0x3au8], ea);
        lemma_matches_split(s, i, ek, seq![0x3au8]);
        lemma_matches_index(s, i, ek, 0);
        assert(s[i] == 0x22);
        assert(spec_skip_ws(s, i) == i);
        lemma_parse_string_enc(s, i, v[0].0);
        lemma_matches_index(s, m, seq![0x3au8], 0);
        assert(s[m] == 0x3a);
        assert(spec_skip_ws(s, m) == m);
        assert(spec_skip_ws(s, n) == n || is_ws(s[n]));
        lemma_matches_index(s, n, ea, 0);
        assert(s[n] == 0x5b);
        assert(spec_skip_ws(s, n) == n);
        lemma_str_array_enc(s, n, v[0].1);
        assert(spec_skip_ws(s, p) == p);
        assert(s[p] == 0x7d);
        assert(acc.push(v[0]) =~= acc + v);
    } else {
        assert(e == ek + seq![0x3au8] + ea + seq![0x2cu8] + enc_topo_members(v.drop_first()));
        lemma_matches_split(s, i, ek + seq![0x3au8] + ea + seq![0x2cu8], enc_topo_members(
            v.drop_first(),
        ));
        lemma_matches_split(s, i, ek + seq![0x3au8] + ea, seq![0x2cu8]);
        lemma_matches_split(s, i, ek + seq![0x3au8], ea);
        lemma_matches_split(s, i, ek, seq![0x3au8]);
        lemma_matches_index(s, i, ek, 0);
        assert(s[i] == 0x22);
        assert(spec_skip_ws(s, i) == i);
        lemma_parse_string_enc(s, i, v[0].0);
        lemma_matches_index(s, m, seq![0x3au8], 0);
        assert(s[m] == 0x3a);
        assert(spec_skip_ws(s, m) == m);
        lemma_matches_index(s, n, ea, 0);
        assert(s[n] == 0x5b);
        assert(spec_skip_ws(s, n) == n);
        lemma_str_array_enc(s, n, v[0].1);
        lemma_matches_index(s, p, seq![0x2cu8], 0);
        assert(s[p] == 0x2c);
        assert(spec_skip_ws(s, p) == p);
        assert(bump(s, i, p + 1) == p + 1);
        lemma_topo_members_enc(s, p + 1, v.drop_first(), acc.push(v[0]));
        assert(acc.push(v[0]) + v.drop_first() =~= acc + v);
    }
}

/// An encoded topology mapping parses back to its pairs.
proof fn lemma_topology_enc(s: Seq<u8>, i: int, v: Seq<(Seq<u8>, Seq<Seq<u8>>)>)
    requires
        matches_at(s, i, enc_topology(v)),
        wf_topo(v),
        i + enc_topology(v).len() <= s.len(),
    ensures
        spec_parse_topology(s, i) == Some((v, i + enc_topology(v).len())),
{
    let e = enc_topology(v);
    assert(e =~= seq![0x7bu8] + (enc_topo_members(v) + seq![0x7du8]));
    lemma_matches_split(s, i, seq![0x7bu8], enc_topo_members(v) + seq![0x7du8]);
    lemma_matches_split(s, i + 1, enc_topo_members(v), seq![0x7du8]);
    lemma_matches_index(s, i, seq![0x7bu8], 0);
    assert(s[i] == 0x7b);
    let close = i + 1 + enc_topo_members(v).len();
    lemma_matches_index(s, close, seq![0x7du8], 0);
    assert(s[close] == 0x7d);
    if v.len() == 0 {
        assert(enc_topo_members(v).len() == 0);
        assert(spec_skip_ws(s, i + 1) == i + 1);
        assert(Seq::<(Seq<u8>, Seq<Seq<u8>>)>::empty() =~= v);
    } else {
        lemma_matches_index(s, i + 1, enc_topo_members(v), 0);
        if v.len() == 1 {
            assert(enc_topo_members(v)[0] == enc_string(v[0].0)[0]);
        } else {
            assert(enc_topo_members(v)[0] == enc_string(v[0].0)[0]);
        }
        assert(s[i + 1] == 0x22);
        assert(spec_skip_ws(s, i + 1) == i + 1);
        lemma_topo_members_enc(s, i + 1, v, Seq::empty());
        assert(Seq::<(Seq<u8>, Seq<Seq<u8>>)>::empty() + v =~= v);
    }
}

/// Content made only of ordinary bytes (no quote, no backslash, no
/// control byte) is valid.
proof fn lemma_wf_plain(c: Seq<u8>, k: int)
    requires
        forall|t: int| k <= t < c.len() ==> 0x20 <= #[trigger] c[t] && c[t] != 0x22 && c[t] != 0x5c,
    ensures
        wf_content(c, k),
    decreases c.len() - k,
{
    if 0 <= k < c.len() {
        lemma_wf_plain(c, k + 1);
    }
}

/// The protocol's key and tag literals are valid string content.
proof fn lemma_literals_wf()
    ensures
        wf_str(key_src()),
        wf_str(key_dest()),
        wf_str(key_body()),
        wf_str(key_msg_id()),
        wf_str(key_in_reply_to()),
        wf_str(key_type()),
        wf_str(key_node_id()),
        wf_str(key_node_ids()),
        wf_str(key_echo()),
        wf_str(key_message()),
        wf_str(key_messages()),
        wf_str(key_id()),
        wf_str(key_topology()),
        wf_str(tag_init()),
        wf_str(tag_init_ok()),
        wf_str(tag_echo()),
        wf_str(tag_echo_ok()),
        wf_str(tag_generate()),
        wf_str(tag_generate_ok()),
        wf_str(tag_broadcast()),
        wf_str(tag_broadcast_ok()),
        wf_str(tag_read()),
        wf_str(tag_read_ok()),
        wf_str(tag_topology()),
        wf_str(tag_topology_ok()),
{
    lemma_wf_plain(key_src(), 0);
    lemma_wf_plain(key_dest(), 0);
    lemma_wf_plain(key_body(), 0);
    lemma_wf_plain(key_msg_id(), 0);
    lemma_wf_plain(key_in_reply_to(), 0);
    lemma_wf_plain(key_type(), 0);
    lemma_wf_plain(key_node_id(), 0);
    lemma_wf_plain(key_node_ids(), 0);
    lemma_wf_plain(key_echo(), 0);
    lemma_wf_plain(key_message(), 0);
    lemma_wf_plain(key_messages(), 0);
    lemma_wf_plain(key_id(), 0);
    lemma_wf_plain(key_topology(), 0);
    lemma_wf_plain(tag_init(), 0);
    lemma_wf_plain(tag_init_ok(), 0);
    lemma_wf_plain(tag_echo(), 0);
    lemma_wf_plain(tag_echo_ok(), 0);
    lemma_wf_plain(tag_generate(), 0);
    lemma_wf_plain(tag_generate_ok(), 0);
    lemma_wf_plain(tag_broadcast(), 0);
    lemma_wf_plain(tag_broadcast_ok(), 0);
    lemma_wf_plain(tag_read(), 0);
    lemma_wf_plain(tag_read_ok(), 0);
    lemma_wf_plain(tag_topology(), 0);
    lemma_wf_plain(tag_topology_ok(), 0);
}

/// Each key literal classifies as itself.
proof fn lemma_key_evals()
    ensures
        spec_env_key(key_src()) == EnvKey::Src,
        spec_env_key(key_dest()) == EnvKey::Dest,
        spec_env_key(key_body()) == EnvKey::BodyField,
        spec_body_key(key_msg_id()) == BodyKey::MsgId,
        spec_body_key(key_in_reply_to()) == BodyKey::InReplyTo,
        spec_body_key(key_type()) == BodyKey::Ty,
        spec_body_key(key_node_id()) == BodyKey::NodeId,
        spec_body_key(key_node_ids()) == BodyKey::NodeIds,
        spec_body_key(key_echo()) == BodyKey::Echo,
        spec_body_key(key_message()) == BodyKey::Message,
        spec_body_key(key_messages()) == BodyKey::Messages,
        spec_body_key(key_id()) == BodyKey::Id,
        spec_body_key(key_topology()) == BodyKey::Topology,
{
    assert(key_src().len() == 3);
    assert(key_dest().len() == 4);
    assert(key_body().len() == 4);
    assert(key_msg_id().len() == 6);
    assert(key_in_reply_to().len() == 11);
    assert(key_type().len() == 4);
    assert(key_node_id().len() == 7);
    assert(key_node_ids().len() == 8);
    assert(key_echo().len() == 4);
    assert(key_message().len() == 7);
    assert(key_messages().len() == 8);
    assert(key_id().len() == 2);
    assert(key_topology().len() == 8);
    assert(key_body()[0] != key_src()[0]);
    assert(key_body()[0] != key_dest()[0]);
    assert(key_echo()[0] != key_type()[0]);
    assert(key_message()[0] != key_node_id()[0]);
    assert(key_messages()[0] != key_node_ids()[0]);
    assert(key_topology()[0] != key_node_ids()[0]);
    assert(key_topology()[0] != key_messages()[0]);
}

/// Each tag literal classifies as itself.
proof fn lemma_tag_evals()
    ensures
        spec_tag_kind(tag_init()) == TagKind::Init,
        spec_tag_kind(tag_init_ok()) == TagKind::InitOk,
        spec_tag_kind(tag_echo()) == TagKind::Echo,
        spec_tag_kind(tag_echo_ok()) == TagKind::EchoOk,
        spec_tag_kind(tag_generate()) == TagKind::Generate,
        spec_tag_kind(tag_generate_ok()) == TagKind::GenerateOk,
        spec_tag_kind(tag_broadcast()) == TagKind::Broadcast,
        spec_tag_kind(tag_broadcast_ok()) == TagKind::BroadcastOk,
        spec_tag_kind(tag_read()) == TagKind::Read,
        spec_tag_kind(tag_read_ok()) == TagKind::ReadOk,
        spec_tag_kind(tag_topology()) == TagKind::Topology,
        spec_tag_kind(tag_topology_ok()) == TagKind::TopologyOk,
{
    assert(tag_init().len() == 4);
    assert(tag_init_ok().len() == 7);
    assert(tag_echo().len() == 4);
    assert(tag_echo_ok().len() == 7);
    assert(tag_generate().len() == 8);
    assert(tag_generate_ok().len() == 11);
    assert(tag_broadcast().len() == 9);
    assert(tag_broadcast_ok().len() == 12);
    assert(tag_read().len() == 4);
    assert(tag_read_ok().len() == 7);
    assert(tag_topology().len() == 8);
    assert(tag_topology_ok().len() == 11);
    assert(tag_echo()[0] != tag_init()[0]);
    assert(tag_echo_ok()[0] != tag_init_ok()[0]);
    assert(tag_read()[0] != tag_init()[0]);
    assert(tag_read()[0] != tag_echo()[0]);
    assert(tag_read_ok()[0] != tag_init_ok()[0]);
    assert(tag_read_ok()[0] != tag_echo_ok()[0]);
    assert(tag_topology()[0] != tag_generate()[0]);
    assert(tag_topology_ok()[0] != tag_generate_ok()[0]);
}

/// One `"key": value` member, laid out with no whitespace: how the body
/// member loop consumes it.
proof fn lemma_body_member_step(
    s: Seq<u8>,
    i: int,
    key: Seq<u8>,
    sl: BodySlotsView,
    sl2: BodySlotsView,
    p: int,
)
    requires
        matches_at(s, i, enc_string(key)),
        wf_str(key),
        i + key.len() + 2 < s.len(),
        s[i + key.len() + 2] == 0x3a,
        !is_ws(s[i + key.len() + 3]),
        spec_body_value(s, i + key.len() + 3, key, sl) == Some((sl2, p)),
        i < p < s.len(),
        s[p] == 0x2c || s[p] == 0x7d,
    ensures
        s[p] == 0x7d ==> spec_body_members(s, i, sl) == Some((sl2, p + 1)),
        s[p] == 0x2c ==> spec_body_members(s, i, sl) == spec_body_members(s, p + 1, sl2),
{
    lemma_matches_index(s, i, enc_string(key), 0);
    assert(enc_string(key)[0] == 0x22);
    assert(spec_skip_ws(s, i) == i);
    lemma_parse_string_enc(s, i, key);
    let k = i + key.len() + 2;
    assert(spec_skip_ws(s, k) == k);
    assert(spec_skip_ws(s, k + 1) == k + 1);
    assert(spec_skip_ws(s, p) == p);
    if s[p] == 0x2c {
        assert(bump(s, i, p + 1) == p + 1);
    }
}

/// Decomposes one `"key":` + value-bytes + closer member layout into the
/// facts `lemma_body_member_step` wants.
proof fn lemma_member_layout(s: Seq<u8>, f: int, key: Seq<u8>, vb: Seq<u8>, closer: u8)
    requires
        matches_at(s, f, enc_string(key) + seq![0x3au8] + vb + seq![closer]),
    ensures
        matches_at(s, f, enc_string(key)),
        s[f + key.len() + 2] == 0x3a,
        matches_at(s, f + key.len() + 3, vb),
        s[f + key.len() + 3 + vb.len()] == closer,
        f + key.len() + 3 + vb.len() < s.len(),
{
    lemma_matches_split(s, f, enc_string(key) + seq![0x3au8] + vb, seq![closer]);
    lemma_matches_split(s, f, enc_string(key) + seq![0x3au8], vb);
    lemma_matches_split(s, f, enc_string(key), seq![0x3au8]);
    lemma_matches_index(s, f + key.len() + 2, seq![0x3au8], 0);
    lemma_matches_index(s, f + key.len() + 3 + vb.len(), seq![closer], 0);
}

/// Whether a payload's strings are all valid content.
pub open spec fn wf_payload(p: PayloadView) -> bool {
    match p {
        PayloadView::Init { node_id, node_ids } => wf_str(node_id) && wf_strs(node_ids),
        PayloadView::Echo { echo } => wf_str(echo),
        PayloadView::EchoOk { echo } => wf_str(echo),
        PayloadView::Topology { topology } => wf_topo(topology),
        _ => true,
    }
}

/// The slot state after the `"type"` member and the variant's own
/// members have been read into `sl`.
spec fn fill_payload(sl: BodySlotsView, p: PayloadView) -> BodySlotsView {
    match p {
        PayloadView::Init { node_id, node_ids } => BodySlotsView {
            ty: Some(tag_of(p)),
            node_id: Some(node_id),
            node_ids: Some(node_ids),
            ..sl
        },
        PayloadView::Echo { echo } => BodySlotsView { ty: Some(tag_of(p)), echo: Some(echo), ..sl },
        PayloadView::EchoOk { echo } => BodySlotsView {
            ty: Some(tag_of(p)),
            echo: Some(echo),
            ..sl
        },
        PayloadView::GenerateOk { id } => BodySlotsView {
            ty: Some(tag_of(p)),
            gen_id: Some(id),
            ..sl
        },
        PayloadView::Broadcast { message } => match message {
            Some(m) => BodySlotsView { ty: Some(tag_of(p)), message: Some(Some(m)), ..sl },
            None => BodySlotsView { ty: Some(tag_of(p)), ..sl },
        },
        PayloadView::ReadOk { messages } => BodySlotsView {
            ty: Some(tag_of(p)),
            messages: Some(messages),
            ..sl
        },
        PayloadView::Topology { topology } => BodySlotsView {
            ty: Some(tag_of(p)),
            topology: Some(topology),
            ..sl
        },
        _ => BodySlotsView { ty: Some(tag_of(p)), ..sl },
    }
}

/// A trailing `"echo"` string member, then the closing brace.
proof fn lemma_fields_echo(s: Seq<u8>, f: int, c: Seq<u8>, sl: BodySlotsView)
    requires
        matches_at(s, f, enc_string(key_echo()) + seq![0x3au8] + enc_string(c) + seq![0x7du8]),
        wf_str(c),
        sl.echo is None,
    ensures
        spec_body_members(s, f, sl) == Some(
            (BodySlotsView { echo: Some(c), ..sl }, f + key_echo().len() + 3 + c.len() + 2 + 1),
        ),
{
    lemma_literals_wf();
    lemma_key_evals();
    lemma_member_layout(s, f, key_echo(), enc_string(c), 0x7d);
    let v = f + key_echo().len() + 3;
    lemma_parse_string_enc(s, v, c);
    let pend = v + c.len() + 2;
    assert(spec_body_value(s, v, key_echo(), sl) == Some(
        (BodySlotsView { echo: Some(c), ..sl }, pend),
    ));
    lemma_body_member_step(s, f, key_echo(), sl, BodySlotsView { echo: Some(c), ..sl }, pend);
}

/// A trailing `"id"` number member, then the closing brace.
proof fn lemma_fields_id(s: Seq<u8>, f: int, id: u64, sl: BodySlotsView)
    requires
        matches_at(
            s,
            f,
            enc_string(key_id()) + seq![0x3au8] + spec_u64_digits(id as nat) + seq![0x7du8],
        ),
        sl.gen_id is None,
    ensures
        spec_body_members(s, f, sl) == Some(
            (
                BodySlotsView { gen_id: Some(id), ..sl },
                f + key_id().len() + 3 + spec_u64_digits(id as nat).len() + 1,
            ),
        ),
{
    lemma_literals_wf();
    lemma_key_evals();
    let d = spec_u64_digits(id as nat);
    lemma_member_layout(s, f, key_id(), d, 0x7d);
    let v = f + key_id().len() + 3;
    lemma_u64_digits_len(id as nat);
    lemma_u64_digits_are_digits(id as nat);
    lemma_matches_index(s, v, d, 0);
    assert(is_digit(s[v]));
    let pend = v + d.len();
    lemma_parse_u64_enc(s, v, id);
    assert(!spec_at_null(s, v));
    assert(spec_body_value(s, v, key_id(), sl) == Some(
        (BodySlotsView { gen_id: Some(id), ..sl }, pend),
    ));
    lemma_body_member_step(s, f, key_id(), sl, BodySlotsView { gen_id: Some(id), ..sl }, pend);
}

/// A trailing `"message"` number member, then the closing brace.
proof fn lemma_fields_message(s: Seq<u8>, f: int, m: u64, sl: BodySlotsView)
    requires
        matches_at(
            s,
            f,
            enc_string(key_message()) + seq![0x3au8] + spec_u64_digits(m as nat) + seq![0x7du8],
        ),
        sl.message is None,
    ensures
        spec_body_members(s, f, sl) == Some(
            (
                BodySlotsView { message: Some(Some(m)), ..sl },
                f + key_message().len() + 3 + spec_u64_digits(m as nat).len() + 1,
            ),
        ),
{
    lemma_literals_wf();
    lemma_key_evals();
    let d = spec_u64_digits(m as nat);
    lemma_member_layout(s, f, key_message(), d, 0x7d);
    let v = f + key_message().len() + 3;
    lemma_u64_digits_len(m as nat);
    lemma_u64_digits_are_digits(m as nat);
    lemma_matches_index(s, v, d, 0);
    assert(is_digit(s[v]));
    let pend = v + d.len();
    lemma_parse_u64_enc(s, v, m);
    assert(!spec_at_null(s, v));
    assert(spec_body_value(s, v, key_message(), sl) == Some(
        (BodySlotsView { message: Some(Some(m)), ..sl }, pend),
    ));
    lemma_body_member_step(
        s,
        f,
        key_message(),
        sl,
        BodySlotsView { message: Some(Some(m)), ..sl },
        pend,
    );
}

/// A trailing `"messages"` array member, then the closing brace.
proof fn lemma_fields_messages(s: Seq<u8>, f: int, v: Seq<u64>, sl: BodySlotsView)
    requires
        matches_at(
            s,
            f,
            enc_string(key_messages()) + seq![0x3au8] + enc_u64_array(v) + seq![0x7du8],
        ),
        sl.messages is None,
    ensures
        spec_body_members(s, f, sl) == Some(
            (
                BodySlotsView { messages: Some(v), ..sl },
                f + key_messages().len() + 3 + enc_u64_array(v).len() + 1,
            ),
        ),
{
    lemma_literals_wf();
    lemma_key_evals();
    let a = enc_u64_array(v);
    lemma_member_layout(s, f, key_messages(), a, 0x7d);
    let w = f + key_messages().len() + 3;
    lemma_matches_index(s, w, a, 0);
    assert(a[0] == 0x5b);
    lemma_u64_array_enc(s, w, v);
    let pend = w + a.len();
    assert(spec_body_value(s, w, key_messages(), sl) == Some(
        (BodySlotsView { messages: Some(v), ..sl }, pend),
    ));
    lemma_body_member_step(
        s,
        f,
        key_messages(),
        sl,
        BodySlotsView { messages: Some(v), ..sl },
        pend,
    );
}

/// A trailing `"topology"` object member, then the closing brace.
proof fn lemma_fields_topology(s: Seq<u8>, f: int, v: Seq<(Seq<u8>, Seq<Seq<u8>>)>, sl: BodySlotsView)
    requires
        matches_at(
            s,
            f,
            enc_string(key_topology()) + seq![0x3au8] + enc_topology(v) + seq![0x7du8],
        ),
        wf_topo(v),
        sl.topology is None,
    ensures
        spec_body_members(s, f, sl) == Some(
            (
                BodySlotsView { topology: Some(v), ..sl },
                f + key_topology().len() + 3 + enc_topology(v).len() + 1,
            ),
        ),
{
    lemma_literals_wf();
    lemma_key_evals();
    let a = enc_topology(v);
    lemma_member_layout(s, f, key_topology(), a, 0x7d);
    let w = f + key_topology().len() + 3;
    lemma_matches_index(s, w, a, 0);
    assert(a[0] == 0x7b);
    lemma_topology_enc(s, w, v);
    let pend = w + a.len();
    assert(spec_body_value(s, w, key_topology(), sl) == Some(
        (BodySlotsView { topology: Some(v), ..sl }, pend),
    ));
    lemma_body_member_step(
        s,
        f,
        key_topology(),
        sl,
        BodySlotsView { topology: Some(v), ..sl },
        pend,
    );
}

/// The `"node_id"` and `"node_ids"` members of an `init` payload, then
/// the closing brace.
proof fn lemma_fields_init(
    s: Seq<u8>,
    f: int,
    nid: Seq<u8>,
    nids: Seq<Seq<u8>>,
    sl: BodySlotsView,
)
    requires
        matches_at(
            s,
            f,
            enc_string(key_node_id()) + seq![0x3au8] + enc_string(nid) + seq![0x2cu8] + enc_string(
                key_node_ids(),
            ) + seq![0x3au8] + enc_str_array(nids) + seq![0x7du8],
        ),
        wf_str(nid),
        wf_strs(nids),
        sl.node_id is None,
        sl.node_ids is None,
    ensures
        spec_body_members(s, f, sl) == Some(
            (
                BodySlotsView { node_ids: Some(nids), node_id: Some(nid), ..sl },
                f + key_node_id().len() + 3 + nid.len() + 2 + 1 + key_node_ids().len() + 3
                    + enc_str_array(nids).len() + 1,
            ),
        ),
{
    lemma_literals_wf();
    lemma_key_evals();
    let a = enc_str_array(nids);
    let whole = enc_string(key_node_id()) + seq![0x3au8] + enc_string(nid) + seq![0x2cu8]
        + enc_string(key_node_ids()) + seq![0x3au8] + a + seq![0x7du8];
    let m1 = enc_string(key_node_id()) + seq![0x3au8] + enc_string(nid) + seq![0x2cu8];
    let m2 = enc_string(key_node_ids()) + seq![0x3au8] + a + seq![0x7du8];
    assert(whole =~= m1 + m2);
    lemma_matches_split(s, f, m1, m2);
    assert(m1 =~= enc_string(key_node_id()) + seq![0x3au8] + enc_string(nid) + seq![0x2cu8]);
    lemma_member_layout(s, f, key_node_id(), enc_string(nid), 0x2c);
    let v = f + key_node_id().len() + 3;
    lemma_matches_index(s, v, enc_string(nid), 0);
    lemma_parse_string_enc(s, v, nid);
    let pend = v + nid.len() + 2;
    let sl_n = BodySlotsView { node_id: Some(nid), ..sl };
    assert(spec_body_value(s, v, key_node_id(), sl) == Some((sl_n, pend)));
    lemma_body_member_step(s, f, key_node_id(), sl, sl_n, pend);
    let f2 = pend + 1;
    assert(f + m1.len() == f2);
    lemma_member_layout(s, f2, key_node_ids(), a, 0x7d);
    let w = f2 + key_node_ids().len() + 3;
    lemma_matches_index(s, w, a, 0);
    assert(a[0] == 0x5b);
    lemma_str_array_enc(s, w, nids);
    let pend2 = w + a.len();
    let sl_nn = BodySlotsView { node_ids: Some(nids), ..sl_n };
    assert(spec_body_value(s, w, key_node_ids(), sl_n) == Some((sl_nn, pend2)));
    lemma_body_member_step(s, f2, key_node_ids(), sl_n, sl_nn, pend2);
}

/// The `"type"` member and the variant's own members, followed by the
/// body's closing brace, fill exactly the variant's slots.
#[verifier::rlimit(100)]
#[verifier::spinoff_prover]
proof fn lemma_payload_members_enc(s: Seq<u8>, i: int, p: PayloadView, sl: BodySlotsView)
    requires
        matches_at(s, i, enc_payload(p) + seq![0x7du8]),
        wf_payload(p),
        sl.ty is None,
        sl.node_id is None,
        sl.node_ids is None,
        sl.echo is None,
        sl.message is None,
        sl.messages is None,
        sl.gen_id is None,
        sl.topology is None,
    ensures
        spec_body_members(s, i, sl) == Some((fill_payload(sl, p), i + enc_payload(p).len() + 1)),
{
    lemma_literals_wf();
    lemma_key_evals();
    lemma_tag_evals();
    let tag = tag_of(p);
    let flds = enc_fields(p);
    let whole = enc_payload(p) + seq![0x7du8];
    assert(whole =~= enc_string(key_type()) + seq![0x3au8] + enc_string(tag) + (flds + seq![
        0x7du8,
    ]));
    lemma_matches_split(
        s,
        i,
        enc_string(key_type()) + seq![0x3au8] + enc_string(tag),
        flds + seq![0x7du8],
    );
    lemma_matches_split(s, i, enc_string(key_type()) + seq![0x3au8], enc_string(tag));
    lemma_matches_split(s, i, enc_string(key_type()), seq![0x3au8]);
    let colon = i + key_type().len() + 2;
    lemma_matches_index(s, colon, seq![0x3au8], 0);
    assert(s[colon] == 0x3a);
    let v = colon + 1;
    lemma_matches_index(s, v, enc_string(tag), 0);
    assert(s[v] == 0x22);
    lemma_parse_string_enc(s, v, tag);
    let q = v + tag.len() + 2;
    assert(spec_body_value(s, v, key_type(), sl) == Some(
        (BodySlotsView { ty: Some(tag), ..sl }, q),
    ));
    let sl_t = BodySlotsView { ty: Some(tag), ..sl };
    assert(q == i + enc_payload(p).len() - flds.len());
    lemma_matches_index(s, q, flds + seq![0x7du8], 0);
    if flds.len() == 0 {
        assert(s[q] == 0x7d);
        lemma_body_member_step(s, i, key_type(), sl, sl_t, q);
        assert(fill_payload(sl, p) == sl_t);
    } else {
        assert(s[q] == flds[0]);
        let f = q + 1;
        let mrest = flds.drop_first();
        assert(flds + seq![0x7du8] =~= seq![flds[0]] + (mrest + seq![0x7du8]));
        lemma_matches_split(s, q, seq![flds[0]], mrest + seq![0x7du8]);
        assert(flds[0] == 0x2c);
        lemma_body_member_step(s, i, key_type(), sl, sl_t, q);
        match p {
            PayloadView::Echo { echo } => {
                assert(mrest + seq![0x7du8] =~= enc_string(key_echo()) + seq![0x3au8] + enc_string(
                    echo,
                ) + seq![0x7du8]);
                lemma_fields_echo(s, f, echo, sl_t);
            },
            PayloadView::EchoOk { echo } => {
                assert(mrest + seq![0x7du8] =~= enc_string(key_echo()) + seq![0x3au8] + enc_string(
                    echo,
                ) + seq![0x7du8]);
                lemma_fields_echo(s, f, echo, sl_t);
            },
            PayloadView::GenerateOk { id } => {
                assert(mrest + seq![0x7du8] =~= enc_string(key_id()) + seq![0x3au8]
                    + spec_u64_digits(id as nat) + seq![0x7du8]);
                lemma_fields_id(s, f, id, sl_t);
            },
            PayloadView::Broadcast { message } => {
                let m = message.unwrap();
                assert(mrest + seq![0x7du8] =~= enc_string(key_message()) + seq![0x3au8]
                    + spec_u64_digits(m as nat) + seq![0x7du8]);
                lemma_fields_message(s, f, m, sl_t);
            },
            PayloadView::ReadOk { messages } => {
                assert(mrest + seq![0x7du8] =~= enc_string(key_messages()) + seq![0x3au8]
                    + enc_u64_array(messages) + seq![0x7du8]);
                lemma_fields_messages(s, f, messages, sl_t);
            },
            PayloadView::Topology { topology } => {
                assert(mrest + seq![0x7du8] =~= enc_string(key_topology()) + seq![0x3au8]
                    + enc_topology(topology) + seq![0x7du8]);
                lemma_fields_topology(s, f, topology, sl_t);
            },
            PayloadView::Init { node_id, node_ids } => {
                assert(mrest + seq![0x7du8] =~= enc_string(key_node_id()) + seq![0x3au8]
                    + enc_string(node_id) + seq![0x2cu8] + enc_string(key_node_ids()) + seq![
                    0x3au8,
                ] + enc_str_array(node_ids) + seq![0x7du8]);
                lemma_fields_init(s, f, node_id, node_ids, sl_t);
            },
            _ => {
                assert(flds.len() == 0);
            },
        }
    }
}

/// A leading `"in_reply_to"` number member, followed by a comma.
proof fn lemma_member_irt(s: Seq<u8>, f: int, x: u64, sl: BodySlotsView)
    requires
        matches_at(s, f, l_in_reply_to() + spec_u64_digits(x as nat) + seq![0x2cu8]),
        f + l_in_reply_to().len() + spec_u64_digits(x as nat).len() + 1 < s.len(),
        sl.in_reply_to is None,
    ensures
        spec_body_members(s, f, sl) == spec_body_members(
            s,
            f + l_in_reply_to().len() + spec_u64_digits(x as nat).len() + 1,
            BodySlotsView { in_reply_to: Some(Some(x)), ..sl },
        ),
{
    lemma_literals_wf();
    lemma_key_evals();
    let d = spec_u64_digits(x as nat);
    assert(l_in_reply_to() + d + seq![0x2cu8] =~= enc_string(key_in_reply_to()) + seq![0x3au8] + d
        + seq![0x2cu8]);
    lemma_member_layout(s, f, key_in_reply_to(), d, 0x2c);
    let v = f + key_in_reply_to().len() + 3;
    lemma_u64_digits_len(x as nat);
    lemma_u64_digits_are_digits(x as nat);
    lemma_matches_index(s, v, d, 0);
    assert(is_digit(s[v]));
    let pend = v + d.len();
    lemma_parse_u64_enc(s, v, x);
    assert(!spec_at_null(s, v));
    assert(spec_body_value(s, v, key_in_reply_to(), sl) == Some(
        (BodySlotsView { in_reply_to: Some(Some(x)), ..sl }, pend),
    ));
    lemma_body_member_step(
        s,
        f,
        key_in_reply_to(),
        sl,
        BodySlotsView { in_reply_to: Some(Some(x)), ..sl },
        pend,
    );
}

/// A leading `"msg_id"` number member, followed by a comma.
proof fn lemma_member_mid(s: Seq<u8>, f: int, x: u64, sl: BodySlotsView)
    requires
        matches_at(s, f, l_msg_id() + spec_u64_digits(x as nat) + seq![0x2cu8]),
        f + l_msg_id().len() + spec_u64_digits(x as nat).len() + 1 < s.len(),
        sl.msg_id is None,
    ensures
        spec_body_members(s, f, sl) == spec_body_members(
            s,
            f + l_msg_id().len() + spec_u64_digits(x as nat).len() + 1,
            BodySlotsView { msg_id: Some(Some(x)), ..sl },
        ),
{
    lemma_literals_wf();
    lemma_key_evals();
    let d = spec_u64_digits(x as nat);
    assert(l_msg_id() + d + seq![0x2cu8] =~= enc_string(key_msg_id()) + seq![0x3au8] + d + seq![
        0x2cu8,
    ]);
    lemma_member_layout(s, f, key_msg_id(), d, 0x2c);
    let v = f + key_msg_id().len() + 3;
    lemma_u64_digits_len(x as nat);
    lemma_u64_digits_are_digits(x as nat);
    lemma_matches_index(s, v, d, 0);
    assert(is_digit(s[v]));
    let pend = v + d.len();
    lemma_parse_u64_enc(s, v, x);
    assert(!spec_at_null(s, v));
    assert(spec_body_value(s, v, key_msg_id(), sl) == Some(
        (BodySlotsView { msg_id: Some(Some(x)), ..sl }, pend),
    ));
    lemma_body_member_step(
        s,
        f,
        key_msg_id(),
        sl,
        BodySlotsView { msg_id: Some(Some(x)), ..sl },
        pend,
    );
}

/// The correlation-id slots a body's members fill before its payload
/// members.
spec fn id_slots(b: BodyView) -> BodySlotsView {
    BodySlotsView {
        msg_id: match b.msg_id {
            Some(x) => Some(Some(x)),
            None => None,
        },
        in_reply_to: match b.in_reply_to {
            Some(x) => Some(Some(x)),
            None => None,
        },
        ty: None,
        node_id: None,
        node_ids: None,
        echo: None,
        message: None,
        messages: None,
        gen_id: None,
        topology: None,
    }
}

/// All the slots an encoded body's members fill.
spec fn slots_of_body(b: BodyView) -> BodySlotsView {
    fill_payload(id_slots(b), b.payload)
}

/// An encoded body parses back to exactly the slots of its fields.
#[verifier::rlimit(60)]
#[verifier::spinoff_prover]
proof fn lemma_parse_body_enc(s: Seq<u8>, n: int, b: BodyView)
    requires
        matches_at(s, n, spec_encode_body(b)),
        wf_payload(b.payload),
    ensures
        spec_parse_body(s, n) == Some((slots_of_body(b), n + spec_encode_body(b).len())),
{
    lemma_literals_wf();
    let e = spec_encode_body(b);
    let irt_frag = match b.in_reply_to {
        Some(x) => l_in_reply_to() + spec_u64_digits(x as nat) + seq![0x2cu8],
        None => Seq::<u8>::empty(),
    };
    let mid_frag = match b.msg_id {
        Some(x) => l_msg_id() + spec_u64_digits(x as nat) + seq![0x2cu8],
        None => Seq::<u8>::empty(),
    };
    let pm = enc_payload(b.payload) + seq![0x7du8];
    assert(e =~= seq![0x7bu8] + (irt_frag + (mid_frag + pm)));
    lemma_matches_split(s, n, seq![0x7bu8], irt_frag + (mid_frag + pm));
    lemma_matches_index(s, n, seq![0x7bu8], 0);
    assert(s[n] == 0x7b);
    let i0 = n + 1;
    lemma_matches_split(s, i0, irt_frag, mid_frag + pm);
    let i1 = i0 + irt_frag.len();
    lemma_matches_split(s, i1, mid_frag, pm);
    let i2 = i1 + mid_frag.len();
    lemma_matches_index(s, i0, irt_frag + (mid_frag + pm), 0);
    assert(s[i0] == 0x22);
    assert(spec_skip_ws(s, i0) == i0);
    let sl0 = spec_empty_body_slots();
    let sl1 = match b.in_reply_to {
        Some(x) => BodySlotsView { in_reply_to: Some(Some(x)), ..sl0 },
        None => sl0,
    };
    match b.in_reply_to {
        Some(x) => {
            lemma_member_irt(s, i0, x, sl0);
        },
        None => {},
    }
    let sl2 = match b.msg_id {
        Some(x) => BodySlotsView { msg_id: Some(Some(x)), ..sl1 },
        None => sl1,
    };
    match b.msg_id {
        Some(x) => {
            lemma_member_mid(s, i1, x, sl1);
        },
        None => {},
    }
    lemma_payload_members_enc(s, i2, b.payload, sl2);
    assert(spec_body_members(s, i0, sl0) == Some(
        (fill_payload(sl2, b.payload), i2 + enc_payload(b.payload).len() + 1),
    ));
    assert(sl2 == id_slots(b));
    assert(i2 + enc_payload(b.payload).len() + 1 == n + e.len());
}

/// One `"key": value` member of the envelope object, laid out with no
/// whitespace.
proof fn lemma_env_member_step(
    s: Seq<u8>,
    i: int,
    key: Seq<u8>,
    sl: EnvSlotsView,
    sl2: EnvSlotsView,
    p: int,
)
    requires
        matches_at(s, i, enc_string(key)),
        wf_str(key),
        i + key.len() + 2 < s.len(),
        s[i + key.len() + 2] == 0x3a,
        !is_ws(s[i + key.len() + 3]),
        spec_env_value(s, i + key.len() + 3, key, sl) == Some((sl2, p)),
        i < p < s.len(),
        s[p] == 0x2c || s[p] == 0x7d,
    ensures
        s[p] == 0x7d ==> spec_env_members(s, i, sl) == Some((sl2, p + 1)),
        s[p] == 0x2c ==> spec_env_members(s, i, sl) == spec_env_members(s, p + 1, sl2),
{
    lemma_matches_index(s, i, enc_string(key), 0);
    assert(enc_string(key)[0] == 0x22);
    assert(spec_skip_ws(s, i) == i);
    lemma_parse_string_enc(s, i, key);
    let k = i + key.len() + 2;
    assert(spec_skip_ws(s, k) == k);
    assert(spec_skip_ws(s, k + 1) == k + 1);
    assert(spec_skip_ws(s, p) == p);
    if s[p] == 0x2c {
        assert(bump(s, i, p + 1) == p + 1);
    }
}

/// The slots the payload members of an encoded body make back into the
/// payload they encode.
proof fn lemma_payload_from_slots_of(b: BodyView)
    ensures
        spec_payload_from_slots(slots_of_body(b)) == Some(b.payload),
{
    lemma_tag_evals();
    let sl = slots_of_body(b);
    assert(sl.ty == Some(tag_of(b.payload)));
    match b.payload {
        PayloadView::Broadcast { message } => {
            match message {
                Some(m) => {
                    assert(flatten_opt(sl.message) == Some(m));
                },
                None => {
                    assert(flatten_opt(sl.message) == None::<u64>);
                },
            }
        },
        _ => {},
    }
}

/// Whether every string a message carries is valid string content. A
/// message built from decoded input always is.
pub open spec fn wf_message(m: MessageView) -> bool {
    wf_str(m.src) && wf_str(m.dest) && wf_payload(m.body.payload)
}

/// A leading `"src"` or `"dest"` string member of the envelope,
/// followed by a comma.
proof fn lemma_env_member_string(s: Seq<u8>, i: int, key: Seq<u8>, c: Seq<u8>, sl: EnvSlotsView)
    requires
        matches_at(s, i, enc_string(key) + seq![0x3au8] + enc_string(c) + seq![0x2cu8]),
        i + (enc_string(key) + seq![0x3au8] + enc_string(c) + seq![0x2cu8]).len() < s.len(),
        wf_str(c),
        key == key_src() && sl.src is None || key == key_dest() && sl.dest is None,
    ensures
        key == key_src() ==> spec_env_members(s, i, sl) == spec_env_members(
            s,
            i + key.len() + 3 + c.len() + 2 + 1,
            EnvSlotsView { src: Some(c), ..sl },
        ),
        key == key_dest() ==> spec_env_members(s, i, sl) == spec_env_members(
            s,
            i + key.len() + 3 + c.len() + 2 + 1,
            EnvSlotsView { dest: Some(c), ..sl },
        ),
{
    lemma_literals_wf();
    lemma_key_evals();
    lemma_member_layout(s, i, key, enc_string(c), 0x2c);
    let v = i + key.len() + 3;
    lemma_parse_string_enc(s, v, c);
    let pend = v + c.len() + 2;
    if key == key_src() {
        let sl2 = EnvSlotsView { src: Some(c), ..sl };
        assert(spec_env_value(s, v, key, sl) == Some((sl2, pend)));
        lemma_env_member_step(s, i, key, sl, sl2, pend);
    } else {
        let sl2 = EnvSlotsView { dest: Some(c), ..sl };
        assert(spec_env_value(s, v, key, sl) == Some((sl2, pend)));
        lemma_env_member_step(s, i, key, sl, sl2, pend);
    }
}

/// The final `"body"` member of the envelope, followed by the closing
/// brace.
proof fn lemma_env_member_body(s: Seq<u8>, i: int, b: BodyView, sl: EnvSlotsView)
    requires
        matches_at(
            s,
            i,
            enc_string(key_body()) + seq![0x3au8] + spec_encode_body(b) + seq![0x7du8],
        ),
        wf_payload(b.payload),
        sl.body is None,
    ensures
        spec_env_members(s, i, sl) == Some(
            (
                EnvSlotsView { body: Some(slots_of_body(b)), ..sl },
                i + key_body().len() + 3 + spec_encode_body(b).len() + 1,
            ),
        ),
{
    lemma_literals_wf();
    lemma_key_evals();
    let eb = spec_encode_body(b);
    lemma_member_layout(s, i, key_body(), eb, 0x7d);
    let v = i + key_body().len() + 3;
    lemma_matches_index(s, v, eb, 0);
    assert(eb[0] == 0x7b);
    lemma_parse_body_enc(s, v, b);
    let pend = v + eb.len();
    let sl2 = EnvSlotsView { body: Some(slots_of_body(b)), ..sl };
    assert(spec_env_value(s, v, key_body(), sl) == Some((sl2, pend)));
    lemma_env_member_step(s, i, key_body(), sl, sl2, pend);
}

/// Where each envelope member stands inside an encoded message.
#[verifier::rlimit(100)]
#[verifier::spinoff_prover]
proof fn lemma_msg_layout(m: MessageView)
    ensures
        ({
            let s = spec_encode_message(m);
            let m_src = enc_string(key_src()) + seq![0x3au8] + enc_string(m.src) + seq![0x2cu8];
            let m_dest = enc_string(key_dest()) + seq![0x3au8] + enc_string(m.dest) + seq![0x2cu8];
            let m_body = enc_string(key_body()) + seq![0x3au8] + spec_encode_body(m.body) + seq![
                0x7du8,
            ];
            &&& s[0] == 0x7b
            &&& s[1] == 0x22
            &&& matches_at(s, 1, m_src)
            &&& matches_at(s, 1 + m_src.len() as int, m_dest)
            &&& matches_at(s, 1 + m_src.len() as int + m_dest.len() as int, m_body)
            &&& s.len() == 1 + m_src.len() + m_dest.len() + m_body.len()
        }),
{
    let s = spec_encode_message(m);
    let m_src = enc_string(key_src()) + seq![0x3au8] + enc_string(m.src) + seq![0x2cu8];
    let m_dest = enc_string(key_dest()) + seq![0x3au8] + enc_string(m.dest) + seq![0x2cu8];
    let m_body = enc_string(key_body()) + seq![0x3au8] + spec_encode_body(m.body) + seq![0x7du8];
    assert(matches_at(s, 0, s)) by {
        assert(s.subrange(0, s.len() as int) =~= s);
    }
    assert(s =~= seq![0x7bu8] + (m_src + (m_dest + m_body)));
    lemma_matches_split(s, 0, seq![0x7bu8], m_src + (m_dest + m_body));
    lemma_matches_index(s, 0, seq![0x7bu8], 0);
    lemma_matches_split(s, 1, m_src, m_dest + m_body);
    lemma_matches_split(s, 1 + m_src.len() as int, m_dest, m_body);
    lemma_matches_index(s, 1, m_src, 0);
    assert(m_src[0] == 0x22);
}

/// The round-trip law: the decoder maps every line the encoder can
/// produce back to exactly the message it encodes.
#[verifier::rlimit(100)]
#[verifier::spinoff_prover]
pub proof fn lemma_encode_roundtrip(m: MessageView)
    requires
        wf_message(m),
    ensures
        spec_parse_message(spec_encode_message(m)) == Some(m),
{
    lemma_literals_wf();
    lemma_key_evals();
    lemma_msg_layout(m);
    let s = spec_encode_message(m);
    let eb = spec_encode_body(m.body);
    let m_src = enc_string(key_src()) + seq![0x3au8] + enc_string(m.src) + seq![0x2cu8];
    let m_dest = enc_string(key_dest()) + seq![0x3au8] + enc_string(m.dest) + seq![0x2cu8];
    let m_body = enc_string(key_body()) + seq![0x3au8] + eb + seq![0x7du8];
    assert(spec_skip_ws(s, 0) == 0);
    let i0 = 1int;
    let i1 = i0 + m_src.len();
    let i2 = i1 + m_dest.len();
    assert(spec_skip_ws(s, i0) == i0);
    let e0 = spec_empty_env_slots();
    lemma_env_member_string(s, i0, key_src(), m.src, e0);
    let e1 = EnvSlotsView { src: Some(m.src), ..e0 };
    assert(i0 + key_src().len() + 3 + m.src.len() + 2 + 1 == i1);
    lemma_env_member_string(s, i1, key_dest(), m.dest, e1);
    let e2 = EnvSlotsView { dest: Some(m.dest), ..e1 };
    assert(i1 + key_dest().len() + 3 + m.dest.len() + 2 + 1 == i2);
    lemma_env_member_body(s, i2, m.body, e2);
    let e3 = EnvSlotsView { body: Some(slots_of_body(m.body)), ..e2 };
    assert(spec_env_members(s, i0, e0) == Some((e3, i2 + key_body().len() + 3 + eb.len() + 1)));
    assert(i2 + key_body().len() + 3 + eb.len() + 1 == s.len());
    assert(spec_skip_ws(s, s.len() as int) == s.len());
    lemma_payload_from_slots_of(m.body);
    let bsl = slots_of_body(m.body);
    assert(flatten_opt(bsl.msg_id) == m.body.msg_id);
    assert(flatten_opt(bsl.in_reply_to) == m.body.in_reply_to);
    assert(spec_parse_message(s) == Some(
        MessageView {
            src: m.src,
            dest: m.dest,
            body: BodyView {
                msg_id: m.body.msg_id,
                in_reply_to: m.body.in_reply_to,
                payload: m.body.payload,
            },
        },
    ));
    assert(MessageView {
        src: m.src,
        dest: m.dest,
        body: BodyView {
            msg_id: m.body.msg_id,
            in_reply_to: m.body.in_reply_to,
            payload: m.body.payload,
        },
    } == m);
}

/// A reply's strings all come from its request: the swapped endpoints
/// and, for `echo`, the echoed string itself. So a reply to a
/// well-formed request is well formed.
pub proof fn lemma_reply_wf(
    pre: NodeStateView,
    m: MessageView,
    post: NodeStateView,
    reply: Option<MessageView>,
)
    requires
        step_rel(pre, m, post, reply),
        reply is Some,
        wf_message(m),
    ensures
        wf_message(reply.unwrap()),
{
}

/// Every reply line the dispatcher emits decodes back to exactly the
/// reply it encodes, provided the triggering request was well formed —
/// which every request the decoder accepts is.
pub proof fn lemma_reply_line_roundtrip(
    pre: NodeStateView,
    m: MessageView,
    post: NodeStateView,
    reply: Option<MessageView>,
)
    requires
        step_rel(pre, m, post, reply),
        reply is Some,
        wf_message(m),
    ensures
        spec_parse_message(spec_encode_message(reply.unwrap())) == Some(reply.unwrap()),
{
    lemma_reply_wf(pre, m, post, reply);
    lemma_encode_roundtrip(reply.unwrap());
}

} // verus!
