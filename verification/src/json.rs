//! Scanners for the JSON tokens that the wire protocol uses: strings
//! (kept as their raw quoted content, escape sequences validated but not
//! rewritten), the `null` literal, arrays of strings, arrays of unsigned
//! integers, and objects mapping strings to arrays of strings.
//!
//! Every executable scanner mirrors a spec-level scanner exactly, so a
//! caller's contract can speak of the grammar directly.

use vstd::prelude::*;

use crate::bytes::{
    is_digit, parse_u64, skip_ws, spec_parse_u64, spec_skip_ws, sub_to_vec, ws_byte,
};

verus! {

/// The byte after a backslash in a one-character escape sequence:
/// one of `" \ / b f n r t`.
pub open spec fn is_simple_escape(b: u8) -> bool {
    b == 0x22 || b == 0x5c || b == 0x2f || b == 0x62 || b == 0x66 || b == 0x6e || b == 0x72 || b
        == 0x74
}

/// An ASCII hexadecimal digit byte.
pub open spec fn is_hex(b: u8) -> bool {
    is_digit(b) || 0x41 <= b <= 0x46 || 0x61 <= b <= 0x66
}

pub fn simple_escape_byte(b: u8) -> (r: bool)
    ensures
        r == is_simple_escape(b),
{
    b == 0x22 || b == 0x5c || b == 0x2f || b == 0x62 || b == 0x66 || b == 0x6e || b == 0x72 || b
        == 0x74
}

pub fn hex_byte(b: u8) -> (r: bool)
    ensures
        r == is_hex(b),
{
    (0x30 <= b && b <= 0x39) || (0x41 <= b && b <= 0x46) || (0x61 <= b && b <= 0x66)
}

/// Scans the body of a string literal. `i` points just after the opening
/// quote; the result is the index just after the closing quote. Escape
/// sequences must be well formed and unescaped control bytes are refused.
pub open spec fn spec_skip_string(s: Seq<u8>, i: int) -> Option<int>
    decreases s.len() - i,
{
    if !(0 <= i < s.len()) {
        None
    } else if s[i] == 0x22 {
        Some(i + 1)
    } else if s[i] == 0x5c {
        if i + 1 < s.len() && is_simple_escape(s[i + 1]) {
            spec_skip_string(s, i + 2)
        } else if i + 5 < s.len() && s[i + 1] == 0x75 && is_hex(s[i + 2]) && is_hex(s[i + 3])
            && is_hex(s[i + 4]) && is_hex(s[i + 5]) {
            spec_skip_string(s, i + 6)
        } else {
            None
        }
    } else if s[i] < 0x20 {
        None
    } else {
        spec_skip_string(s, i + 1)
    }
}

pub fn skip_string(s: &[u8], i: usize) -> (r: Option<usize>)
    requires
        i <= s@.len(),
    ensures
        match r {
            Some(j) => spec_skip_string(s@, i as int) == Some(j as int) && i < j <= s@.len(),
            None => spec_skip_string(s@, i as int) is None,
        },
    decreases s@.len() - i,
{
    if i >= s.len() {
        None
    } else if s[i] == 0x22 {
        Some(i + 1)
    } else if s[i] == 0x5c {
        if s.len() - i > 1 && simple_escape_byte(s[i + 1]) {
            skip_string(s, i + 2)
        } else if s.len() - i > 5 && s[i + 1] == 0x75 && hex_byte(s[i + 2]) && hex_byte(s[i + 3])
            && hex_byte(s[i + 4]) && hex_byte(s[i + 5]) {
            skip_string(s, i + 6)
        } else {
            None
        }
    } else if s[i] < 0x20 {
        None
    } else {
        skip_string(s, i + 1)
    }
}

/// A string literal at `i` (which must hold the opening quote): yields the
/// raw content between the quotes and the index just after the closing one.
pub open spec fn spec_parse_string(s: Seq<u8>, i: int) -> Option<(Seq<u8>, int)> {
    if 0 <= i < s.len() && s[i] == 0x22 {
        match spec_skip_string(s, i + 1) {
            Some(j) => Some((s.subrange(i + 1, j - 1), j)),
            None => None,
        }
    } else {
        None
    }
}

pub fn parse_string(s: &[u8], i: usize) -> (r: Option<(Vec<u8>, usize)>)
    requires
        i <= s@.len(),
    ensures
        match r {
            Some((c, j)) => spec_parse_string(s@, i as int) == Some((c@, j as int)) && i < j
                <= s@.len(),
            None => spec_parse_string(s@, i as int) is None,
        },
{
    if i >= s.len() || s[i] != 0x22 {
        return None;
    }
    match skip_string(s, i + 1) {
        Some(j) => {
            let c = sub_to_vec(s, i + 1, j - 1);
            Some((c, j))
        },
        None => None,
    }
}

/// Whether the four bytes of the `null` literal stand at `i`.
pub open spec fn spec_at_null(s: Seq<u8>, i: int) -> bool {
    0 <= i && i + 4 <= s.len() && s[i] == 0x6e && s[i + 1] == 0x75 && s[i + 2] == 0x6c && s[i + 3]
        == 0x6c
}

pub fn at_null(s: &[u8], i: usize) -> (r: bool)
    requires
        i <= s@.len(),
    ensures
        r == spec_at_null(s@, i as int),
{
    if s.len() < 4 || i > s.len() - 4 {
        return false;
    }
    s[i] == 0x6e && s[i + 1] == 0x75 && s[i + 2] == 0x6c && s[i + 3] == 0x6c
}

/// The deep view of a byte vector is its plain view.
pub proof fn lemma_deep_u8(v: Vec<u8>)
    ensures
        v.deep_view() == v@,
{
    assert(v.deep_view() =~= v@);
}

/// A number-or-`null` value at `i`: `null` yields `None`, a decimal
/// number yields its value.
pub open spec fn spec_parse_opt_u64(s: Seq<u8>, i: int) -> Option<(Option<u64>, int)> {
    if spec_at_null(s, i) {
        Some((None, i + 4))
    } else {
        match spec_parse_u64(s, i) {
            Some((v, j)) => Some((Some(v), j)),
            None => None,
        }
    }
}

pub fn parse_opt_u64(s: &[u8], i: usize) -> (r: Option<(Option<u64>, usize)>)
    requires
        i <= s@.len(),
    ensures
        match r {
            Some((v, j)) => spec_parse_opt_u64(s@, i as int) == Some((v, j as int)) && i < j
                <= s@.len(),
            None => spec_parse_opt_u64(s@, i as int) is None,
        },
{
    let n = s.len();
    if at_null(s, i) {
        Some((None, i + 4))
    } else {
        match parse_u64(s, i) {
            Some((v, j)) => Some((Some(v), j)),
            None => None,
        }
    }
}

/// Keeps the scan index strictly advancing and inside the input, which
/// makes the termination of the element scanners below evident; on every
/// reachable path the clamp is the identity, as the executable mirrors show.
pub open spec fn bump(s: Seq<u8>, i: int, m: int) -> int {
    if i < m && m <= s.len() {
        m
    } else {
        s.len() as int
    }
}

/// One or more comma-separated string literals followed by `]`; `i` points
/// at the start of the first element (whitespace allowed). `acc` holds the
/// elements already read.
pub open spec fn spec_str_elems(s: Seq<u8>, i: int, acc: Seq<Seq<u8>>) -> Option<
    (Seq<Seq<u8>>, int),
>
    decreases s.len() - i,
{
    if !(0 <= i < s.len()) {
        None
    } else {
        let j = spec_skip_ws(s, i);
        match spec_parse_string(s, j) {
            None => None,
            Some((c, k)) => {
                let m = spec_skip_ws(s, k);
                if m < s.len() && s[m] == 0x5d {
                    Some((acc.push(c), m + 1))
                } else if m < s.len() && s[m] == 0x2c {
                    spec_str_elems(s, bump(s, i, m + 1), acc.push(c))
                } else {
                    None
                }
            },
        }
    }
}

/// An array of string literals at `i` (which must hold `[`).
pub open spec fn spec_parse_str_array(s: Seq<u8>, i: int) -> Option<(Seq<Seq<u8>>, int)> {
    if 0 <= i < s.len() && s[i] == 0x5b {
        let j = spec_skip_ws(s, i + 1);
        if j < s.len() && s[j] == 0x5d {
            Some((Seq::empty(), j + 1))
        } else {
            spec_str_elems(s, i + 1, Seq::empty())
        }
    } else {
        None
    }
}

fn str_elems(s: &[u8], i: usize, acc: Vec<Vec<u8>>) -> (r: Option<(Vec<Vec<u8>>, usize)>)
    requires
        i <= s@.len(),
    ensures
        match r {
            Some((v, j)) => spec_str_elems(s@, i as int, acc.deep_view()) == Some(
                (v.deep_view(), j as int),
            ) && i < j <= s@.len(),
            None => spec_str_elems(s@, i as int, acc.deep_view()) is None,
        },
    decreases s@.len() - i,
{
    if i >= s.len() {
        return None;
    }
    let j = skip_ws(s, i);
    match parse_string(s, j) {
        None => None,
        Some((c, k)) => {
            let m = skip_ws(s, k);
            let ghost cv = c@;
            proof {
                lemma_deep_u8(c);
            }
            let mut acc2 = acc;
            acc2.push(c);
            proof {
                assert(acc2.deep_view() =~= acc.deep_view().push(cv));
            }
            if m < s.len() && s[m] == 0x5d {
                Some((acc2, m + 1))
            } else if m < s.len() && s[m] == 0x2c {
                proof {
                    assert(bump(s@, i as int, m + 1) == m + 1);
                }
                str_elems(s, m + 1, acc2)
            } else {
                None
            }
        },
    }
}

pub fn parse_str_array(s: &[u8], i: usize) -> (r: Option<(Vec<Vec<u8>>, usize)>)
    requires
        i <= s@.len(),
    ensures
        match r {
            Some((v, j)) => spec_parse_str_array(s@, i as int) == Some((v.deep_view(), j as int))
                && i < j <= s@.len(),
            None => spec_parse_str_array(s@, i as int) is None,
        },
{
    if i >= s.len() || s[i] != 0x5b {
        return None;
    }
    let j = skip_ws(s, i + 1);
    if j < s.len() && s[j] == 0x5d {
        let v: Vec<Vec<u8>> = Vec::new();
        proof {
            assert(v.deep_view() =~= Seq::<Seq<u8>>::empty());
        }
        Some((v, j + 1))
    } else {
        let acc: Vec<Vec<u8>> = Vec::new();
        proof {
            assert(acc.deep_view() =~= Seq::<Seq<u8>>::empty());
        }
        str_elems(s, i + 1, acc)
    }
}

/// One or more comma-separated unsigned numbers followed by `]`.
pub open spec fn spec_u64_elems(s: Seq<u8>, i: int, acc: Seq<u64>) -> Option<(Seq<u64>, int)>
    decreases s.len() - i,
{
    if !(0 <= i < s.len()) {
        None
    } else {
        let j = spec_skip_ws(s, i);
        match spec_parse_u64(s, j) {
            None => None,
            Some((v, k)) => {
                let m = spec_skip_ws(s, k);
                if m < s.len() && s[m] == 0x5d {
                    Some((acc.push(v), m + 1))
                } else if m < s.len() && s[m] == 0x2c {
                    spec_u64_elems(s, bump(s, i, m + 1), acc.push(v))
                } else {
                    None
                }
            },
        }
    }
}

/// An array of unsigned numbers at `i` (which must hold `[`).
pub open spec fn spec_parse_u64_array(s: Seq<u8>, i: int) -> Option<(Seq<u64>, int)> {
    if 0 <= i < s.len() && s[i] == 0x5b {
        let j = spec_skip_ws(s, i + 1);
        if j < s.len() && s[j] == 0x5d {
            Some((Seq::empty(), j + 1))
        } else {
            spec_u64_elems(s, i + 1, Seq::empty())
        }
    } else {
        None
    }
}

fn u64_elems(s: &[u8], i: usize, acc: Vec<u64>) -> (r: Option<(Vec<u64>, usize)>)
    requires
        i <= s@.len(),
    ensures
        match r {
            Some((v, j)) => spec_u64_elems(s@, i as int, acc@) == Some((v@, j as int)) && i < j
                <= s@.len(),
            None => spec_u64_elems(s@, i as int, acc@) is None,
        },
    decreases s@.len() - i,
{
    if i >= s.len() {
        return None;
    }
    let j = skip_ws(s, i);
    match parse_u64(s, j) {
        None => None,
        Some((v, k)) => {
            let m = skip_ws(s, k);
            let mut acc2 = acc;
            acc2.push(v);
            if m < s.len() && s[m] == 0x5d {
                Some((acc2, m + 1))
            } else if m < s.len() && s[m] == 0x2c {
                proof {
                    assert(bump(s@, i as int, m + 1) == m + 1);
                }
                u64_elems(s, m + 1, acc2)
            } else {
                None
            }
        },
    }
}

pub fn parse_u64_array(s: &[u8], i: usize) -> (r: Option<(Vec<u64>, usize)>)
    requires
        i <= s@.len(),
    ensures
        match r {
            Some((v, j)) => spec_parse_u64_array(s@, i as int) == Some((v@, j as int)) && i < j
                <= s@.len(),
            None => spec_parse_u64_array(s@, i as int) is None,
        },
{
    if i >= s.len() || s[i] != 0x5b {
        return None;
    }
    let j = skip_ws(s, i + 1);
    if j < s.len() && s[j] == 0x5d {
        let v: Vec<u64> = Vec::new();
        Some((v, j + 1))
    } else {
        let acc: Vec<u64> = Vec::new();
        u64_elems(s, i + 1, acc)
    }
}

/// One or more `"key": [strings]` members followed by `}`; the pairs are
/// collected in input order.
pub open spec fn spec_topo_members(
    s: Seq<u8>,
    i: int,
    acc: Seq<(Seq<u8>, Seq<Seq<u8>>)>,
) -> Option<(Seq<(Seq<u8>, Seq<Seq<u8>>)>, int)>
    decreases s.len() - i,
{
    if !(0 <= i < s.len()) {
        None
    } else {
        let j = spec_skip_ws(s, i);
        match spec_parse_string(s, j) {
            None => None,
            Some((key, k)) => {
                let m = spec_skip_ws(s, k);
                if !(m < s.len() && s[m] == 0x3a) {
                    None
                } else {
                    let n = spec_skip_ws(s, m + 1);
                    match spec_parse_str_array(s, n) {
                        None => None,
                        Some((arr, p)) => {
                            let q = spec_skip_ws(s, p);
                            if q < s.len() && s[q] == 0x7d {
                                Some((acc.push((key, arr)), q + 1))
                            } else if q < s.len() && s[q] == 0x2c {
                                spec_topo_members(s, bump(s, i, q + 1), acc.push((key, arr)))
                            } else {
                                None
                            }
                        },
                    }
                }
            },
        }
    }
}

/// An object mapping strings to arrays of strings, at `i` (which must
/// hold `{`): the declared shape of a topology value.
pub open spec fn spec_parse_topology(s: Seq<u8>, i: int) -> Option<
    (Seq<(Seq<u8>, Seq<Seq<u8>>)>, int),
> {
    if 0 <= i < s.len() && s[i] == 0x7b {
        let j = spec_skip_ws(s, i + 1);
        if j < s.len() && s[j] == 0x7d {
            Some((Seq::empty(), j + 1))
        } else {
            spec_topo_members(s, i + 1, Seq::empty())
        }
    } else {
        None
    }
}

fn topo_members(s: &[u8], i: usize, acc: Vec<(Vec<u8>, Vec<Vec<u8>>)>) -> (r: Option<
    (Vec<(Vec<u8>, Vec<Vec<u8>>)>, usize),
>)
    requires
        i <= s@.len(),
    ensures
        match r {
            Some((v, j)) => spec_topo_members(s@, i as int, acc.deep_view()) == Some(
                (v.deep_view(), j as int),
            ) && i < j <= s@.len(),
            None => spec_topo_members(s@, i as int, acc.deep_view()) is None,
        },
    decreases s@.len() - i,
{
    if i >= s.len() {
        return None;
    }
    let j = skip_ws(s, i);
    match parse_string(s, j) {
        None => None,
        Some((key, k)) => {
            let m = skip_ws(s, k);
            if !(m < s.len() && s[m] == 0x3a) {
                return None;
            }
            let n = skip_ws(s, m + 1);
            match parse_str_array(s, n) {
                None => None,
                Some((arr, p)) => {
                    let q = skip_ws(s, p);
                    let ghost pair = (key@, arr.deep_view());
                    proof {
                        lemma_deep_u8(key);
                    }
                    let mut acc2 = acc;
                    acc2.push((key, arr));
                    proof {
                        assert(acc2.deep_view() =~= acc.deep_view().push(pair));
                    }
                    if q < s.len() && s[q] == 0x7d {
                        Some((acc2, q + 1))
                    } else if q < s.len() && s[q] == 0x2c {
                        proof {
                            assert(bump(s@, i as int, q + 1) == q + 1);
                        }
                        topo_members(s, q + 1, acc2)
                    } else {
                        None
                    }
                },
            }
        },
    }
}

pub fn parse_topology(s: &[u8], i: usize) -> (r: Option<(Vec<(Vec<u8>, Vec<Vec<u8>>)>, usize)>)
    requires
        i <= s@.len(),
    ensures
        match r {
            Some((v, j)) => spec_parse_topology(s@, i as int) == Some((v.deep_view(), j as int))
                && i < j <= s@.len(),
            None => spec_parse_topology(s@, i as int) is None,
        },
{
    if i >= s.len() || s[i] != 0x7b {
        return None;
    }
    let j = skip_ws(s, i + 1);
    if j < s.len() && s[j] == 0x7d {
        let v: Vec<(Vec<u8>, Vec<Vec<u8>>)> = Vec::new();
        proof {
            assert(v.deep_view() =~= Seq::<(Seq<u8>, Seq<Seq<u8>>)>::empty());
        }
        Some((v, j + 1))
    } else {
        let acc: Vec<(Vec<u8>, Vec<Vec<u8>>)> = Vec::new();
        proof {
            assert(acc.deep_view() =~= Seq::<(Seq<u8>, Seq<Seq<u8>>)>::empty());
        }
        topo_members(s, i + 1, acc)
    }
}

} // verus!
