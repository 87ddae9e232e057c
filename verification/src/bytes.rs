//! Byte-level scanning primitives shared by the line decoder and encoder:
//! whitespace and digit runs, unsigned decimal numbers in both directions,
//! and byte-sequence comparison and copying.

use vstd::prelude::*;

verus! {

/// A JSON whitespace byte: space, tab, line feed or carriage return.
pub open spec fn is_ws(b: u8) -> bool {
    b == 0x20 || b == 0x09 || b == 0x0a || b == 0x0d
}

/// An ASCII decimal digit byte.
pub open spec fn is_digit(b: u8) -> bool {
    0x30 <= b <= 0x39
}

/// Index of the first byte at or after `i` that is not whitespace
/// (or the end of the input).
pub open spec fn spec_skip_ws(s: Seq<u8>, i: int) -> int
    decreases s.len() - i,
{
    if 0 <= i < s.len() && is_ws(s[i]) {
        spec_skip_ws(s, i + 1)
    } else {
        i
    }
}

/// Index of the first byte at or after `i` that is not a digit
/// (or the end of the input).
pub open spec fn spec_skip_digits(s: Seq<u8>, i: int) -> int
    decreases s.len() - i,
{
    if 0 <= i < s.len() && is_digit(s[i]) {
        spec_skip_digits(s, i + 1)
    } else {
        i
    }
}

pub proof fn lemma_skip_digits_bounds(s: Seq<u8>, i: int)
    requires
        0 <= i <= s.len(),
    ensures
        i <= spec_skip_digits(s, i) <= s.len(),
    decreases s.len() - i,
{
    if i < s.len() && is_digit(s[i]) {
        lemma_skip_digits_bounds(s, i + 1);
    }
}

/// Every byte of the run skipped by `spec_skip_digits` is a digit.
pub proof fn lemma_skip_digits_all(s: Seq<u8>, i: int)
    requires
        0 <= i <= s.len(),
    ensures
        forall|t: int| i <= t < spec_skip_digits(s, i) ==> is_digit(s[t]),
    decreases s.len() - i,
{
    if i < s.len() && is_digit(s[i]) {
        lemma_skip_digits_all(s, i + 1);
    } else {
        lemma_skip_digits_bounds(s, i);
    }
}

pub fn ws_byte(b: u8) -> (r: bool)
    ensures
        r == is_ws(b),
{
    b == 0x20 || b == 0x09 || b == 0x0a || b == 0x0d
}

pub fn digit_byte(b: u8) -> (r: bool)
    ensures
        r == is_digit(b),
{
    0x30 <= b && b <= 0x39
}

pub fn skip_ws(s: &[u8], i: usize) -> (r: usize)
    requires
        i <= s@.len(),
    ensures
        r == spec_skip_ws(s@, i as int),
        i <= r <= s@.len(),
    decreases s@.len() - i,
{
    if i < s.len() && ws_byte(s[i]) {
        skip_ws(s, i + 1)
    } else {
        i
    }
}

pub fn skip_digits(s: &[u8], i: usize) -> (r: usize)
    requires
        i <= s@.len(),
    ensures
        r == spec_skip_digits(s@, i as int),
        i <= r <= s@.len(),
    decreases s@.len() - i,
{
    if i < s.len() && digit_byte(s[i]) {
        skip_digits(s, i + 1)
    } else {
        i
    }
}

/// Value of the decimal digit run `s[i..j]`, most significant digit first.
pub open spec fn digits_val(s: Seq<u8>, i: int, j: int) -> nat
    decreases j - i,
{
    if i < j {
        digits_val(s, i, j - 1) * 10 + (s[j - 1] - 0x30) as nat
    } else {
        0
    }
}

/// A longer digit run never has a smaller value.
pub proof fn lemma_digits_val_mono(s: Seq<u8>, i: int, a: int, b: int)
    requires
        i <= a <= b,
    ensures
        digits_val(s, i, a) <= digits_val(s, i, b),
    decreases b - a,
{
    if a < b {
        lemma_digits_val_mono(s, i, a, b - 1);
    }
}

/// An unsigned decimal number token at `i`: a maximal digit run with no
/// superfluous leading zero, whose value fits in a `u64`. Yields the
/// value and the index just after the run.
pub open spec fn spec_parse_u64(s: Seq<u8>, i: int) -> Option<(u64, int)> {
    let j = spec_skip_digits(s, i);
    if j == i {
        None
    } else if s[i] == 0x30 && j > i + 1 {
        None
    } else if digits_val(s, i, j) > u64::MAX {
        None
    } else {
        Some((digits_val(s, i, j) as u64, j))
    }
}

pub fn parse_u64(s: &[u8], i: usize) -> (r: Option<(u64, usize)>)
    requires
        i <= s@.len(),
    ensures
        match r {
            Some((v, j)) => spec_parse_u64(s@, i as int) == Some((v, j as int)) && i < j
                <= s@.len(),
            None => spec_parse_u64(s@, i as int) is None,
        },
{
    let j = skip_digits(s, i);
    if j == i {
        return None;
    }
    if s[i] == 0x30 && j > i + 1 {
        return None;
    }
    let ghost sv = s@;
    proof {
        lemma_skip_digits_all(sv, i as int);
    }
    let mut acc: u64 = 0;
    let mut k: usize = i;
    while k < j
        invariant
            i <= k <= j <= sv.len(),
            s@ == sv,
            spec_skip_digits(sv, i as int) == j,
            forall|t: int| i <= t < j ==> is_digit(sv[t]),
            acc == digits_val(sv, i as int, k as int),
        decreases j - k,
    {
        let d: u8 = s[k] - 0x30;
        let wide: u128 = (acc as u128) * 10 + (d as u128);
        if wide > u64::MAX as u128 {
            proof {
                assert(digits_val(sv, i as int, k + 1) > u64::MAX);
                lemma_digits_val_mono(sv, i as int, k + 1, j as int);
            }
            return None;
        }
        acc = wide as u64;
        k = k + 1;
    }
    Some((acc, j))
}

/// Decimal digits of `n`, most significant first, without leading zeros.
pub open spec fn spec_u64_digits(n: nat) -> Seq<u8>
    decreases n,
{
    if n < 10 {
        seq![(0x30 + n) as u8]
    } else {
        spec_u64_digits(n / 10).push((0x30 + n % 10) as u8)
    }
}

/// Appends the decimal digits of `n` to `out`.
pub fn fmt_u64(n: u64, out: &mut Vec<u8>)
    ensures
        final(out)@ == old(out)@ + spec_u64_digits(n as nat),
    decreases n,
{
    if n < 10 {
        out.push(0x30 + (n as u8));
        proof {
            assert(out@ =~= old(out)@ + spec_u64_digits(n as nat));
        }
    } else {
        fmt_u64(n / 10, out);
        out.push(0x30 + ((n % 10) as u8));
        proof {
            assert(out@ =~= old(out)@ + spec_u64_digits(n as nat));
        }
    }
}

/// Byte-for-byte equality of two slices.
pub fn bytes_eq(a: &[u8], b: &[u8]) -> (r: bool)
    ensures
        r == (a@ == b@),
{
    if a.len() != b.len() {
        return false;
    }
    let mut i: usize = 0;
    while i < a.len()
        invariant
            a@.len() == b@.len(),
            i <= a@.len(),
            forall|j: int| 0 <= j < i ==> a@[j] == b@[j],
        decreases a@.len() - i,
    {
        if a[i] != b[i] {
            return false;
        }
        i = i + 1;
    }
    proof {
        assert(a@ =~= b@);
    }
    true
}

/// Copies `s[a..b]` into a fresh vector.
pub fn sub_to_vec(s: &[u8], a: usize, b: usize) -> (r: Vec<u8>)
    requires
        a <= b <= s@.len(),
    ensures
        r@ == s@.subrange(a as int, b as int),
{
    let mut r: Vec<u8> = Vec::new();
    let mut i: usize = a;
    while i < b
        invariant
            a <= i <= b <= s@.len(),
            r@ == s@.subrange(a as int, i as int),
        decreases b - i,
    {
        r.push(s[i]);
        proof {
            assert(r@ =~= s@.subrange(a as int, (i + 1) as int));
        }
        i = i + 1;
    }
    r
}

} // verus!
