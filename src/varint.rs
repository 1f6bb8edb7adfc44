//! Variable-length integers: 1, 2, 4 or 8 bytes, the two high bits of the
//! first byte selecting the length.

use vstd::prelude::*;
use vstd::arithmetic::div_mod::{
    lemma_breakdown, lemma_div_denominator, lemma_fundamental_div_mod,
    lemma_fundamental_div_mod_converse_div, lemma_fundamental_div_mod_converse_mod,
};

verus! {

/// Largest value a variable-length integer can carry: 2^62 - 1.
pub const VARINT_MAX: u64 = 0x3fff_ffff_ffff_ffff;

/// 256 to the power `n`.
pub open spec fn pow256(n: nat) -> nat
    decreases n,
{
    if n == 0 {
        1
    } else {
        256 * pow256((n - 1) as nat)
    }
}

/// The value of a big-endian byte string.
pub open spec fn be_value(s: Seq<u8>) -> nat
    decreases s.len(),
{
    if s.len() == 0 {
        0
    } else {
        be_value(s.drop_last()) * 256 + s.last() as nat
    }
}

/// The `n` low-order bytes of `v`, most significant first.
pub open spec fn be_bytes(v: nat, n: nat) -> Seq<u8>
    decreases n,
{
    if n == 0 {
        Seq::empty()
    } else {
        be_bytes(v / 256, (n - 1) as nat).push((v % 256) as u8)
    }
}

/// Number of bytes of the shortest encoding of `v`.
pub open spec fn varint_size(v: nat) -> nat {
    if v < 0x40 {
        1
    } else if v < 0x4000 {
        2
    } else if v < 0x4000_0000 {
        4
    } else {
        8
    }
}

/// The value of the two length bits for an encoding of `n` bytes, placed at
/// the top of an `n`-byte big-endian number.
pub open spec fn size_tag(n: nat) -> nat {
    if n == 1 {
        0
    } else if n == 2 {
        0x4000
    } else if n == 4 {
        0x8000_0000
    } else {
        0xc000_0000_0000_0000
    }
}

/// The shortest encoding of `v`.
pub open spec fn varint_bytes(v: nat) -> Seq<u8> {
    be_bytes(v + size_tag(varint_size(v)), varint_size(v))
}

/// Length of the encoding whose first byte is `b`.
pub open spec fn len_from_first(b: u8) -> nat {
    if b < 0x40 {
        1
    } else if b < 0x80 {
        2
    } else if b < 0xc0 {
        4
    } else {
        8
    }
}

/// What a reader makes of the bytes of `s` from `pos` on: the value and the
/// position after it, or `None` when the input ends too early.
pub open spec fn varint_at(s: Seq<u8>, pos: int) -> Option<(nat, int)> {
    if pos < 0 || pos >= s.len() {
        None
    } else {
        let n = len_from_first(s[pos]);
        if pos + n > s.len() {
            None
        } else {
            let body = seq![(s[pos] % 64) as u8] + s.subrange(pos + 1, pos + n);
            Some((be_value(body), pos + n))
        }
    }
}

proof fn lemma_pow256_mono(a: nat, b: nat)
    requires
        a <= b,
    ensures
        pow256(a) <= pow256(b),
    decreases b - a,
{
    if a < b {
        lemma_pow256_mono(a, (b - 1) as nat);
    }
}

proof fn lemma_be_bytes_len(v: nat, n: nat)
    ensures
        be_bytes(v, n).len() == n,
    decreases n,
{
    if n > 0 {
        lemma_be_bytes_len(v / 256, (n - 1) as nat);
    }
}

/// The shortest encoding of `v` is `varint_size(v)` bytes long.
pub proof fn lemma_varint_bytes_len(v: nat)
    ensures
        varint_bytes(v).len() == varint_size(v),
{
    lemma_be_bytes_len(v + size_tag(varint_size(v)), varint_size(v));
}

/// Number of bytes `encode` writes for `v`.
pub fn encoded_size(v: u64) -> (r: usize)
    ensures
        r as nat == varint_size(v as nat),
        r as nat == varint_bytes(v as nat).len(),
        1 <= r <= 8,
{
    proof {
        lemma_varint_bytes_len(v as nat);
    }
    if v < 0x40 {
        1
    } else if v < 0x4000 {
        2
    } else if v < 0x4000_0000 {
        4
    } else {
        8
    }
}

fn put_be(buf: &mut Vec<u8>, v: u64, n: usize)
    requires
        n <= 8,
    ensures
        final(buf)@ == old(buf)@ + be_bytes(v as nat, n as nat),
    decreases n,
{
    if n > 0 {
        put_be(buf, v / 256, n - 1);
        buf.push((v % 256) as u8);
        assert(be_bytes(v as nat, n as nat) == be_bytes((v / 256) as nat, (n - 1) as nat).push(
            (v % 256) as u8,
        ));
    }
}

/// Appends the shortest encoding of `v`.
pub fn encode(buf: &mut Vec<u8>, v: u64)
    requires
        v <= VARINT_MAX,
    ensures
        final(buf)@ == old(buf)@ + varint_bytes(v as nat),
{
    let n = encoded_size(v);
    let tagged: u64 = if n == 1 {
        v
    } else if n == 2 {
        v + 0x4000
    } else if n == 4 {
        v + 0x8000_0000
    } else {
        v + 0xc000_0000_0000_0000
    };
    put_be(buf, tagged, n);
}

/// Reads a variable-length integer at `pos`: its value and the position after
/// it, or `None` when the input ends first.
pub fn decode(s: &[u8], pos: usize) -> (r: Option<(u64, usize)>)
    ensures
        match (r, varint_at(s@, pos as int)) {
            (Some((v, next)), Some((sv, snext))) => v as nat == sv && next as int == snext,
            (None, None) => true,
            _ => false,
        },
        r matches Some((v, next)) ==> v <= VARINT_MAX && next > pos,
{
    if pos >= s.len() {
        return None;
    }
    let first = s[pos];
    let n: usize = if first < 0x40 {
        1
    } else if first < 0x80 {
        2
    } else if first < 0xc0 {
        4
    } else {
        8
    };
    if n > s.len() - pos {
        return None;
    }
    let ghost body = seq![(first % 64) as u8] + s@.subrange(pos + 1, pos + n);
    let mut acc: u64 = (first % 64) as u64;
    let mut i: usize = 1;
    proof {
        assert(body.subrange(0, 1).drop_last() =~= Seq::<u8>::empty());
        assert(be_value(Seq::<u8>::empty()) == 0);
        assert(be_value(body.subrange(0, 1)) == (first % 64) as nat);
        reveal_with_fuel(pow256, 8);
    }
    while i < n
        invariant
            1 <= i <= n <= 8,
            pos + n <= s.len(),
            body.len() == n,
            body == seq![(first % 64) as u8] + s@.subrange(pos + 1, pos + n),
            acc as nat == be_value(body.subrange(0, i as int)),
            acc * 4 < pow256(i as nat),
            pow256(7) == 0x100_0000_0000_0000,
        decreases n - i,
    {
        let b = s[pos + i];
        proof {
            assert(body.subrange(0, i + 1).drop_last() =~= body.subrange(0, i as int));
            assert(body[i as int] == b);
            let p = pow256(i as nat);
            assert(pow256((i + 1) as nat) == 256 * p);
            lemma_pow256_mono(i as nat, 7);
            let q = pow256((i - 1) as nat);
            assert(p == 256 * q);
            assert((acc * 256 + b) * 4 < 256 * p) by (nonlinear_arith)
                requires
                    acc * 4 < p,
                    p == 256 * q,
                    b < 256,
                    p <= 0x100_0000_0000_0000,
            ;
        }
        acc = acc * 256 + b as u64;
        i = i + 1;
    }
    proof {
        assert(body.subrange(0, n as int) =~= body);
    }
    Some((acc, pos + n))
}

proof fn lemma_pow256_pos(n: nat)
    ensures
        pow256(n) > 0,
    decreases n,
{
    if n > 0 {
        lemma_pow256_pos((n - 1) as nat);
    }
}

proof fn lemma_be_value_push(s: Seq<u8>, x: u8)
    ensures
        be_value(s.push(x)) == be_value(s) * 256 + x,
{
    assert(s.push(x).drop_last() =~= s);
}

proof fn lemma_be_value_of_bytes(w: nat, n: nat)
    ensures
        be_value(be_bytes(w, n)) == w % pow256(n),
    decreases n,
{
    if n == 0 {
        assert(be_value(Seq::<u8>::empty()) == 0);
    } else {
        lemma_be_value_of_bytes(w / 256, (n - 1) as nat);
        lemma_be_value_push(be_bytes(w / 256, (n - 1) as nat), (w % 256) as u8);
        lemma_pow256_pos((n - 1) as nat);
        lemma_breakdown(w as int, 256, pow256((n - 1) as nat) as int);
    }
}

proof fn lemma_be_value_front(x: u8, t: Seq<u8>)
    ensures
        be_value(seq![x] + t) == x * pow256(t.len()) + be_value(t),
    decreases t.len(),
{
    if t.len() == 0 {
        assert(seq![x] + t =~= seq![x]);
        assert(seq![x].drop_last() =~= Seq::<u8>::empty());
        assert(be_value(Seq::<u8>::empty()) == 0);
        assert(be_value(seq![x]) == x);
        assert(pow256(0) == 1);
        assert(be_value(t) == 0);
    } else {
        lemma_be_value_front(x, t.drop_last());
        assert((seq![x] + t).drop_last() =~= seq![x] + t.drop_last());
        assert((seq![x] + t).last() == t.last());
        let p = pow256((t.len() - 1) as nat);
        let b = be_value(t.drop_last());
        let l = t.last() as int;
        assert(pow256(t.len()) == 256 * p);
        assert(be_value(t) == b * 256 + l);
        assert(be_value(seq![x] + t) == be_value(seq![x] + t.drop_last()) * 256 + l);
        assert((x * p + b) * 256 + l == x * (256 * p) + (b * 256 + l)) by (nonlinear_arith);
    }
}

proof fn lemma_be_bytes_first(w: nat, n: nat)
    requires
        n >= 1,
    ensures
        be_bytes(w, n)[0] == (w / pow256((n - 1) as nat)) % 256,
    decreases n,
{
    lemma_be_bytes_len(w / 256, (n - 1) as nat);
    if n == 1 {
        assert(pow256(0) == 1);
    } else {
        lemma_be_bytes_first(w / 256, (n - 1) as nat);
        lemma_pow256_pos((n - 2) as nat);
        lemma_div_denominator(w as int, 256, pow256((n - 2) as nat) as int);
    }
}

/// Reading back the encoding of `v`, whatever follows it, gives `v` and
/// the position after the encoding.
#[verifier::rlimit(40)]
pub proof fn lemma_varint_round_trip(v: nat, rest: Seq<u8>)
    requires
        v <= VARINT_MAX,
    ensures
        varint_at(varint_bytes(v) + rest, 0) == Some((v, varint_size(v) as int)),
{
    reveal_with_fuel(pow256, 9);
    let n = varint_size(v);
    let p = pow256((n - 1) as nat);
    let k: nat = if n == 1 { 0 } else if n == 2 { 1 } else if n == 4 { 2 } else { 3 };
    if n == 1 {
        assert(p == 1);
        assert(size_tag(n) == 64 * k * p && v < 64 * p && 64 * p * 4 == pow256(n));
    } else if n == 2 {
        assert(p == 0x100);
        assert(size_tag(n) == 64 * k * p && v < 64 * p && 64 * p * 4 == pow256(n));
    } else if n == 4 {
        assert(p == 0x100_0000);
        assert(size_tag(n) == 64 * k * p && v < 64 * p && 64 * p * 4 == pow256(n));
    } else {
        assert(p == 0x100_0000_0000_0000);
        assert(size_tag(n) == 64 * k * p && v < 64 * p && 64 * p * 4 == pow256(n));
    }
    lemma_pow256_pos((n - 1) as nat);
    let w = v + size_tag(n);
    let bytes = be_bytes(w, n);
    let s = bytes + rest;
    lemma_be_bytes_len(w, n);
    lemma_be_bytes_first(w, n);
    let q = v / p;
    let r = v % p;
    lemma_fundamental_div_mod(v as int, p as int);
    vstd::arithmetic::div_mod::lemma_mod_pos_bound(v as int, p as int);
    assert(0 <= r < p);
    assert(v == q * p + r);
    assert(q < 64) by (nonlinear_arith)
        requires
            v == q * p + r,
            0 <= r,
            v < 64 * p,
            p > 0,
            q >= 0,
    ;
    assert(w == (64 * k + q) * p + r) by (nonlinear_arith)
        requires
            w == v + 64 * k * p,
            v == q * p + r,
    ;
    lemma_fundamental_div_mod_converse_div(w as int, p as int, (64 * k + q) as int, r as int);
    let b0 = bytes[0];
    assert(b0 == 64 * k + q);
    assert(len_from_first(b0) == n);
    assert(s[0] == b0);
    assert(w < pow256(n)) by (nonlinear_arith)
        requires
            w == (64 * k + q) * p + r,
            k <= 3,
            q < 64,
            r < p,
            64 * p * 4 == pow256(n),
    ;
    lemma_be_value_of_bytes(w, n);
    vstd::arithmetic::div_mod::lemma_small_mod(w, pow256(n));
    let tail = bytes.subrange(1, n as int);
    assert(bytes =~= seq![b0] + tail);
    lemma_be_value_front(b0, tail);
    assert(s.subrange(1, n as int) =~= tail);
    let body = seq![(b0 % 64) as u8] + tail;
    assert(b0 % 64 == q) by {
        lemma_fundamental_div_mod_converse_mod(b0 as int, 64, k as int, q as int);
    }
    lemma_be_value_front((b0 % 64) as u8, tail);
    assert(be_value(body) == v) by (nonlinear_arith)
        requires
            be_value(body) == q * p + be_value(tail),
            w == b0 * p + be_value(tail),
            b0 == 64 * k + q,
            w == v + 64 * k * p,
    ;
}

/// Reading at the end of a prefix reads what follows it.
pub proof fn lemma_varint_at_shift(pre: Seq<u8>, t: Seq<u8>)
    ensures
        varint_at(pre + t, pre.len() as int) == match varint_at(t, 0) {
            Some((v, n)) => Some((v, n + pre.len())),
            None => None,
        },
{
    let s = pre + t;
    let pos = pre.len() as int;
    if t.len() > 0 {
        assert(s[pos] == t[0]);
        let n = len_from_first(t[0]);
        if pos + n <= s.len() {
            assert(s.subrange(pos + 1, pos + n) =~= t.subrange(1, n as int));
        }
    }
}

/// The encoding of `x` read back in the middle of other bytes.
pub proof fn lemma_varint_in_context(pre: Seq<u8>, x: nat, post: Seq<u8>)
    requires
        x <= VARINT_MAX,
    ensures
        varint_at(pre + (varint_bytes(x) + post), pre.len() as int) == Some((x, (pre.len() + varint_size(x)) as int)),
{
    lemma_varint_round_trip(x, post);
    lemma_varint_at_shift(pre, varint_bytes(x) + post);
}

} // verus!
