//! The echo datagram: one timestamp, in nanoseconds, as 16 big-endian bytes.
use vstd::arithmetic::div_mod::{lemma_breakdown, lemma_fundamental_div_mod_converse};
use vstd::prelude::*;

verus! {

/// Length in bytes of an echo datagram.
pub const TIMESTAMP_LEN: usize = 16;

/// Why a payload is not an echo datagram.
#[derive(Clone, Copy, Debug, PartialEq, Eq, Structural)]
pub enum WireError {
    /// The payload is not exactly 16 bytes long; `len` is its length.
    MalformedDatagram { len: usize },
}

/// `256` raised to the power `n`.
pub open spec fn pow256(n: nat) -> nat
    decreases n,
{
    if n == 0 {
        1
    } else {
        256 * pow256((n - 1) as nat)
    }
}

/// The number that the bytes `s` spell, most significant byte first.
pub open spec fn be_value(s: Seq<u8>) -> nat
    decreases s.len(),
{
    if s.len() == 0 {
        0
    } else {
        (be_value(s.drop_last()) * 256 + s.last()) as nat
    }
}

/// The `n` least significant bytes of `t`, most significant first.
pub open spec fn be_bytes(t: nat, n: nat) -> Seq<u8>
    decreases n,
{
    if n == 0 {
        Seq::empty()
    } else {
        be_bytes(t / 256, (n - 1) as nat).push((t % 256) as u8)
    }
}

/// The datagram that carries the timestamp `t`.
pub open spec fn datagram_of(t: u128) -> Seq<u8> {
    be_bytes(t as nat, 16)
}

pub proof fn lemma_pow256_positive(n: nat)
    ensures
        pow256(n) > 0,
    decreases n,
{
    if n > 0 {
        lemma_pow256_positive((n - 1) as nat);
    }
}

/// Sixteen bytes hold exactly the values of a `u128`.
pub proof fn lemma_pow256_16()
    ensures
        pow256(16) == u128::MAX + 1,
{
    reveal_with_fuel(pow256, 17);
}

pub proof fn lemma_be_bytes_len(t: nat, n: nat)
    ensures
        be_bytes(t, n).len() == n,
    decreases n,
{
    if n > 0 {
        lemma_be_bytes_len(t / 256, (n - 1) as nat);
    }
}

/// `n` bytes spell a number below `256^n`.
pub proof fn lemma_be_value_bound(s: Seq<u8>)
    ensures
        be_value(s) < pow256(s.len()),
    decreases s.len(),
{
    if s.len() > 0 {
        lemma_be_value_bound(s.drop_last());
        let a = be_value(s.drop_last());
        let p = pow256((s.len() - 1) as nat);
        assert(a + 1 <= p);
        assert((a + 1) * 256 <= p * 256) by (nonlinear_arith)
            requires
                a + 1 <= p,
        ;
    }
}

/// Reading back the bytes written for `t` gives `t` modulo `256^n`.
pub proof fn lemma_value_of_bytes(t: nat, n: nat)
    ensures
        be_value(be_bytes(t, n)) == t % pow256(n),
    decreases n,
{
    if n == 0 {
        assert(t % 1 == 0) by (nonlinear_arith);
    } else {
        let m = (n - 1) as nat;
        lemma_value_of_bytes(t / 256, m);
        lemma_pow256_positive(m);
        let s = be_bytes(t, n);
        assert(s.drop_last() == be_bytes(t / 256, m));
        lemma_breakdown(t as int, 256, pow256(m) as int);
        assert(pow256(n) == 256 * pow256(m));
    }
}

/// Writing back the value that `s` spells, on `s.len()` bytes, gives `s`.
pub proof fn lemma_bytes_of_value(s: Seq<u8>)
    ensures
        be_bytes(be_value(s), s.len()) == s,
    decreases s.len(),
{
    if s.len() > 0 {
        let init = s.drop_last();
        lemma_bytes_of_value(init);
        let v = be_value(s);
        lemma_fundamental_div_mod_converse(v as int, 256, be_value(init) as int, s.last() as int);
        assert(be_bytes(v, s.len()) =~= init.push(s.last()));
    }
}

/// Decoding the encoding of any timestamp gives that timestamp back.
pub proof fn lemma_decode_encode(t: u128)
    ensures
        be_value(datagram_of(t)) == t,
        datagram_of(t).len() == TIMESTAMP_LEN,
{
    lemma_value_of_bytes(t as nat, 16);
    lemma_pow256_16();
    lemma_be_bytes_len(t as nat, 16);
    assert((t as nat) % pow256(16) == t as nat) by (nonlinear_arith)
        requires
            (t as nat) < pow256(16),
    ;
}

/// Encoding the timestamp that any well-sized datagram decodes to gives back
/// the datagram itself.
pub proof fn lemma_encode_decode(b: Seq<u8>)
    requires
        b.len() == TIMESTAMP_LEN,
    ensures
        be_value(b) <= u128::MAX,
        datagram_of(be_value(b) as u128) == b,
{
    lemma_be_value_bound(b);
    lemma_pow256_16();
    lemma_bytes_of_value(b);
}

/// The datagram that carries the timestamp `t`.
pub fn encode(t: u128) -> (r: Vec<u8>)
    ensures
        r@ == datagram_of(t),
        r@.len() == TIMESTAMP_LEN,
{
    let mut out: Vec<u8> = vec![0u8; 16];
    let mut v: u128 = t;
    let mut i: usize = 16;
    proof {
        lemma_be_bytes_len(t as nat, 16);
    }
    while i > 0
        invariant
            i <= 16,
            out@.len() == 16,
            be_bytes(t as nat, 16) == be_bytes(v as nat, i as nat) + out@.subrange(i as int, 16),
        decreases i,
    {
        let ghost old_v = v;
        let ghost old_tail = out@.subrange(i as int, 16);
        i = i - 1;
        out.set(i, (v % 256) as u8);
        v = v / 256;
        proof {
            let head = be_bytes(v as nat, i as nat);
            assert(be_bytes(old_v as nat, (i + 1) as nat) == head.push((old_v % 256) as u8));
            assert(out@.subrange(i as int, 16) =~= seq![(old_v % 256) as u8] + old_tail);
            assert(head.push((old_v % 256) as u8) + old_tail =~= head + (seq![(old_v % 256) as u8] + old_tail));
        }
    }
    assert(out@.subrange(0, 16) =~= out@);
    assert(be_bytes(v as nat, 0) + out@ =~= out@);
    out
}

/// The timestamp that a datagram carries; any payload that is not exactly
/// 16 bytes long is refused.
pub fn decode(b: &[u8]) -> (r: Result<u128, WireError>)
    ensures
        b@.len() == TIMESTAMP_LEN ==> r == Ok::<u128, WireError>(be_value(b@) as u128),
        b@.len() != TIMESTAMP_LEN ==> r == Err::<u128, WireError>(
            WireError::MalformedDatagram { len: b@.len() as usize },
        ),
{
    if b.len() != TIMESTAMP_LEN {
        return Err(WireError::MalformedDatagram { len: b.len() });
    }
    let mut v: u128 = 0;
    let mut i: usize = 0;
    while i < 16
        invariant
            b@.len() == 16,
            i <= 16,
            v as nat == be_value(b@.subrange(0, i as int)),
        decreases 16 - i,
    {
        let ghost prefix = b@.subrange(0, i as int);
        proof {
            lemma_be_value_bound(b@.subrange(0, (i + 1) as int));
            lemma_pow256_16();
            lemma_pow256_le((i + 1) as nat);
            assert(b@.subrange(0, (i + 1) as int).drop_last() =~= prefix);
        }
        v = v * 256 + b[i] as u128;
        i = i + 1;
    }
    assert(b@.subrange(0, 16) =~= b@);
    Ok(v)
}

proof fn lemma_pow256_le(n: nat)
    requires
        n <= 16,
    ensures
        pow256(n) <= pow256(16),
    decreases 16 - n,
{
    if n < 16 {
        lemma_pow256_le(n + 1);
    }
}

} // verus!
