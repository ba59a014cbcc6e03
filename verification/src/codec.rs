//! Big-endian byte encodings of natural numbers: the specification of the
//! wire form of every protocol value, and the exact round-trip law that the
//! transfer format demands.

use vstd::arithmetic::div_mod::{
    lemma_div_decreases, lemma_div_denominator, lemma_div_non_zero, lemma_fundamental_div_mod,
    lemma_multiply_divide_lt, lemma_small_mod,
};
use vstd::prelude::*;

verus! {

/// The natural number that a big-endian byte string denotes.
pub open spec fn be_val(s: Seq<u8>) -> nat
    decreases s.len(),
{
    if s.len() == 0 {
        0
    } else {
        be_val(s.drop_last()) * 256 + s.last() as nat
    }
}

/// The minimal big-endian byte string of `n`: no leading zero byte, except
/// that zero itself is the single byte `0`.
pub open spec fn be_bytes_of(n: nat) -> Seq<u8>
    decreases n,
    via be_bytes_of_decreases
{
    if n < 256 {
        seq![n as u8]
    } else {
        be_bytes_of(n / 256).push((n % 256) as u8)
    }
}

#[via_fn]
proof fn be_bytes_of_decreases(n: nat) {
    if n >= 256 {
        lemma_div_decreases(n as int, 256);
    }
}

/// Encoding then decoding gives the number back: the wire form of a protocol
/// value round-trips exactly.
pub proof fn lemma_be_round_trip(n: nat)
    ensures
        be_val(be_bytes_of(n)) == n,
    decreases n,
{
    if n < 256 {
        let s = seq![n as u8];
        assert(s.drop_last() =~= Seq::<u8>::empty());
        assert(be_val(s.drop_last()) == 0);
    } else {
        lemma_div_decreases(n as int, 256);
        lemma_be_round_trip(n / 256);
        let prefix = be_bytes_of(n / 256);
        let s = prefix.push((n % 256) as u8);
        assert(s.drop_last() =~= prefix);
        assert(be_val(s) == be_val(prefix) * 256 + (n % 256));
        lemma_fundamental_div_mod(n as int, 256);
    }
}

/// The eight big-endian bytes of a 64-bit length, used as a length prefix.
pub open spec fn be64_bytes(x: u64) -> Seq<u8> {
    seq![
        (x / 0x100000000000000 % 256) as u8,
        (x / 0x1000000000000 % 256) as u8,
        (x / 0x10000000000 % 256) as u8,
        (x / 0x100000000 % 256) as u8,
        (x / 0x1000000 % 256) as u8,
        (x / 0x10000 % 256) as u8,
        (x / 0x100 % 256) as u8,
        (x % 256) as u8,
    ]
}

/// Appends the eight big-endian bytes of `x` to `out`.
pub fn push_be64(out: &mut Vec<u8>, x: u64)
    ensures
        final(out)@ == old(out)@ + be64_bytes(x),
{
    out.push((x / 0x100000000000000 % 256) as u8);
    out.push((x / 0x1000000000000 % 256) as u8);
    out.push((x / 0x10000000000 % 256) as u8);
    out.push((x / 0x100000000 % 256) as u8);
    out.push((x / 0x1000000 % 256) as u8);
    out.push((x / 0x10000 % 256) as u8);
    out.push((x / 0x100 % 256) as u8);
    out.push((x % 256) as u8);
    assert(out@ =~= old(out)@ + be64_bytes(x));
}

/// An eight-byte length prefix denotes its 64-bit value back.
pub proof fn lemma_be64_round_trip(x: u64)
    ensures
        be_val(be64_bytes(x)) == x as nat,
{
    let xn = x as nat;
    let s = be64_bytes(x);
    let d0 = (x / 0x100000000000000 % 256) as u8;
    let d1 = (x / 0x1000000000000 % 256) as u8;
    let d2 = (x / 0x10000000000 % 256) as u8;
    let d3 = (x / 0x100000000 % 256) as u8;
    let d4 = (x / 0x1000000 % 256) as u8;
    let d5 = (x / 0x10000 % 256) as u8;
    let d6 = (x / 0x100 % 256) as u8;
    let d7 = (x % 256) as u8;
    // unroll the byte-string value from the front
    assert(seq![d0].drop_last() =~= Seq::<u8>::empty());
    assert(seq![d0, d1].drop_last() =~= seq![d0]);
    assert(seq![d0, d1, d2].drop_last() =~= seq![d0, d1]);
    assert(seq![d0, d1, d2, d3].drop_last() =~= seq![d0, d1, d2]);
    assert(seq![d0, d1, d2, d3, d4].drop_last() =~= seq![d0, d1, d2, d3]);
    assert(seq![d0, d1, d2, d3, d4, d5].drop_last() =~= seq![d0, d1, d2, d3, d4]);
    assert(seq![d0, d1, d2, d3, d4, d5, d6].drop_last() =~= seq![d0, d1, d2, d3, d4, d5]);
    assert(s.drop_last() =~= seq![d0, d1, d2, d3, d4, d5, d6]);
    // the quotients of x by each power of 256, highest first
    let q7 = xn / 0x100000000000000;
    let q6 = xn / 0x1000000000000;
    let q5 = xn / 0x10000000000;
    let q4 = xn / 0x100000000;
    let q3 = xn / 0x1000000;
    let q2 = xn / 0x10000;
    let q1 = xn / 0x100;
    // each quotient is the next one times 256 plus its low digit
    lemma_div_denominator(xn as int, 0x1000000000000, 0x100);
    lemma_div_denominator(xn as int, 0x10000000000, 0x100);
    lemma_div_denominator(xn as int, 0x100000000, 0x100);
    lemma_div_denominator(xn as int, 0x1000000, 0x100);
    lemma_div_denominator(xn as int, 0x10000, 0x100);
    lemma_div_denominator(xn as int, 0x100, 0x100);
    lemma_fundamental_div_mod(q6 as int, 0x100);
    lemma_fundamental_div_mod(q5 as int, 0x100);
    lemma_fundamental_div_mod(q4 as int, 0x100);
    lemma_fundamental_div_mod(q3 as int, 0x100);
    lemma_fundamental_div_mod(q2 as int, 0x100);
    lemma_fundamental_div_mod(q1 as int, 0x100);
    lemma_fundamental_div_mod(xn as int, 0x100);
    // the top quotient is below 256, so it is its own digit
    lemma_multiply_divide_lt(xn as int, 0x100, 0x100000000000000);
    lemma_small_mod(q7, 256);
    assert(be_val(Seq::<u8>::empty()) == 0);
    assert(q7 < 256);
    assert(d0 as nat == q7 % 256);
    assert(be_val(seq![d0]) == q7);
    assert(be_val(seq![d0, d1]) == q6);
    assert(be_val(seq![d0, d1, d2]) == q5);
    assert(be_val(seq![d0, d1, d2, d3]) == q4);
    assert(be_val(seq![d0, d1, d2, d3, d4]) == q3);
    assert(be_val(seq![d0, d1, d2, d3, d4, d5]) == q2);
    assert(be_val(seq![d0, d1, d2, d3, d4, d5, d6]) == q1);
    assert(be_val(s) == xn);
}

/// A minimal big-endian byte string: nonempty, and with no leading zero
/// byte except for the single byte that denotes zero itself.
pub open spec fn is_minimal_be(s: Seq<u8>) -> bool {
    s.len() >= 1 && (s.len() > 1 ==> s[0] != 0)
}

/// The encoding `be_bytes_of` only produces minimal byte strings, with a
/// nonzero leading byte for every positive value.
pub proof fn lemma_be_bytes_minimal(n: nat)
    ensures
        is_minimal_be(be_bytes_of(n)),
        n >= 1 ==> be_bytes_of(n)[0] != 0,
    decreases n,
{
    if n >= 256 {
        lemma_div_decreases(n as int, 256);
        lemma_div_non_zero(n as int, 256);
        lemma_be_bytes_minimal(n / 256);
        let prefix = be_bytes_of(n / 256);
        assert(prefix.push((n % 256) as u8)[0] == prefix[0]);
    }
}

/// Appends all of `src` to `dst`.
pub fn push_all(dst: &mut Vec<u8>, src: &Vec<u8>)
    ensures
        final(dst)@ == old(dst)@ + src@,
{
    let ghost dst0 = dst@;
    let mut i: usize = 0;
    while i < src.len()
        invariant
            i <= src.len(),
            dst@ == dst0 + src@.take(i as int),
        decreases src.len() - i,
    {
        dst.push(src[i]);
        assert(dst0 + src@.take(i as int) + seq![src@[i as int]] =~= dst0 + src@.take(
            i as int + 1,
        ));
        i = i + 1;
    }
    assert(dst0 + src@.take(src@.len() as int) =~= dst0 + src@);
}

} // verus!
