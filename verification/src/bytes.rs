//! Positional byte encodings of natural numbers: what a sequence of bytes
//! stands for in little-endian and in big-endian order, the encodings of a
//! number, and how the two relate.

use vstd::arithmetic::div_mod::{
    lemma_basic_div, lemma_div_denominator, lemma_fundamental_div_mod_converse,
};
use vstd::prelude::*;

verus! {

/// 256 raised to the power `n`: the number of values that `n` bytes can encode.
pub open spec fn pow256(n: nat) -> nat
    decreases n,
{
    if n == 0 {
        1
    } else {
        256 * pow256((n - 1) as nat)
    }
}

/// The number that `bytes` encodes when the first byte is the least
/// significant one.
pub open spec fn le_value(bytes: Seq<u8>) -> nat
    decreases bytes.len(),
{
    if bytes.len() == 0 {
        0
    } else {
        bytes[0] as nat + 256 * le_value(bytes.skip(1))
    }
}

/// The number that `bytes` encodes when the last byte is the least
/// significant one.
pub open spec fn be_value(bytes: Seq<u8>) -> nat
    decreases bytes.len(),
{
    if bytes.len() == 0 {
        0
    } else {
        256 * be_value(bytes.drop_last()) + bytes.last() as nat
    }
}

/// The digit of `v` at place `i` in base 256, place 0 being the least
/// significant.
pub open spec fn byte_of(v: nat, i: nat) -> u8 {
    ((v / pow256(i)) % 256) as u8
}

/// The `len` low-order bytes of `v`, least significant first.
pub open spec fn le_bytes(v: nat, len: nat) -> Seq<u8> {
    Seq::new(len, |k: int| byte_of(v, k as nat))
}

/// The `len` low-order bytes of `v`, most significant first.
pub open spec fn be_bytes(v: nat, len: nat) -> Seq<u8> {
    Seq::new(len, |k: int| byte_of(v, (len - 1 - k) as nat))
}

/// The powers of 256 at the widths of the machine integers.
pub proof fn lemma_pow256_values()
    ensures
        pow256(0) == 1,
        pow256(1) == 0x100,
        pow256(4) == 0x1_0000_0000,
        pow256(8) == 0x1_0000_0000_0000_0000,
        pow256(16) == 0x1_0000_0000_0000_0000_0000_0000_0000_0000,
        pow256(24) == 0x1_0000_0000_0000_0000_0000_0000_0000_0000_0000_0000_0000_0000,
        pow256(32)
            == 0x1_0000_0000_0000_0000_0000_0000_0000_0000_0000_0000_0000_0000_0000_0000_0000_0000,
{
    reveal_with_fuel(pow256, 9);
    assert(pow256(8) == 0x1_0000_0000_0000_0000);
    assert(pow256(16) == 0x1_0000_0000_0000_0000 * pow256(8));
    assert(pow256(24) == 0x1_0000_0000_0000_0000 * pow256(16));
    assert(pow256(32) == 0x1_0000_0000_0000_0000 * pow256(24));
}

/// A power of 256 is positive, and grows with its exponent.
pub proof fn lemma_pow256_monotonic(a: nat, b: nat)
    requires
        a <= b,
    ensures
        0 < pow256(a) <= pow256(b),
    decreases b,
{
    if b == 0 {
    } else if a == b {
        lemma_pow256_monotonic(0, (b - 1) as nat);
    } else {
        lemma_pow256_monotonic(a, (b - 1) as nat);
    }
}

/// `n` bytes encode a number below 256 to the `n`.
pub proof fn lemma_le_value_bound(bytes: Seq<u8>)
    ensures
        le_value(bytes) < pow256(bytes.len()),
    decreases bytes.len(),
{
    if bytes.len() > 0 {
        lemma_le_value_bound(bytes.skip(1));
    }
}

/// Bytes appended to an encoding count from the power of 256 at which the
/// encoding ends.
pub proof fn lemma_le_value_concat(low: Seq<u8>, high: Seq<u8>)
    ensures
        le_value(low + high) == le_value(low) + pow256(low.len()) * le_value(high),
    decreases low.len(),
{
    let h = le_value(high);
    if low.len() == 0 {
        assert(low + high =~= high);
        let p = pow256(0);
        assert(p * h == h) by (nonlinear_arith)
            requires
                p == 1,
        ;
    } else {
        let rest = low.skip(1);
        assert((low + high).skip(1) =~= rest + high);
        lemma_le_value_concat(rest, high);
        let p = pow256(rest.len());
        assert(pow256(low.len()) == 256 * p);
        assert(256 * (p * h) == (256 * p) * h) by (nonlinear_arith);
    }
}

/// The first `n` bytes of an encoding hold the number modulo 256 to the `n`.
pub proof fn lemma_le_value_take(bytes: Seq<u8>, n: nat)
    requires
        n <= bytes.len(),
    ensures
        le_value(bytes.take(n as int)) == le_value(bytes) % pow256(n),
{
    let low = bytes.take(n as int);
    let high = bytes.skip(n as int);
    assert(low + high =~= bytes);
    lemma_le_value_concat(low, high);
    lemma_le_value_bound(low);
    let p = pow256(n);
    let q = le_value(high);
    assert(q * p == p * q) by (nonlinear_arith);
    lemma_fundamental_div_mod_converse(
        le_value(bytes) as int,
        p as int,
        q as int,
        le_value(low) as int,
    );
}

/// A big-endian encoding stands for the number that its bytes, read
/// backwards, encode in little-endian order.
pub proof fn lemma_be_value_reverse(bytes: Seq<u8>)
    ensures
        be_value(bytes) == le_value(bytes.reverse()),
    decreases bytes.len(),
{
    if bytes.len() > 0 {
        assert(bytes.reverse().skip(1) =~= bytes.drop_last().reverse());
        lemma_be_value_reverse(bytes.drop_last());
    }
}

/// Two little-endian encodings of one length and one number are the same
/// bytes.
pub proof fn lemma_le_value_injective(a: Seq<u8>, b: Seq<u8>)
    requires
        a.len() == b.len(),
        le_value(a) == le_value(b),
    ensures
        a == b,
    decreases a.len(),
{
    if a.len() > 0 {
        lemma_le_value_injective(a.skip(1), b.skip(1));
        assert(a =~= seq![a[0]] + a.skip(1));
        assert(b =~= seq![b[0]] + b.skip(1));
    }
    assert(a =~= b);
}

/// Two big-endian encodings of one length and one number are the same bytes.
pub proof fn lemma_be_value_injective(a: Seq<u8>, b: Seq<u8>)
    requires
        a.len() == b.len(),
        be_value(a) == be_value(b),
    ensures
        a == b,
{
    lemma_be_value_reverse(a);
    lemma_be_value_reverse(b);
    lemma_le_value_injective(a.reverse(), b.reverse());
    assert(a =~= a.reverse().reverse());
    assert(b =~= b.reverse().reverse());
}

/// A number has the digit 0 at every place that it does not reach.
pub proof fn lemma_byte_of_small(v: nat, i: nat)
    requires
        v < pow256(i),
    ensures
        byte_of(v, i) == 0,
{
    lemma_basic_div(v as int, pow256(i) as int);
}

/// The digits of a number above its lowest are the digits of the number
/// divided by 256.
pub proof fn lemma_byte_of_shift(v: nat, i: nat)
    ensures
        byte_of(v, i + 1) == byte_of(v / 256, i),
{
    lemma_pow256_monotonic(0, i);
    lemma_div_denominator(v as int, 256, pow256(i) as int);
}

/// Decoding the little-endian encoding of a number gives the number back,
/// reduced to what the encoding's length can hold.
pub proof fn lemma_le_round_trip(v: nat, len: nat)
    ensures
        le_value(le_bytes(v, len)) == v % pow256(len),
        v < pow256(len) ==> le_value(le_bytes(v, len)) == v,
    decreases len,
{
    if len == 0 {
        assert(v % 1 == 0);
    } else {
        let rest = (len - 1) as nat;
        lemma_le_round_trip(v / 256, rest);
        lemma_pow256_monotonic(0, rest);
        let encoded = le_bytes(v, len);
        assert(encoded.skip(1) =~= le_bytes(v / 256, rest)) by {
            assert forall|k: int| 0 <= k < rest implies encoded.skip(1)[k] == le_bytes(
                v / 256,
                rest,
            )[k] by {
                lemma_byte_of_shift(v, k as nat);
            }
        }
        assert(encoded[0] == v % 256);
        let p = pow256(rest);
        let q = (v / 256) / p;
        let r = (v / 256) % p;
        assert(v / 256 == q * p + r) by (nonlinear_arith)
            requires
                p > 0,
                q == (v / 256) / p,
                r == (v / 256) % p,
        ;
        assert(q * (256 * p) == 256 * (q * p)) by (nonlinear_arith);
        lemma_fundamental_div_mod_converse(
            v as int,
            pow256(len) as int,
            q as int,
            (v % 256 + 256 * r) as int,
        );
    }
    if v < pow256(len) {
        lemma_fundamental_div_mod_converse(v as int, pow256(len) as int, 0, v as int);
    }
}

/// Decoding the big-endian encoding of a number gives the number back,
/// reduced to what the encoding's length can hold.
pub proof fn lemma_be_round_trip(v: nat, len: nat)
    ensures
        be_value(be_bytes(v, len)) == v % pow256(len),
        v < pow256(len) ==> be_value(be_bytes(v, len)) == v,
{
    lemma_be_value_reverse(be_bytes(v, len));
    lemma_be_bytes_reverse(v, len);
    lemma_le_round_trip(v, len);
}

/// The big-endian encoding of a number is its little-endian encoding read
/// backwards, and the other way round.
pub proof fn lemma_be_bytes_reverse(v: nat, len: nat)
    ensures
        be_bytes(v, len) == le_bytes(v, len).reverse(),
        le_bytes(v, len) == be_bytes(v, len).reverse(),
{
    assert(be_bytes(v, len) =~= le_bytes(v, len).reverse());
    assert(le_bytes(v, len) =~= be_bytes(v, len).reverse());
}

} // verus!
