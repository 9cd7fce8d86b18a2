//! Readers of the low limbs of a little-endian encoding.

use crate::bytes::{
    le_value, lemma_le_value_bound, lemma_le_value_take, lemma_pow256_monotonic,
    lemma_pow256_values, pow256,
};
use vstd::arithmetic::div_mod::lemma_small_mod;
use vstd::prelude::*;

verus! {

/// How many bytes a reader of a `width`-byte limb takes from `len` bytes.
pub open spec fn limb_len(len: nat, width: nat) -> nat {
    if len < width {
        len
    } else {
        width
    }
}

/// Reads up to 16 leading bytes of a little-endian encoding as one integer.
///
/// The result is the number that the encoding stands for, reduced modulo
/// 2^128. An encoding of fewer than 16 bytes is read as if it were padded
/// with zero bytes.
pub fn lower_128(bytes: &[u8]) -> (r: u128)
    ensures
        r == le_value(bytes@.take(limb_len(bytes@.len(), 16) as int)),
        r == le_value(bytes@) % pow256(16),
{
    let n: usize = if bytes.len() < 16 {
        bytes.len()
    } else {
        16
    };
    let mut acc: u128 = 0;
    let mut i: usize = n;
    while i > 0
        invariant
            i <= n <= 16,
            n <= bytes@.len(),
            acc == le_value(bytes@.subrange(i as int, n as int)),
        decreases i,
    {
        i = i - 1;
        proof {
            let window = bytes@.subrange(i as int, n as int);
            assert(window.skip(1) =~= bytes@.subrange(i + 1, n as int));
            lemma_le_value_bound(window);
            lemma_pow256_monotonic(window.len(), 16);
            lemma_pow256_values();
        }
        acc = acc * 256 + bytes[i] as u128;
    }
    proof {
        assert(bytes@.subrange(0, n as int) =~= bytes@.take(n as int));
        lemma_low_limb(bytes@, 16);
    }
    acc
}

/// Reads up to 4 leading bytes of a little-endian encoding as one integer.
///
/// The result is the number that the encoding stands for, reduced modulo
/// 2^32. An encoding of fewer than 4 bytes is read as if it were padded with
/// zero bytes.
pub fn lower_32(bytes: &[u8]) -> (r: u32)
    ensures
        r == le_value(bytes@.take(limb_len(bytes@.len(), 4) as int)),
        r == le_value(bytes@) % pow256(4),
{
    let n: usize = if bytes.len() < 4 {
        bytes.len()
    } else {
        4
    };
    let mut acc: u32 = 0;
    let mut i: usize = n;
    while i > 0
        invariant
            i <= n <= 4,
            n <= bytes@.len(),
            acc == le_value(bytes@.subrange(i as int, n as int)),
        decreases i,
    {
        i = i - 1;
        proof {
            let window = bytes@.subrange(i as int, n as int);
            assert(window.skip(1) =~= bytes@.subrange(i + 1, n as int));
            lemma_le_value_bound(window);
            lemma_pow256_monotonic(window.len(), 4);
            lemma_pow256_values();
        }
        acc = acc * 256 + bytes[i] as u32;
    }
    proof {
        assert(bytes@.subrange(0, n as int) =~= bytes@.take(n as int));
        lemma_low_limb(bytes@, 4);
    }
    acc
}

/// The bytes that a limb reader takes hold the whole number modulo 256 to the
/// limb's width, also where the encoding is shorter than the limb.
pub proof fn lemma_low_limb(bytes: Seq<u8>, width: nat)
    ensures
        le_value(bytes.take(limb_len(bytes.len(), width) as int)) == le_value(bytes) % pow256(
            width,
        ),
{
    if bytes.len() < width {
        assert(bytes.take(bytes.len() as int) =~= bytes);
        lemma_le_value_bound(bytes);
        lemma_pow256_monotonic(bytes.len(), width);
        lemma_small_mod(le_value(bytes), pow256(width));
    } else {
        lemma_le_value_take(bytes, width);
    }
}

} // verus!
