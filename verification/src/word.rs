//! The 256-bit word and its two byte encodings.

use crate::bytes::{
    be_bytes, be_value, le_bytes, le_value, lemma_be_bytes_reverse, lemma_be_round_trip,
    lemma_be_value_injective, lemma_be_value_reverse, lemma_le_round_trip,
    lemma_le_value_concat, lemma_le_value_injective, lemma_pow256_values, pow256,
};
use primitive_types::U256;
use vstd::prelude::*;

verus! {

/// `primitive_types::U256`, a 256-bit unsigned integer kept as four 64-bit
/// limbs. Verified code sees none of its fields.
#[verifier::external_type_specification]
#[verifier::external_body]
pub struct ExU256(U256);

/// Ethereum Word (256 bits).
pub type Word = U256;

/// The four 64-bit limbs that a `U256` holds in its public field, the least
/// significant limb first.
pub uninterp spec fn word_limbs(w: U256) -> Seq<u64>;

/// The number that a word stands for.
pub open spec fn word_value(w: U256) -> nat {
    let limbs = word_limbs(w);
    limbs[0] as nat + 0x1_0000_0000_0000_0000 * (limbs[1] as nat + 0x1_0000_0000_0000_0000 * (
    limbs[2] as nat + 0x1_0000_0000_0000_0000 * (limbs[3] as nat)))
}

/// Trait used to convert a scalar value to a 32 byte array in big endian.
pub trait ToBigEndian {
    /// The number that the value stands for.
    spec fn scalar(&self) -> nat;

    /// Convert the value to a 32 byte array in big endian.
    ///
    /// The array is the big-endian encoding of the number, and decodes to it.
    fn to_be_bytes(&self) -> (bytes: [u8; 32])
        ensures
            bytes@ == be_bytes(self.scalar(), 32),
            be_value(bytes@) == self.scalar(),
    ;
}

/// Trait used to convert a scalar value to a 32 byte array in little endian.
pub trait ToLittleEndian {
    /// The number that the value stands for.
    spec fn scalar(&self) -> nat;

    /// Convert the value to a 32 byte array in little endian.
    ///
    /// The array is the little-endian encoding of the number, and decodes to
    /// it.
    fn to_le_bytes(&self) -> (bytes: [u8; 32])
        ensures
            bytes@ == le_bytes(self.scalar(), 32),
            le_value(bytes@) == self.scalar(),
    ;
}

/// `U256::to_big_endian` on a buffer of 32 bytes: it writes the limbs from the
/// most significant one down, each as eight bytes with the most significant
/// byte first.
#[verifier::external_body]
fn write_big_endian(w: &U256, bytes: &mut [u8; 32])
    ensures
        be_value(final(bytes)@.subrange(0, 8)) == word_limbs(*w)[3],
        be_value(final(bytes)@.subrange(8, 16)) == word_limbs(*w)[2],
        be_value(final(bytes)@.subrange(16, 24)) == word_limbs(*w)[1],
        be_value(final(bytes)@.subrange(24, 32)) == word_limbs(*w)[0],
{
    w.to_big_endian(bytes)
}

/// `U256::to_little_endian` on a buffer of 32 bytes: it writes the limbs from
/// the least significant one up, each as eight bytes with the least
/// significant byte first.
#[verifier::external_body]
fn write_little_endian(w: &U256, bytes: &mut [u8; 32])
    ensures
        le_value(final(bytes)@.subrange(0, 8)) == word_limbs(*w)[0],
        le_value(final(bytes)@.subrange(8, 16)) == word_limbs(*w)[1],
        le_value(final(bytes)@.subrange(16, 24)) == word_limbs(*w)[2],
        le_value(final(bytes)@.subrange(24, 32)) == word_limbs(*w)[3],
{
    w.to_little_endian(bytes)
}

/// Groups of eight bytes.
pub open spec fn chunk(bytes: Seq<u8>, i: int) -> Seq<u8> {
    bytes.subrange(8 * i, 8 * i + 8)
}

/// 32 little-endian bytes stand for the number whose 64-bit limbs their four
/// groups of eight encode, the first group being the least significant limb.
pub proof fn lemma_le_value_of_chunks(bytes: Seq<u8>)
    requires
        bytes.len() == 32,
    ensures
        le_value(bytes) == le_value(chunk(bytes, 0)) + 0x1_0000_0000_0000_0000 * (le_value(
            chunk(bytes, 1),
        ) + 0x1_0000_0000_0000_0000 * (le_value(chunk(bytes, 2)) + 0x1_0000_0000_0000_0000
            * le_value(chunk(bytes, 3)))),
{
    let c0 = chunk(bytes, 0);
    let c1 = chunk(bytes, 1);
    let c2 = chunk(bytes, 2);
    let c3 = chunk(bytes, 3);
    assert(bytes =~= c0 + (c1 + (c2 + c3)));
    lemma_le_value_concat(c0, c1 + (c2 + c3));
    lemma_le_value_concat(c1, c2 + c3);
    lemma_le_value_concat(c2, c3);
    lemma_pow256_values();
}

/// 32 big-endian bytes stand for the number whose 64-bit limbs their four
/// groups of eight encode, the last group being the least significant limb.
pub proof fn lemma_be_value_of_chunks(bytes: Seq<u8>)
    requires
        bytes.len() == 32,
    ensures
        be_value(bytes) == be_value(chunk(bytes, 3)) + 0x1_0000_0000_0000_0000 * (be_value(
            chunk(bytes, 2),
        ) + 0x1_0000_0000_0000_0000 * (be_value(chunk(bytes, 1)) + 0x1_0000_0000_0000_0000
            * be_value(chunk(bytes, 0)))),
{
    let backwards = bytes.reverse();
    lemma_be_value_reverse(bytes);
    lemma_le_value_of_chunks(backwards);
    assert(chunk(backwards, 0) =~= chunk(bytes, 3).reverse());
    assert(chunk(backwards, 1) =~= chunk(bytes, 2).reverse());
    assert(chunk(backwards, 2) =~= chunk(bytes, 1).reverse());
    assert(chunk(backwards, 3) =~= chunk(bytes, 0).reverse());
    lemma_be_value_reverse(chunk(bytes, 0));
    lemma_be_value_reverse(chunk(bytes, 1));
    lemma_be_value_reverse(chunk(bytes, 2));
    lemma_be_value_reverse(chunk(bytes, 3));
}

/// A word fits in 32 bytes.
pub proof fn lemma_word_value_bound(w: U256)
    ensures
        word_value(w) < pow256(32),
{
    lemma_pow256_values();
}

impl ToBigEndian for U256 {
    open spec fn scalar(&self) -> nat {
        word_value(*self)
    }

    /// Encode the value as byte array in big endian.
    fn to_be_bytes(&self) -> (bytes: [u8; 32]) {
        let mut bytes = [0u8; 32];
        write_big_endian(self, &mut bytes);
        proof {
            let v = word_value(*self);
            assert(bytes@.subrange(0, 8) == chunk(bytes@, 0));
            assert(bytes@.subrange(8, 16) == chunk(bytes@, 1));
            assert(bytes@.subrange(16, 24) == chunk(bytes@, 2));
            assert(bytes@.subrange(24, 32) == chunk(bytes@, 3));
            lemma_be_value_of_chunks(bytes@);
            lemma_word_value_bound(*self);
            lemma_be_round_trip(v, 32);
            lemma_be_value_injective(bytes@, be_bytes(v, 32));
        }
        bytes
    }
}

impl ToLittleEndian for U256 {
    open spec fn scalar(&self) -> nat {
        word_value(*self)
    }

    /// Encode the value as byte array in little endian.
    fn to_le_bytes(&self) -> (bytes: [u8; 32]) {
        let mut bytes = [0u8; 32];
        write_little_endian(self, &mut bytes);
        proof {
            let v = word_value(*self);
            assert(bytes@.subrange(0, 8) == chunk(bytes@, 0));
            assert(bytes@.subrange(8, 16) == chunk(bytes@, 1));
            assert(bytes@.subrange(16, 24) == chunk(bytes@, 2));
            assert(bytes@.subrange(24, 32) == chunk(bytes@, 3));
            lemma_le_value_of_chunks(bytes@);
            lemma_word_value_bound(*self);
            lemma_le_round_trip(v, 32);
            lemma_le_value_injective(bytes@, le_bytes(v, 32));
        }
        bytes
    }
}

/// Each encoding of a word decodes to the word, and each is the other read
/// backwards.
pub proof fn lemma_word_encodings(w: U256)
    ensures
        be_value(be_bytes(word_value(w), 32)) == word_value(w),
        le_value(le_bytes(word_value(w), 32)) == word_value(w),
        be_bytes(word_value(w), 32).reverse() == le_bytes(word_value(w), 32),
        le_bytes(word_value(w), 32).reverse() == be_bytes(word_value(w), 32),
{
    lemma_word_value_bound(w);
    lemma_be_round_trip(word_value(w), 32);
    lemma_le_round_trip(word_value(w), 32);
    lemma_be_bytes_reverse(word_value(w), 32);
}

} // verus!
