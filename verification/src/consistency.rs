//! How a field element and a word that stand for one number agree in their
//! bytes.

use crate::bytes::{
    be_bytes, le_bytes, le_value, lemma_be_bytes_reverse, lemma_byte_of_small,
    lemma_le_round_trip, lemma_le_value_injective, lemma_pow256_monotonic, lemma_pow256_values,
    pow256,
};
use crate::field::Field;
use crate::word::{lemma_word_value_bound, word_value};
use primitive_types::U256;
use vstd::prelude::*;

verus! {

/// A word that stands for the same number as a field element has the
/// element's canonical representation as its little-endian encoding, and
/// that representation read backwards as its big-endian encoding.
pub proof fn lemma_word_of_field_element<F: Field>(x: F, w: U256)
    requires
        x.repr().len() == 32,
        word_value(w) == le_value(x.repr()),
    ensures
        le_bytes(word_value(w), 32) == x.repr(),
        be_bytes(word_value(w), 32) == x.repr().reverse(),
{
    let v = word_value(w);
    lemma_word_value_bound(w);
    lemma_le_round_trip(v, 32);
    lemma_le_value_injective(le_bytes(v, 32), x.repr());
    lemma_be_bytes_reverse(v, 32);
}

/// A word that stands for the same number as the multiplicative identity of
/// a field has the byte 1 at the end of its big-endian encoding and at the
/// start of its little-endian encoding, and the byte 0 everywhere else.
pub proof fn lemma_word_of_one<F: Field>(one: F, w: U256)
    requires
        F::multiplicative_identity(one),
        word_value(w) == le_value(one.repr()),
    ensures
        be_bytes(word_value(w), 32)[31] == 1,
        forall|k: int| 0 <= k < 31 ==> be_bytes(word_value(w), 32)[k] == 0,
        le_bytes(word_value(w), 32)[0] == 1,
        forall|k: int| 1 <= k < 32 ==> le_bytes(word_value(w), 32)[k] == 0,
{
    F::lemma_identity_values(one);
    lemma_pow256_values();
    assert forall|i: nat| 1 <= i implies pow256(i) > 1 by {
        lemma_pow256_monotonic(1, i);
    }
    assert forall|k: int| 1 <= k < 32 implies le_bytes(word_value(w), 32)[k] == 0 by {
        lemma_byte_of_small(1, k as nat);
    }
    assert forall|k: int| 0 <= k < 31 implies be_bytes(word_value(w), 32)[k] == 0 by {
        lemma_byte_of_small(1, (31 - k) as nat);
    }
}

} // verus!
