//! Prime-field elements with a canonical byte representation, and the low
//! limbs of their canonical value.

use crate::bytes::{le_value, lemma_pow256_values, pow256};
use crate::identity::OpsIdentity;
use crate::limbs::{lower_128, lower_32};
use halo2_proofs::plonk::Expression;
use vstd::arithmetic::div_mod::lemma_small_mod;
use vstd::prelude::*;

verus! {

/// Trait used to reduce verbosity with the declaration of a prime field and
/// its canonical representation.
///
/// An implementor is an element of a prime field whose canonical
/// representation is 32 bytes wide, the least significant byte first. The
/// arithmetic traits of `ff` are no supertraits here, because the verifier
/// takes no foreign trait as a bound: code that computes with the elements
/// asks for those traits beside this one.
pub trait Field: Sized + Copy + Ord + OpsIdentity<Output = Self> {
    /// The canonical byte representation of the element. Read as a
    /// little-endian integer, it is the number that the element stands for.
    spec fn repr(&self) -> Seq<u8>;

    /// What a node of a symbolic expression over the field holds when it is
    /// a constant leaf: the canonical byte representation of its element. It
    /// is `None` for every other node.
    spec fn constant_repr(node: Expression<Self>) -> Option<Seq<u8>>;

    /// The additive identity stands for 0 and the multiplicative identity
    /// for 1, and no other element does.
    proof fn lemma_identity_values(v: Self)
        ensures
            Self::additive_identity(v) <==> le_value(v.repr()) == 0,
            Self::multiplicative_identity(v) <==> le_value(v.repr()) == 1,
    ;

    /// Gets the canonical byte representation of this field element.
    fn canonical_repr(&self) -> (bytes: [u8; 32])
        ensures
            bytes@ == self.repr(),
    ;

    /// Wraps this field element in the constant leaf of a symbolic
    /// expression.
    fn constant(self) -> (node: Expression<Self>)
        ensures
            Self::constant_repr(node) == Some(self.repr()),
    ;

    /// Gets the lower 128 bits of this field element when expressed
    /// canonically.
    fn get_lower_128(&self) -> (r: u128)
        ensures
            r == le_value(self.repr().take(16)),
            r == le_value(self.repr()) % pow256(16),
            le_value(self.repr()) < pow256(16) ==> r == le_value(self.repr()),
    {
        let bytes = self.canonical_repr();
        proof {
            lemma_small_value(le_value(self.repr()), 16);
        }
        lower_128(bytes.as_slice())
    }

    /// Gets the lower 32 bits of this field element when expressed
    /// canonically.
    fn get_lower_32(&self) -> (r: u32)
        ensures
            r == le_value(self.repr().take(4)),
            r == le_value(self.repr()) % pow256(4),
            le_value(self.repr()) < pow256(4) ==> r == le_value(self.repr()),
    {
        let bytes = self.canonical_repr();
        proof {
            lemma_small_value(le_value(self.repr()), 4);
        }
        lower_32(bytes.as_slice())
    }
}

/// A number that fits in `width` bytes is its own remainder modulo 256 to the
/// `width`.
pub proof fn lemma_small_value(v: nat, width: nat)
    ensures
        v < pow256(width) ==> v % pow256(width) == v,
{
    if v < pow256(width) {
        lemma_small_mod(v, pow256(width));
    }
}

/// The low limbs of the identities: those of the additive identity are 0,
/// and those of the multiplicative identity are 1.
pub proof fn lemma_identity_limbs<F: Field>(v: F)
    ensures
        F::additive_identity(v) ==> le_value(v.repr()) % pow256(16) == 0,
        F::additive_identity(v) ==> le_value(v.repr()) % pow256(4) == 0,
        F::multiplicative_identity(v) ==> le_value(v.repr()) % pow256(16) == 1,
        F::multiplicative_identity(v) ==> le_value(v.repr()) % pow256(4) == 1,
{
    F::lemma_identity_values(v);
    lemma_pow256_values();
    lemma_small_value(le_value(v.repr()), 16);
    lemma_small_value(le_value(v.repr()), 4);
}

/// The identity laws, over canonical values and with the field's sum and
/// product taken as sum and product modulo the field's modulus: adding the
/// additive identity to an element, or multiplying an element by the
/// multiplicative identity, gives the element, and multiplying an element by
/// the additive identity gives the additive identity.
pub proof fn lemma_identity_laws<F: Field>(zero: F, one: F, x: F, modulus: nat)
    requires
        F::additive_identity(zero),
        F::multiplicative_identity(one),
        le_value(x.repr()) < modulus,
    ensures
        (le_value(zero.repr()) + le_value(x.repr())) % modulus == le_value(x.repr()),
        (le_value(one.repr()) * le_value(x.repr())) % modulus == le_value(x.repr()),
        (le_value(zero.repr()) * le_value(x.repr())) % modulus == le_value(zero.repr()),
{
    F::lemma_identity_values(zero);
    F::lemma_identity_values(one);
    let v = le_value(x.repr());
    lemma_small_mod(v, modulus);
    lemma_small_mod(0, modulus);
    assert(0 * v == 0);
    assert(1 * v == v);
}

} // verus!
