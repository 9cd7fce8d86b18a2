//! The scalar field and the base field of the BN254 curve.

use crate::bytes::le_value;
use crate::field::Field;
use crate::identity::OpsIdentity;
use halo2_proofs::plonk::Expression;
use halo2curves::bn256::{Fq, Fr};
use vstd::prelude::*;

verus! {

/// `halo2curves::bn256::Fr`, an element of the scalar field of BN254.
#[verifier::external_type_specification]
#[verifier::external_body]
pub struct ExFr(Fr);

/// `halo2curves::bn256::Fq`, an element of the base field of BN254.
#[verifier::external_type_specification]
#[verifier::external_body]
pub struct ExFq(Fq);

/// The 32 bytes that `PrimeField::to_repr` gives for an `Fr`: the element's
/// canonical value, the least significant byte first.
pub uninterp spec fn bn256_fr_repr(x: Fr) -> Seq<u8>;

/// The 32 bytes that `PrimeField::to_repr` gives for an `Fq`: the element's
/// canonical value, the least significant byte first.
pub uninterp spec fn bn256_fq_repr(x: Fq) -> Seq<u8>;

/// What a node over `Fr` holds when it is `Expression::Constant`: the bytes
/// that `PrimeField::to_repr` gives for its element. It is `None` for every
/// other node.
pub uninterp spec fn bn256_fr_constant(node: Expression<Fr>) -> Option<Seq<u8>>;

/// What a node over `Fq` holds when it is `Expression::Constant`: the bytes
/// that `PrimeField::to_repr` gives for its element. It is `None` for every
/// other node.
pub uninterp spec fn bn256_fq_constant(node: Expression<Fq>) -> Option<Seq<u8>>;

/// `Fr::zero`: the additive identity, whose canonical value is 0.
#[verifier::external_body]
fn fr_zero() -> (r: Fr)
    ensures
        le_value(bn256_fr_repr(r)) == 0,
{
    Fr::zero()
}

/// `Fr::one`: the multiplicative identity, whose canonical value is 1.
#[verifier::external_body]
fn fr_one() -> (r: Fr)
    ensures
        le_value(bn256_fr_repr(r)) == 1,
{
    Fr::one()
}

/// `PrimeField::to_repr` of `Fr`: the canonical bytes of the element.
#[verifier::external_body]
fn fr_to_repr(x: &Fr) -> (bytes: [u8; 32])
    ensures
        bytes@ == bn256_fr_repr(*x),
{
    halo2curves::ff::PrimeField::to_repr(x)
}

/// `Expression::Constant` on an `Fr`: the constant leaf that holds the
/// element.
#[verifier::external_body]
fn fr_to_constant(x: Fr) -> (node: Expression<Fr>)
    ensures
        bn256_fr_constant(node) == Some(bn256_fr_repr(x)),
{
    Expression::Constant(x)
}

/// `Fq::zero`: the additive identity, whose canonical value is 0.
#[verifier::external_body]
fn fq_zero() -> (r: Fq)
    ensures
        le_value(bn256_fq_repr(r)) == 0,
{
    Fq::zero()
}

/// `Fq::one`: the multiplicative identity, whose canonical value is 1.
#[verifier::external_body]
fn fq_one() -> (r: Fq)
    ensures
        le_value(bn256_fq_repr(r)) == 1,
{
    Fq::one()
}

/// `PrimeField::to_repr` of `Fq`: the canonical bytes of the element.
#[verifier::external_body]
fn fq_to_repr(x: &Fq) -> (bytes: [u8; 32])
    ensures
        bytes@ == bn256_fq_repr(*x),
{
    halo2curves::ff::PrimeField::to_repr(x)
}

/// `Expression::Constant` on an `Fq`: the constant leaf that holds the
/// element.
#[verifier::external_body]
fn fq_to_constant(x: Fq) -> (node: Expression<Fq>)
    ensures
        bn256_fq_constant(node) == Some(bn256_fq_repr(x)),
{
    Expression::Constant(x)
}

impl OpsIdentity for Fr {
    type Output = Fr;

    open spec fn additive_identity(v: Fr) -> bool {
        le_value(bn256_fr_repr(v)) == 0
    }

    open spec fn multiplicative_identity(v: Fr) -> bool {
        le_value(bn256_fr_repr(v)) == 1
    }

    fn zero() -> (r: Fr) {
        fr_zero()
    }

    fn one() -> (r: Fr) {
        fr_one()
    }
}

impl OpsIdentity for Fq {
    type Output = Fq;

    open spec fn additive_identity(v: Fq) -> bool {
        le_value(bn256_fq_repr(v)) == 0
    }

    open spec fn multiplicative_identity(v: Fq) -> bool {
        le_value(bn256_fq_repr(v)) == 1
    }

    fn zero() -> (r: Fq) {
        fq_zero()
    }

    fn one() -> (r: Fq) {
        fq_one()
    }
}

impl Field for Fr {
    open spec fn repr(&self) -> Seq<u8> {
        bn256_fr_repr(*self)
    }

    open spec fn constant_repr(node: Expression<Fr>) -> Option<Seq<u8>> {
        bn256_fr_constant(node)
    }

    proof fn lemma_identity_values(v: Fr) {
    }

    fn canonical_repr(&self) -> (bytes: [u8; 32]) {
        fr_to_repr(self)
    }

    fn constant(self) -> (node: Expression<Fr>) {
        fr_to_constant(self)
    }
}

impl Field for Fq {
    open spec fn repr(&self) -> Seq<u8> {
        bn256_fq_repr(*self)
    }

    open spec fn constant_repr(node: Expression<Fq>) -> Option<Seq<u8>> {
        bn256_fq_constant(node)
    }

    proof fn lemma_identity_values(v: Fq) {
    }

    fn canonical_repr(&self) -> (bytes: [u8; 32]) {
        fq_to_repr(self)
    }

    fn constant(self) -> (node: Expression<Fq>) {
        fq_to_constant(self)
    }
}

} // verus!
