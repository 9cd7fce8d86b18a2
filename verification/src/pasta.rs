//! The two fields of the Pallas and Vesta curves.

use crate::bytes::le_value;
use crate::field::Field;
use crate::identity::OpsIdentity;
use halo2_proofs::plonk::Expression;
use halo2curves::pasta::{Fp, Fq};
use vstd::prelude::*;

verus! {

/// `halo2curves::pasta::Fp`, an element of the base field of Pallas.
#[verifier::external_type_specification]
#[verifier::external_body]
pub struct ExFp(Fp);

/// `halo2curves::pasta::Fq`, an element of the scalar field of Pallas.
#[verifier::external_type_specification]
#[verifier::external_body]
pub struct ExFq(Fq);

/// The 32 bytes that `PrimeField::to_repr` gives for an `Fp`: the element's
/// canonical value, the least significant byte first.
pub uninterp spec fn pasta_fp_repr(x: Fp) -> Seq<u8>;

/// The 32 bytes that `PrimeField::to_repr` gives for an `Fq`: the element's
/// canonical value, the least significant byte first.
pub uninterp spec fn pasta_fq_repr(x: Fq) -> Seq<u8>;

/// What a node over `Fp` holds when it is `Expression::Constant`: the bytes
/// that `PrimeField::to_repr` gives for its element. It is `None` for every
/// other node.
pub uninterp spec fn pasta_fp_constant(node: Expression<Fp>) -> Option<Seq<u8>>;

/// `Field::ZERO` of `Fp`: the additive identity, whose canonical value is 0.
#[verifier::external_body]
fn fp_zero() -> (r: Fp)
    ensures
        le_value(pasta_fp_repr(r)) == 0,
{
    <Fp as halo2curves::ff::Field>::ZERO
}

/// `Field::ONE` of `Fp`: the multiplicative identity, whose canonical value
/// is 1.
#[verifier::external_body]
fn fp_one() -> (r: Fp)
    ensures
        le_value(pasta_fp_repr(r)) == 1,
{
    <Fp as halo2curves::ff::Field>::ONE
}

/// `PrimeField::to_repr` of `Fp`: the canonical bytes of the element.
#[verifier::external_body]
fn fp_to_repr(x: &Fp) -> (bytes: [u8; 32])
    ensures
        bytes@ == pasta_fp_repr(*x),
{
    halo2curves::ff::PrimeField::to_repr(x)
}

/// `Expression::Constant` on an `Fp`: the constant leaf that holds the
/// element.
#[verifier::external_body]
fn fp_to_constant(x: Fp) -> (node: Expression<Fp>)
    ensures
        pasta_fp_constant(node) == Some(pasta_fp_repr(x)),
{
    Expression::Constant(x)
}

/// `Field::ZERO` of `Fq`: the additive identity, whose canonical value is 0.
#[verifier::external_body]
fn fq_zero() -> (r: Fq)
    ensures
        le_value(pasta_fq_repr(r)) == 0,
{
    <Fq as halo2curves::ff::Field>::ZERO
}

/// `Field::ONE` of `Fq`: the multiplicative identity, whose canonical value
/// is 1.
#[verifier::external_body]
fn fq_one() -> (r: Fq)
    ensures
        le_value(pasta_fq_repr(r)) == 1,
{
    <Fq as halo2curves::ff::Field>::ONE
}

impl OpsIdentity for Fp {
    type Output = Self;

    open spec fn additive_identity(v: Fp) -> bool {
        le_value(pasta_fp_repr(v)) == 0
    }

    open spec fn multiplicative_identity(v: Fp) -> bool {
        le_value(pasta_fp_repr(v)) == 1
    }

    fn zero() -> (r: Fp) {
        fp_zero()
    }

    fn one() -> (r: Fp) {
        fp_one()
    }
}

impl OpsIdentity for Fq {
    type Output = Self;

    open spec fn additive_identity(v: Fq) -> bool {
        le_value(pasta_fq_repr(v)) == 0
    }

    open spec fn multiplicative_identity(v: Fq) -> bool {
        le_value(pasta_fq_repr(v)) == 1
    }

    fn zero() -> (r: Fq) {
        fq_zero()
    }

    fn one() -> (r: Fq) {
        fq_one()
    }
}

impl Field for Fp {
    open spec fn repr(&self) -> Seq<u8> {
        pasta_fp_repr(*self)
    }

    open spec fn constant_repr(node: Expression<Fp>) -> Option<Seq<u8>> {
        pasta_fp_constant(node)
    }

    proof fn lemma_identity_values(v: Fp) {
    }

    fn canonical_repr(&self) -> (bytes: [u8; 32]) {
        fp_to_repr(self)
    }

    fn constant(self) -> (node: Expression<Fp>) {
        fp_to_constant(self)
    }
}

} // verus!
