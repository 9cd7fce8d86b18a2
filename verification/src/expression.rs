//! The identity elements of symbolic expressions over a field.

use crate::bytes::le_value;
use crate::field::Field;
use crate::identity::OpsIdentity;
use halo2_proofs::plonk::Expression;
use vstd::prelude::*;

verus! {

/// `halo2_proofs::plonk::Expression`, a node of a symbolic expression over the
/// field `F`. Verified code sees none of its variants.
#[verifier::external_type_specification]
#[verifier::external_body]
#[verifier::reject_recursive_types(F)]
pub struct ExExpression<F>(Expression<F>);

impl<F: Field> OpsIdentity for Expression<F> {
    type Output = Expression<F>;

    /// A node is the additive identity when it is a constant leaf that holds
    /// the field's additive identity, the element that stands for 0.
    open spec fn additive_identity(node: Expression<F>) -> bool {
        F::constant_repr(node) matches Some(bytes) && le_value(bytes) == 0
    }

    /// A node is the multiplicative identity when it is a constant leaf that
    /// holds the field's multiplicative identity, the element that stands
    /// for 1.
    open spec fn multiplicative_identity(node: Expression<F>) -> bool {
        F::constant_repr(node) matches Some(bytes) && le_value(bytes) == 1
    }

    fn zero() -> (node: Expression<F>) {
        let c = F::zero();
        proof {
            F::lemma_identity_values(c);
        }
        c.constant()
    }

    fn one() -> (node: Expression<F>) {
        let c = F::one();
        proof {
            F::lemma_identity_values(c);
        }
        c.constant()
    }
}

} // verus!
