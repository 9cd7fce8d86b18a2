//! The identity elements of ring-like types.

use vstd::prelude::*;

verus! {

/// Trait to retrieve general operation identity element.
pub trait OpsIdentity {
    /// Output type.
    type Output;

    /// Whether `v` is the additive identity of the type.
    spec fn additive_identity(v: Self::Output) -> bool;

    /// Whether `v` is the multiplicative identity of the type.
    spec fn multiplicative_identity(v: Self::Output) -> bool;

    /// Additive identity.
    fn zero() -> (r: Self::Output)
        ensures
            Self::additive_identity(r),
    ;

    /// Multiplicative identity.
    fn one() -> (r: Self::Output)
        ensures
            Self::multiplicative_identity(r),
    ;
}

} // verus!
