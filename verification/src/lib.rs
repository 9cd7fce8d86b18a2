//! Extensions over the prime fields of elliptic curves: identity elements of
//! field elements and of symbolic expressions, the low limbs of a field
//! element's canonical value, and the byte encodings of a 256-bit word.

pub mod bn256;
pub mod bytes;
pub mod consistency;
pub mod expression;
pub mod field;
pub mod identity;
pub mod limbs;
pub mod pasta;
pub mod word;

pub use crate::field::Field;
pub use crate::identity::OpsIdentity;
pub use crate::limbs::{lower_128, lower_32};
pub use crate::word::{ToBigEndian, ToLittleEndian, Word};
pub use primitive_types::U256;
