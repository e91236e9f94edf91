//! The public parameters of the key agreement.

use vstd::prelude::*;

verus! {

/// The base that every peer raises to its private value.
pub const BASE: u16 = 7;

/// The modulus of the key agreement. Private values lie in `[1, PRIME)`.
pub const PRIME: u16 = 23;

} // verus!
