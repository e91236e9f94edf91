//! The cipher engines a peer can be set up with.

use vstd::prelude::*;

verus! {

/// The engine that shifts letters by the secret two peers agreed on.
#[derive(Clone, Copy, Debug, PartialEq, Eq)]
pub struct DiffieHellman {}

/// The engine chosen for a connection. One algorithm is offered; another
/// one becomes another variant.
#[derive(Clone, Copy, Debug, PartialEq, Eq)]
pub enum Cipher {
    DiffieHellman(DiffieHellman),
}

} // verus!
