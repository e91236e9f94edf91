//! A relay for two chat peers that agree on a shared secret by modular
//! exponentiation and scramble their messages with a shift cipher.
//!
//! The cipher and the small modulus are deliberately weak: nothing here is a
//! security boundary.

pub mod algos;
pub mod client;
pub mod constants;
pub mod decimal;
pub mod outbound;
pub mod peer;
pub mod registry;
pub mod server;
pub mod structs;
pub mod text;
pub mod traits;
pub mod utils;
pub mod wire;
