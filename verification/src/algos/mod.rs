//! The cipher algorithms.

pub mod ceasar;
pub mod diffie_hellmann;
