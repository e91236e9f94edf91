//! What a cipher engine has to offer, whatever its algorithm.

use vstd::prelude::*;

verus! {

/// The outcome of an engine call as plain sequences of characters.
pub open spec fn outcome_view(outcome: Result<String, String>) -> Result<Seq<char>, Seq<char>> {
    match outcome {
        Ok(text) => Ok(text@),
        Err(reason) => Err(reason@),
    }
}

/// Turns plaintext into ciphertext under a shared key.
pub trait Encryptor: Send + Sync {
    /// What `encrypt` yields for a message and a key: each engine says so
    /// for itself.
    spec fn encrypted(&self, message: Seq<char>, shared_key: u16) -> Result<Seq<char>, Seq<char>>;

    fn encrypt(&self, message: &str, shared_key: &u16) -> (outcome: Result<String, String>)
        ensures
            outcome_view(outcome) == self.encrypted(message@, *shared_key),
    ;
}

/// Turns ciphertext back into plaintext under a shared key.
pub trait Decryptor: Send + Sync {
    /// What `decrypt` yields for a message and a key: each engine says so
    /// for itself.
    spec fn decrypted(&self, message: Seq<char>, shared_key: u16) -> Result<Seq<char>, Seq<char>>;

    fn decrypt(&self, message: &str, shared_key: &u16) -> (outcome: Result<String, String>)
        ensures
            outcome_view(outcome) == self.decrypted(message@, *shared_key),
    ;
}

} // verus!
