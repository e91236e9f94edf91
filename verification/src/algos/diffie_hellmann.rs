//! The engine that enciphers with the shift cipher under the secret of a
//! Diffie-Hellman exchange.

use crate::algos::ceasar::{
    caesar_cipher, is_lower, is_upper, lemma_shift_text_adds, lemma_shift_text_full_turn,
    lemma_shift_text_inverse, lemma_shift_text_keeps_shape, shift_text,
};
use crate::structs::{Cipher, DiffieHellman};
use crate::traits::{Decryptor, Encryptor};
use vstd::prelude::*;

verus! {

/// The ciphertext of `message` under `shared_key`: the message shifted by
/// the key.
pub open spec fn encrypt_text(message: Seq<char>, shared_key: u16) -> Seq<char> {
    shift_text(message, shared_key as nat)
}

/// The plaintext of `message` under `shared_key`: the message shifted by
/// what is left of a full turn.
pub open spec fn decrypt_text(message: Seq<char>, shared_key: u16) -> Seq<char> {
    shift_text(message, (26 - shared_key % 26) as nat)
}

/// Decrypting under the key that encrypted gives the message back,
/// whatever the message holds.
pub proof fn lemma_decrypt_inverts_encrypt(message: Seq<char>, shared_key: u16)
    ensures
        decrypt_text(encrypt_text(message, shared_key), shared_key) == message,
{
    lemma_shift_text_inverse(message, shared_key as nat);
}

/// Encrypting what was decrypted under the same key gives the ciphertext
/// back: between two parties that hold one secret, passing a ciphertext on
/// untouched is the same as opening it and sealing it again.
pub proof fn lemma_encrypt_inverts_decrypt(message: Seq<char>, shared_key: u16)
    ensures
        encrypt_text(decrypt_text(message, shared_key), shared_key) == message,
{
    let back: nat = (26 - shared_key % 26) as nat;
    lemma_shift_text_adds(message, back, shared_key as nat);
    lemma_shift_text_full_turn(message, back + shared_key as nat);
}

/// Under a key that is a multiple of 26, zero and 26 among them, a message
/// is its own ciphertext.
pub proof fn lemma_encrypt_full_turn(message: Seq<char>, shared_key: u16)
    requires
        shared_key % 26 == 0,
    ensures
        encrypt_text(message, shared_key) == message,
{
    lemma_shift_text_full_turn(message, shared_key as nat);
}

/// Neither encrypting nor decrypting changes the length of a message, the
/// case of a letter, or a character that is no ASCII letter.
pub proof fn lemma_cipher_keeps_shape(message: Seq<char>, shared_key: u16)
    ensures
        encrypt_text(message, shared_key).len() == message.len(),
        decrypt_text(message, shared_key).len() == message.len(),
        forall|at: int|
            0 <= at < message.len() ==> (is_lower(message[at]) <==> is_lower(
                #[trigger] encrypt_text(message, shared_key)[at],
            )) && (is_upper(message[at]) <==> is_upper(encrypt_text(message, shared_key)[at])),
        forall|at: int|
            0 <= at < message.len() ==> (is_lower(message[at]) <==> is_lower(
                #[trigger] decrypt_text(message, shared_key)[at],
            )) && (is_upper(message[at]) <==> is_upper(decrypt_text(message, shared_key)[at])),
        forall|at: int|
            0 <= at < message.len() && !is_lower(message[at]) && !is_upper(message[at])
                ==> #[trigger] encrypt_text(message, shared_key)[at] == message[at],
        forall|at: int|
            0 <= at < message.len() && !is_lower(message[at]) && !is_upper(message[at])
                ==> #[trigger] decrypt_text(message, shared_key)[at] == message[at],
{
    lemma_shift_text_keeps_shape(message, shared_key as nat);
    lemma_shift_text_keeps_shape(message, (26 - shared_key % 26) as nat);
}

impl DiffieHellman {
    /// The engine: it holds nothing, so there is one value of it.
    pub open spec fn only() -> Self {
        DiffieHellman {  }
    }

    pub fn new() -> (engine: Self)
        ensures
            engine == Self::only(),
    {
        DiffieHellman {  }
    }
}

impl Encryptor for DiffieHellman {
    open spec fn encrypted(&self, message: Seq<char>, shared_key: u16) -> Result<
        Seq<char>,
        Seq<char>,
    > {
        Ok(encrypt_text(message, shared_key))
    }

    fn encrypt(&self, message: &str, shared_key: &u16) -> (outcome: Result<String, String>) {
        let encrypted_msg = caesar_cipher(message, *shared_key);
        Ok(encrypted_msg)
    }
}

impl Decryptor for DiffieHellman {
    open spec fn decrypted(&self, message: Seq<char>, shared_key: u16) -> Result<
        Seq<char>,
        Seq<char>,
    > {
        Ok(decrypt_text(message, shared_key))
    }

    fn decrypt(&self, message: &str, shared_key: &u16) -> (outcome: Result<String, String>) {
        let decrypted_msg = caesar_cipher(message, 26 - (*shared_key % 26));
        Ok(decrypted_msg)
    }
}

impl Encryptor for Cipher {
    open spec fn encrypted(&self, message: Seq<char>, shared_key: u16) -> Result<
        Seq<char>,
        Seq<char>,
    > {
        match self {
            Cipher::DiffieHellman(engine) => engine.encrypted(message, shared_key),
        }
    }

    fn encrypt(&self, message: &str, shared_key: &u16) -> (outcome: Result<String, String>) {
        match self {
            Cipher::DiffieHellman(engine) => engine.encrypt(message, shared_key),
        }
    }
}

impl Decryptor for Cipher {
    open spec fn decrypted(&self, message: Seq<char>, shared_key: u16) -> Result<
        Seq<char>,
        Seq<char>,
    > {
        match self {
            Cipher::DiffieHellman(engine) => engine.decrypted(message, shared_key),
        }
    }

    fn decrypt(&self, message: &str, shared_key: &u16) -> (outcome: Result<String, String>) {
        match self {
            Cipher::DiffieHellman(engine) => engine.decrypt(message, shared_key),
        }
    }
}

} // verus!
