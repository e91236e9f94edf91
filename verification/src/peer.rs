//! The identity of a connected peer.

use vstd::arithmetic::power::pow;
use vstd::prelude::*;

verus! {

/// A 128-bit identifier that the relay gives a peer when it connects and
/// that stays with the connection until it ends.
#[derive(Clone, Copy, Debug, PartialEq, Eq, Structural, Hash)]
pub struct PeerId(pub u128);

/// The bits that mark an identifier as drawn at random: version 4 in the
/// seventh byte, the standard variant in the ninth.
pub open spec fn is_random_id(value: u128) -> bool {
    value & 0x0000_0000_0000_f000_c000_0000_0000_0000u128
        == 0x0000_0000_0000_4000_8000_0000_0000_0000u128
}

/// The lowercase hexadecimal digit for a value below 16.
pub open spec fn hex_char(digit: int) -> char {
    if digit < 10 {
        (48 + digit) as u8 as char
    } else {
        (87 + digit) as u8 as char
    }
}

/// The hexadecimal digit of `value` at `place`, counted from the most
/// significant of its 32 digits.
pub open spec fn hex_place(value: u128, place: int) -> int {
    (value as int / pow(16, (31 - place) as nat)) % 16
}

/// Whether position `at` of the written form holds a hyphen.
pub open spec fn is_hyphen_place(at: int) -> bool {
    at == 8 || at == 13 || at == 18 || at == 23
}

/// How many hyphens the written form holds before position `at`.
pub open spec fn hyphens_before(at: int) -> int {
    (if at > 8 { 1int } else { 0 }) + (if at > 13 { 1int } else { 0 }) + (if at > 18 { 1int } else { 0 })
        + (if at > 23 { 1int } else { 0 })
}

/// The written form of an identifier: its 32 lowercase hexadecimal digits,
/// most significant first, in groups of 8, 4, 4, 4 and 12 with a hyphen
/// between two groups.
pub open spec fn hyphenated(value: u128) -> Seq<char> {
    Seq::new(
        36,
        |at: int|
            if is_hyphen_place(at) {
                '-'
            } else {
                hex_char(hex_place(value, at - hyphens_before(at)))
            },
    )
}

/// The identifier that a text stands for, where it is one of the written
/// forms of an identifier, and `None` for any other text: what
/// `uuid::Uuid::try_parse` makes of the text.
pub uninterp spec fn id_of_text(text: Seq<char>) -> Option<u128>;

/// The lengths that the written forms of an identifier have: 32 without
/// hyphens, 36 with them, 38 in braces, 45 as a URN.
pub open spec fn is_id_length(length: nat) -> bool {
    length == 32 || length == 36 || length == 38 || length == 45
}

/// `uuid::Uuid::new_v4`, read as a 128-bit number by `Uuid::as_u128`: a
/// number drawn from the system's random source, with the version and
/// variant bits set as for every random identifier. Two calls need not
/// agree.
#[verifier::external_body]
fn uuid_random() -> (value: u128)
    ensures
        is_random_id(value),
{
    uuid::Uuid::new_v4().as_u128()
}

/// `uuid::Uuid::from_u128` followed by the `to_string` that `Uuid`'s
/// `Display` offers: the hyphenated lowercase form, which the crate's parser
/// reads back as the same identifier.
#[verifier::external_body]
fn uuid_to_text(value: u128) -> (text: String)
    ensures
        text@ == hyphenated(value),
        id_of_text(text@) == Some(value),
{
    uuid::Uuid::from_u128(value).to_string()
}

/// `uuid::Uuid::try_parse`, read as a 128-bit number by `Uuid::as_u128`: the
/// identifier that `text` spells in one of the forms the crate accepts, or
/// `None`. The outcome depends on the characters of `text` alone. The
/// crate accepts texts of 32, 36, 38 or 45 bytes and no byte in them beyond
/// ASCII, so an accepted text has that many characters.
#[verifier::external_body]
fn uuid_from_text(text: &str) -> (value: Option<u128>)
    ensures
        value == id_of_text(text@),
        value is Some ==> is_id_length(text@.len()),
{
    match uuid::Uuid::try_parse(text) {
        Ok(id) => Some(id.as_u128()),
        Err(_) => None,
    }
}

/// An identifier that carries the marks of a random draw is never the nil
/// identifier.
pub proof fn lemma_random_id_is_not_nil(value: u128)
    requires
        is_random_id(value),
    ensures
        value != 0,
{
    assert(value & 0x0000_0000_0000_f000_c000_0000_0000_0000u128
        == 0x0000_0000_0000_4000_8000_0000_0000_0000u128 ==> value != 0) by (bit_vector);
}

impl PeerId {
    /// The identifier of all zeros, which no connection is given.
    pub fn nil() -> (id: Self)
        ensures
            id == PeerId(0),
    {
        PeerId(0)
    }

    /// Draws the identifier for a new connection at random.
    pub fn generate() -> (id: Self)
        ensures
            is_random_id(id.0),
            id != PeerId(0),
    {
        let value: u128 = uuid_random();
        proof {
            lemma_random_id_is_not_nil(value);
        }
        PeerId(value)
    }

    /// The text that announces this identifier to its peer.
    pub fn to_text(&self) -> (text: String)
        ensures
            text@ == hyphenated(self.0),
            id_of_text(text@) == Some(self.0),
    {
        uuid_to_text(self.0)
    }

    /// Reads an identifier from its written form. A text of another
    /// length than a written form has spells none.
    pub fn from_text(text: &str) -> (id: Option<Self>)
        ensures
            id == Self::read(id_of_text(text@)),
            id is Some ==> is_id_length(text@.len()),
            !is_id_length(text@.len()) ==> id is None,
    {
        match uuid_from_text(text) {
            Some(value) => Some(PeerId(value)),
            None => None,
        }
    }

    /// The identifier for what a text was found to stand for.
    pub open spec fn read(value: Option<u128>) -> Option<Self> {
        match value {
            Some(v) => Some(PeerId(v)),
            None => None,
        }
    }
}

} // verus!
