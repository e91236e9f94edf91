//! The frames that travel between a peer and the relay, and their text.
//!
//! A frame is a line of text. Control frames begin with a tag; on the way
//! to a peer, the written form of an identifier announces that peer's
//! identity; any other text is chat content.

use crate::decimal::{
    decimal, is_digit, lemma_decimal_length, lemma_decimal_spells, lemma_parse_of_decimal,
    parse_decimal, parse_u16, push_decimal,
};
use crate::peer::{hyphenated, id_of_text, is_id_length, PeerId};
use crate::text::chars_of;
use vstd::prelude::*;

verus! {

/// One message of the protocol.
#[derive(Debug, PartialEq, Eq)]
pub enum WireMessage {
    /// To a peer: the identity that the relay has given it.
    PeerIdAnnounce(PeerId),
    /// From a peer: its new public value.
    SetPublicKey(u16),
    /// From a peer: a request for the other peer's public value.
    GetPublicKeyRequest,
    /// To a peer: the other peer's public value.
    GetPublicKeyResponse(u16),
    /// Chat content, enciphered or not.
    Payload(String),
    /// The end of the connection. It travels as the transport's own close
    /// frame and has no text.
    Close,
}

/// What a connection's socket has yielded.
#[derive(Debug, PartialEq, Eq)]
pub enum Incoming {
    /// A text frame.
    Text(String),
    /// The close frame.
    Close,
    /// A frame of a kind the protocol does not use.
    Other,
    /// A read that failed.
    Failed,
}

/// A message with its content as a plain sequence of characters.
pub enum Frame {
    PeerIdAnnounce(PeerId),
    SetPublicKey(u16),
    GetPublicKeyRequest,
    GetPublicKeyResponse(u16),
    Payload(Seq<char>),
    Close,
}

impl View for WireMessage {
    type V = Frame;

    open spec fn view(&self) -> Frame {
        match self {
            WireMessage::PeerIdAnnounce(id) => Frame::PeerIdAnnounce(*id),
            WireMessage::SetPublicKey(value) => Frame::SetPublicKey(*value),
            WireMessage::GetPublicKeyRequest => Frame::GetPublicKeyRequest,
            WireMessage::GetPublicKeyResponse(value) => Frame::GetPublicKeyResponse(*value),
            WireMessage::Payload(text) => Frame::Payload(text@),
            WireMessage::Close => Frame::Close,
        }
    }
}

/// Why a text is no frame.
#[derive(Clone, Copy, Debug, PartialEq, Eq, Structural)]
pub enum WireError {
    /// A control frame whose argument is not a 16-bit decimal number.
    MalformedArgument,
}

/// The tag of the frame that publishes a public value.
pub open spec fn set_key_tag() -> Seq<char> {
    "set_public_key:"@
}

/// The tag of the frame that asks for the other peer's public value.
pub open spec fn get_key_tag() -> Seq<char> {
    "get_public_key"@
}

/// The tag of the frame that delivers a public value.
pub open spec fn key_reply_tag() -> Seq<char> {
    "get_public_key:"@
}

/// `text` begins with `prefix`.
pub open spec fn begins_with(text: Seq<char>, prefix: Seq<char>) -> bool {
    prefix.len() <= text.len() && text.take(prefix.len() as int) == prefix
}

/// The position of the first colon of `text` at or after `from`, or the
/// length of `text` if there is none.
pub open spec fn colon_from(text: Seq<char>, from: int) -> int
    decreases text.len() - from,
{
    if from < 0 || from >= text.len() {
        text.len() as int
    } else if text[from] == ':' {
        from
    } else {
        colon_from(text, from + 1)
    }
}

/// The second of the fields that colons divide `text` into: what stands
/// between the first colon and the next one, or the end. `None` where
/// `text` holds no colon.
pub open spec fn second_field(text: Seq<char>) -> Option<Seq<char>> {
    let first = colon_from(text, 0);
    if first >= text.len() {
        None
    } else {
        Some(text.subrange(first + 1, colon_from(text, first + 1)))
    }
}

/// The number that a control frame carries as its argument.
pub open spec fn argument(text: Seq<char>) -> Result<u16, WireError> {
    match second_field(text) {
        Some(field) => match parse_u16(field) {
            Some(value) => Ok(value),
            None => Err(WireError::MalformedArgument),
        },
        None => Err(WireError::MalformedArgument),
    }
}

/// What a text from a peer means to the relay.
pub open spec fn client_frame(text: Seq<char>) -> Result<Frame, WireError> {
    if begins_with(text, set_key_tag()) {
        match argument(text) {
            Ok(value) => Ok(Frame::SetPublicKey(value)),
            Err(e) => Err(e),
        }
    } else if begins_with(text, get_key_tag()) {
        Ok(Frame::GetPublicKeyRequest)
    } else {
        Ok(Frame::Payload(text))
    }
}

/// What a text from the relay means to a peer, given the identifier that
/// the text was found to spell, if any.
pub open spec fn server_frame(text: Seq<char>, announced: Option<PeerId>) -> Result<
    Frame,
    WireError,
> {
    match announced {
        Some(id) => Ok(Frame::PeerIdAnnounce(id)),
        None => if begins_with(text, key_reply_tag()) {
            match argument(text) {
                Ok(value) => Ok(Frame::GetPublicKeyResponse(value)),
                Err(e) => Err(e),
            }
        } else {
            Ok(Frame::Payload(text))
        },
    }
}

/// The text of a message; `None` for `Close`, which has none.
pub open spec fn frame_text(frame: Frame) -> Option<Seq<char>> {
    match frame {
        Frame::PeerIdAnnounce(id) => Some(hyphenated(id.0)),
        Frame::SetPublicKey(value) => Some(set_key_tag() + decimal(value as nat)),
        Frame::GetPublicKeyRequest => Some(get_key_tag()),
        Frame::GetPublicKeyResponse(value) => Some(key_reply_tag() + decimal(value as nat)),
        Frame::Payload(text) => Some(text),
        Frame::Close => None,
    }
}

/// The outcome of decoding with its content as plain characters.
pub open spec fn decoded_view(decoded: Result<WireMessage, WireError>) -> Result<Frame, WireError> {
    match decoded {
        Ok(message) => Ok(message@),
        Err(e) => Err(e),
    }
}

/// An optional string as plain characters.
pub open spec fn text_view(text: Option<String>) -> Option<Seq<char>> {
    match text {
        Some(t) => Some(t@),
        None => None,
    }
}

/// Where the first colon from `from` on stands at `at`, `colon_from` finds
/// it there.
proof fn lemma_colon_found(text: Seq<char>, from: int, at: int)
    requires
        0 <= from <= at < text.len(),
        text[at] == ':',
        forall|k: int| from <= k < at ==> text[k] != ':',
    ensures
        colon_from(text, from) == at,
    decreases at - from,
{
    if from < at {
        lemma_colon_found(text, from + 1, at);
    }
}

/// Where no colon stands from `from` on, `colon_from` runs to the end.
proof fn lemma_colon_missing(text: Seq<char>, from: int)
    requires
        0 <= from <= text.len(),
        forall|k: int| from <= k < text.len() ==> text[k] != ':',
    ensures
        colon_from(text, from) == text.len(),
    decreases text.len() - from,
{
    if from < text.len() {
        lemma_colon_missing(text, from + 1);
    }
}

/// A tag of fifteen characters that ends in its only colon, followed by a
/// number in decimal, carries that number as its argument.
proof fn lemma_tagged_number(tag: Seq<char>, value: u16)
    requires
        tag.len() == 15,
        tag[14] == ':',
        forall|k: int| 0 <= k < 14 ==> tag[k] != ':',
    ensures
        begins_with(tag + decimal(value as nat), tag),
        argument(tag + decimal(value as nat)) == Ok::<u16, WireError>(value),
{
    let number = decimal(value as nat);
    let text = tag + number;
    lemma_decimal_spells(value as nat);
    lemma_parse_of_decimal(value);
    assert(text.take(15) =~= tag);
    assert forall|k: int| 0 <= k < 14 implies text[k] != ':' by {
        assert(text[k] == tag[k]);
    }
    lemma_colon_found(text, 0, 14);
    assert forall|k: int| 15 <= k < text.len() implies text[k] != ':' by {
        assert(text[k] == number[k - 15]);
        assert(is_digit(number[k - 15]));
    }
    lemma_colon_missing(text, 15);
    assert(text.subrange(15, text.len() as int) =~= number);
}

/// The relay reads a published key as the key that was published.
pub proof fn lemma_set_key_round_trip(value: u16)
    ensures
        frame_text(Frame::SetPublicKey(value)) matches Some(text) && client_frame(text) == Ok::<
            Frame,
            WireError,
        >(Frame::SetPublicKey(value)),
{
    reveal_strlit("set_public_key:");
    lemma_tagged_number(set_key_tag(), value);
}

/// The relay reads a request for a key as a request for a key.
pub proof fn lemma_get_key_round_trip()
    ensures
        frame_text(Frame::GetPublicKeyRequest) matches Some(text) && client_frame(text) == Ok::<
            Frame,
            WireError,
        >(Frame::GetPublicKeyRequest),
{
    reveal_strlit("set_public_key:");
    reveal_strlit("get_public_key");
    let text = get_key_tag();
    assert(text.take(text.len() as int) =~= text);
    assert(text[0] != set_key_tag()[0]);
    if begins_with(text, set_key_tag()) {
        assert(text.take(15)[0] == set_key_tag()[0]);
    }
}

/// The frame that delivers a key is too short to be taken for an
/// identifier, and a peer reads it as the key that was delivered.
pub proof fn lemma_key_reply_round_trip(value: u16)
    ensures
        frame_text(Frame::GetPublicKeyResponse(value)) matches Some(text) && !is_id_length(
            text.len(),
        ) && server_frame(text, None) == Ok::<Frame, WireError>(
            Frame::GetPublicKeyResponse(value),
        ),
{
    reveal_strlit("get_public_key:");
    lemma_tagged_number(key_reply_tag(), value);
    lemma_decimal_length(value);
}

/// Chat content that begins with neither tag reaches the relay as the
/// chat content it is.
pub proof fn lemma_payload_round_trip(text: Seq<char>)
    requires
        !begins_with(text, get_key_tag()),
        !begins_with(text, set_key_tag()),
    ensures
        frame_text(Frame::Payload(text)) == Some(text),
        client_frame(text) == Ok::<Frame, WireError>(Frame::Payload(text)),
{
}

/// Whether `text` begins with `prefix`.
pub fn starts_with(text: &Vec<char>, prefix: &Vec<char>) -> (found: bool)
    ensures
        found == begins_with(text@, prefix@),
{
    if prefix.len() > text.len() {
        return false;
    }
    let mut at: usize = 0;
    while at < prefix.len()
        invariant
            at <= prefix.len() <= text.len(),
            forall|k: int| 0 <= k < at ==> text@[k] == prefix@[k],
        decreases prefix.len() - at,
    {
        if text[at] != prefix[at] {
            assert(text@.take(prefix@.len() as int)[at as int] != prefix@[at as int]);
            return false;
        }
        at += 1;
    }
    assert(text@.take(prefix@.len() as int) =~= prefix@);
    true
}

/// The position of the first colon at or after `from`, or the length of
/// `text`.
pub fn find_colon(text: &Vec<char>, from: usize) -> (at: usize)
    requires
        from <= text.len(),
    ensures
        at == colon_from(text@, from as int),
        from <= at <= text.len(),
{
    let mut at: usize = from;
    while at < text.len()
        invariant
            from <= at <= text.len(),
            colon_from(text@, from as int) == colon_from(text@, at as int),
        decreases text.len() - at,
    {
        if text[at] == ':' {
            return at;
        }
        at += 1;
    }
    at
}

/// The second colon-separated field of `text`, if `text` holds a colon.
pub fn second_field_of(text: &Vec<char>) -> (field: Option<Vec<char>>)
    ensures
        match field {
            Some(f) => second_field(text@) == Some(f@),
            None => second_field(text@) is None,
        },
{
    let first: usize = find_colon(text, 0);
    if first >= text.len() {
        return None;
    }
    let end: usize = find_colon(text, first + 1);
    let mut field: Vec<char> = Vec::new();
    let mut at: usize = first + 1;
    while at < end
        invariant
            first + 1 <= at <= end <= text.len(),
            field@ == text@.subrange(first + 1, at as int),
        decreases end - at,
    {
        field.push(text[at]);
        assert(field@ =~= text@.subrange(first + 1, at + 1));
        at += 1;
    }
    Some(field)
}

/// Reads the numeric argument of a control frame.
pub fn argument_of(text: &Vec<char>) -> (value: Result<u16, WireError>)
    ensures
        value == argument(text@),
{
    match second_field_of(text) {
        Some(field) => match parse_decimal(&field) {
            Some(value) => Ok(value),
            None => Err(WireError::MalformedArgument),
        },
        None => Err(WireError::MalformedArgument),
    }
}

/// Decodes a text that a peer has sent to the relay.
///
/// A text that begins with the tag `set_public_key:` publishes the number
/// in its second field and is refused where that field is no 16-bit
/// number; any text that begins with `get_public_key` asks for the other
/// peer's public value; every other text is chat content.
pub fn decode_client_text(text: &str) -> (decoded: Result<WireMessage, WireError>)
    ensures
        decoded_view(decoded) == client_frame(text@),
{
    let chars = chars_of(text);
    if starts_with(&chars, &chars_of("set_public_key:")) {
        match argument_of(&chars) {
            Ok(value) => Ok(WireMessage::SetPublicKey(value)),
            Err(e) => Err(e),
        }
    } else if starts_with(&chars, &chars_of("get_public_key")) {
        Ok(WireMessage::GetPublicKeyRequest)
    } else {
        Ok(WireMessage::Payload(text.to_owned()))
    }
}

/// Decodes a text that the relay has sent to a peer, given the identifier
/// that the text was found to spell, if any.
///
/// A text that spells an identifier announces it; failing that, a text
/// that begins with the tag `get_public_key:` delivers the number in its
/// second field and is refused where that field is no 16-bit number;
/// every other text is chat content.
pub fn decode_server_text_as(text: &str, announced: Option<PeerId>) -> (decoded: Result<
    WireMessage,
    WireError,
>)
    ensures
        decoded_view(decoded) == server_frame(text@, announced),
{
    match announced {
        Some(id) => Ok(WireMessage::PeerIdAnnounce(id)),
        None => {
            let chars = chars_of(text);
            if starts_with(&chars, &chars_of("get_public_key:")) {
                match argument_of(&chars) {
                    Ok(value) => Ok(WireMessage::GetPublicKeyResponse(value)),
                    Err(e) => Err(e),
                }
            } else {
                Ok(WireMessage::Payload(text.to_owned()))
            }
        },
    }
}

/// Decodes a text that the relay has sent to a peer. A text of another
/// length than the written forms of an identifier have announces none.
pub fn decode_server_text(text: &str) -> (decoded: Result<WireMessage, WireError>)
    ensures
        decoded_view(decoded) == server_frame(text@, PeerId::read(id_of_text(text@))),
        !is_id_length(text@.len()) ==> decoded_view(decoded) == server_frame(text@, None),
{
    decode_server_text_as(text, PeerId::from_text(text))
}

/// The frame that publishes `value` as the sender's public value.
pub fn set_key_text(value: u16) -> (text: String)
    ensures
        text@ == set_key_tag() + decimal(value as nat),
{
    let mut text = "set_public_key:".to_owned();
    push_decimal(&mut text, value);
    text
}

/// The frame that asks for the other peer's public value.
pub fn get_key_text() -> (text: String)
    ensures
        text@ == get_key_tag(),
{
    "get_public_key".to_owned()
}

/// The frame that delivers `value` as the other peer's public value.
pub fn key_reply_text(value: u16) -> (text: String)
    ensures
        text@ == key_reply_tag() + decimal(value as nat),
{
    let mut text = "get_public_key:".to_owned();
    push_decimal(&mut text, value);
    text
}

/// The text of a message, or `None` for `Close`.
pub fn encode(message: &WireMessage) -> (text: Option<String>)
    ensures
        text_view(text) == frame_text(message@),
{
    match message {
        WireMessage::PeerIdAnnounce(id) => Some(id.to_text()),
        WireMessage::SetPublicKey(value) => Some(set_key_text(*value)),
        WireMessage::GetPublicKeyRequest => Some(get_key_text()),
        WireMessage::GetPublicKeyResponse(value) => Some(key_reply_text(*value)),
        WireMessage::Payload(content) => Some(content.clone()),
        WireMessage::Close => None,
    }
}

} // verus!
