//! A peer's side of a connection: its key pairs, what it has learnt of the
//! other peer, and what to do with each thing that arrives from the relay
//! or from the keyboard.
//!
//! A peer draws a key pair and publishes the public half. Once the relay
//! has told it its identity it asks for the other peer's public value, and
//! from the answer on it may send: each line is enciphered under the
//! secret that both peers derive. After every line sent it draws a new
//! pair, publishes it, and waits for the next answer before it sends again.

use crate::algos::diffie_hellmann::lemma_decrypt_inverts_encrypt;
use crate::constants::{BASE, PRIME};
use crate::decimal::decimal;
use crate::peer::{id_of_text, is_id_length, PeerId};
use crate::structs::{Cipher, DiffieHellman};
use crate::text::{trim, trimmed};
use crate::traits::{Decryptor, Encryptor};
use crate::utils::{lemma_shared_secret_agrees, mod_exp, pow_mod};
use crate::wire::{
    decode_server_text, decoded_view, frame_text, get_key_tag, get_key_text,
    lemma_key_reply_round_trip, server_frame, set_key_tag, set_key_text, text_view, Frame,
    Incoming, WireError, WireMessage,
};
use rand::Rng;
use vstd::prelude::*;

verus! {

/// `rand::Rng::gen_range` on the generator that `rand::thread_rng` hands
/// out, with the half-open range `low..high`: some value of that range.
/// The call panics on an empty range, which the precondition leaves out.
/// Two calls need not agree.
#[verifier::external_body]
fn random_in_range(low: u16, high: u16) -> (value: u16)
    requires
        low < high,
    ensures
        low <= value < high,
{
    rand::thread_rng().gen_range(low..high)
}

/// The public value that belongs to a private value.
pub open spec fn public_of(private_value: u16) -> u16 {
    pow_mod(BASE as int, private_value as nat, PRIME as int) as u16
}

/// The secret that the holder of `private_value` shares with the peer
/// that has published `other_public`.
pub open spec fn secret_of(other_public: u16, private_value: u16) -> u16 {
    pow_mod(other_public as int, private_value as nat, PRIME as int) as u16
}

/// The key pair of a private value: the value itself and its public value.
pub fn keys_for(private_value: u16) -> (keys: (u16, u16))
    ensures
        keys.0 == private_value,
        keys.1 == public_of(private_value),
{
    (private_value, mod_exp(BASE, private_value, PRIME))
}

/// Draws a private value in `[1, PRIME)` and derives its public value.
pub fn generate_keys() -> (keys: (u16, u16))
    ensures
        1 <= keys.0 < PRIME,
        keys.1 == public_of(keys.0),
{
    keys_for(random_in_range(1, PRIME))
}

/// Draws a key pair, stores it in the two places given and returns it.
pub fn generate_and_set_keys(private_key: &mut u16, public_key: &mut u16) -> (keys: (u16, u16))
    ensures
        1 <= keys.0 < PRIME,
        keys.1 == public_of(keys.0),
        *final(private_key) == keys.0,
        *final(public_key) == keys.1,
{
    let (pr, pb) = generate_keys();
    *private_key = pr;
    *public_key = pb;
    (pr, pb)
}

/// Two peers that raise each other's public value to their own private
/// value hold the same secret.
pub proof fn lemma_secrets_agree(a: u16, b: u16)
    ensures
        secret_of(public_of(b), a) == secret_of(public_of(a), b),
{
    lemma_shared_secret_agrees(BASE as int, a as nat, b as nat, PRIME as int);
}

/// The engine for an option number: option 1 is the shift cipher under a
/// Diffie-Hellman secret, and no other option is on offer.
pub fn choose_algorithm(option: u16) -> (chosen: Option<Cipher>)
    ensures
        chosen is Some <==> option == 1,
        chosen matches Some(cipher) ==> cipher == Cipher::DiffieHellman(DiffieHellman::only()),
{
    match option {
        1 => Some(Cipher::DiffieHellman(DiffieHellman::new())),
        _ => None,
    }
}

/// How far a peer has come in the exchange.
#[derive(Clone, Copy, Debug, PartialEq, Eq, Structural)]
pub enum ExchangeState {
    /// No key pair yet.
    Unkeyed,
    /// A key pair of its own, nothing of the other peer.
    KeySet,
    /// A key pair of its own and the other peer's public value: the
    /// secret can be derived.
    Exchanged,
}

/// What a session holds, as plain values.
pub struct SessionData {
    /// The identity that the relay has announced, once it has.
    pub id: Option<PeerId>,
    /// The private and the public value of the current round.
    pub keys: Option<(u16, u16)>,
    /// The public value of the other peer, once delivered.
    pub other_key: Option<u16>,
    /// Whether the peer may send a line.
    pub can_type: bool,
    /// The engine chosen when the session was set up.
    pub cipher: Cipher,
}

impl SessionData {
    /// How far the exchange has come.
    pub open spec fn state(self) -> ExchangeState {
        match (self.keys, self.other_key) {
            (None, _) => ExchangeState::Unkeyed,
            (Some(_), None) => ExchangeState::KeySet,
            (Some(_), Some(_)) => ExchangeState::Exchanged,
        }
    }

    /// The shared secret, once the exchange is complete.
    pub open spec fn secret(self) -> Option<u16> {
        match (self.keys, self.other_key) {
            (Some(keys), Some(other)) => Some(secret_of(other, keys.0)),
            _ => None,
        }
    }

    /// The session after a new round has begun with `private_value`.
    pub open spec fn with_round(self, private_value: u16) -> SessionData {
        SessionData { keys: Some((private_value, public_of(private_value))), ..self }
    }

    /// The session after a message from the relay.
    pub open spec fn after_message(self, decoded: Result<Frame, WireError>) -> SessionData {
        match decoded {
            Ok(Frame::PeerIdAnnounce(id)) => SessionData { id: Some(id), ..self },
            Ok(Frame::GetPublicKeyResponse(value)) => SessionData {
                other_key: Some(value),
                can_type: true,
                ..self
            },
            _ => self,
        }
    }

    /// What the peer does about a message from the relay.
    pub open spec fn plan_for_message(self, decoded: Result<Frame, WireError>) -> ClientPlan {
        match decoded {
            Ok(Frame::PeerIdAnnounce(_)) => ClientPlan::Send(get_key_tag()),
            Ok(Frame::GetPublicKeyResponse(_)) => ClientPlan::Ready,
            Ok(Frame::Payload(text)) => match self.secret() {
                Some(secret) => match self.cipher.decrypted(text, secret) {
                    Ok(plain) => ClientPlan::Show(plain),
                    Err(_) => ClientPlan::Nothing,
                },
                None => ClientPlan::Nothing,
            },
            Ok(Frame::Close) => ClientPlan::Stop,
            _ => ClientPlan::Nothing,
        }
    }

    /// The session after an event on the connection.
    pub open spec fn after_event(self, incoming: Incoming) -> SessionData {
        match incoming {
            Incoming::Text(text) => self.after_message(
                server_frame(text@, PeerId::read(id_of_text(text@))),
            ),
            _ => self,
        }
    }

    /// What the peer does about an event on the connection.
    pub open spec fn plan_for_event(self, incoming: Incoming) -> ClientPlan {
        match incoming {
            Incoming::Text(text) => self.plan_for_message(
                server_frame(text@, PeerId::read(id_of_text(text@))),
            ),
            Incoming::Close => ClientPlan::Stop,
            Incoming::Other => ClientPlan::Nothing,
            Incoming::Failed => ClientPlan::Stop,
        }
    }

    /// Whether the peer may send a line: the keyboard is open and the
    /// secret can be derived.
    pub open spec fn may_type(self) -> bool {
        self.can_type && self.secret() is Some
    }

    /// The frame for a line from the keyboard, where the peer may send:
    /// the line without the white space round it, enciphered.
    pub open spec fn frame_for_line(self, line: Seq<char>) -> Option<Seq<char>> {
        match self.secret() {
            Some(secret) => if self.can_type {
                match self.cipher.encrypted(trimmed(line), secret) {
                    Ok(sealed) => Some(sealed),
                    Err(_) => None,
                }
            } else {
                None
            },
            None => None,
        }
    }
}

/// How far along a state is: 0 before the own keys, 1 with them, 2 once
/// the other peer's value is there too.
pub open spec fn progress(state: ExchangeState) -> int {
    match state {
        ExchangeState::Unkeyed => 0,
        ExchangeState::KeySet => 1,
        ExchangeState::Exchanged => 2,
    }
}

/// The exchange only ever advances: no message and no new round takes
/// the own keys or the other peer's value away again.
pub proof fn lemma_exchange_only_advances(
    session: SessionData,
    decoded: Result<Frame, WireError>,
    private_value: u16,
)
    ensures
        progress(session.after_message(decoded).state()) >= progress(session.state()),
        progress(session.with_round(private_value).state()) >= progress(session.state()),
        progress(session.with_round(private_value).state()) >= 1,
        session.after_message(decoded).keys == session.keys,
        session.with_round(private_value).other_key == session.other_key,
{
}

/// Two peers that have each other's public value hold one secret, and a
/// line that one of them sends is shown to the other as it was typed, less
/// the white space round it.
pub proof fn lemma_line_arrives(sender: SessionData, receiver: SessionData, line: Seq<char>)
    requires
        sender.keys matches Some(keys) && keys.1 == public_of(keys.0) && receiver.other_key == Some(
            keys.1,
        ),
        receiver.keys matches Some(keys) && keys.1 == public_of(keys.0) && sender.other_key == Some(
            keys.1,
        ),
        sender.can_type,
    ensures
        sender.secret() is Some,
        sender.secret() == receiver.secret(),
        sender.frame_for_line(line) matches Some(sealed) && receiver.plan_for_message(
            Ok(Frame::Payload(sealed)),
        ) == ClientPlan::Show(trimmed(line)),
{
    let (ours, theirs) = match (sender.keys, receiver.keys) {
        (Some(a), Some(b)) => (a, b),
        _ => ((0u16, 0u16), (0u16, 0u16)),
    };
    lemma_secrets_agree(ours.0, theirs.0);
    lemma_decrypt_inverts_encrypt(trimmed(line), secret_of(theirs.1, ours.0));
}

/// A peer that has a key pair and is delivered the other peer's value, in
/// the frame that the relay writes for it, has completed the exchange:
/// it holds that value and may type.
pub proof fn lemma_reply_completes_exchange(session: SessionData, value: u16)
    requires
        session.keys is Some,
    ensures
        frame_text(Frame::GetPublicKeyResponse(value)) matches Some(text) && !is_id_length(
            text.len(),
        ) && ({
            let after = session.after_message(server_frame(text, None));
            after.other_key == Some(value) && after.state() == ExchangeState::Exchanged
                && after.may_type() && after.keys == session.keys
        }),
{
    lemma_key_reply_round_trip(value);
}

/// What a peer does about an event.
#[derive(Debug, PartialEq, Eq)]
pub enum ClientReaction {
    /// Send this frame to the relay.
    Send(String),
    /// Show this message, deciphered, to the user.
    Show(String),
    /// The other peer's key has arrived: the user may type.
    Ready,
    /// Carry on; there is nothing to do.
    Nothing,
    /// End the connection.
    Stop,
}

/// A peer's reaction as plain values.
pub enum ClientPlan {
    Send(Seq<char>),
    Show(Seq<char>),
    Ready,
    Nothing,
    Stop,
}

impl View for ClientReaction {
    type V = ClientPlan;

    open spec fn view(&self) -> ClientPlan {
        match self {
            ClientReaction::Send(text) => ClientPlan::Send(text@),
            ClientReaction::Show(text) => ClientPlan::Show(text@),
            ClientReaction::Ready => ClientPlan::Ready,
            ClientReaction::Nothing => ClientPlan::Nothing,
            ClientReaction::Stop => ClientPlan::Stop,
        }
    }
}

/// One peer's end of a connection. The public value it holds is always
/// the one that belongs to its private value.
pub struct ClientSession {
    id: Option<PeerId>,
    keys: Option<(u16, u16)>,
    other_key: Option<u16>,
    can_type: bool,
    cipher: Cipher,
}

impl View for ClientSession {
    type V = SessionData;

    closed spec fn view(&self) -> SessionData {
        SessionData {
            id: self.id,
            keys: self.keys,
            other_key: self.other_key,
            can_type: self.can_type,
            cipher: self.cipher,
        }
    }
}

impl ClientSession {
    #[verifier::type_invariant]
    spec fn well_formed(self) -> bool {
        self.keys matches Some(keys) ==> keys.1 == public_of(keys.0)
    }

    /// A session that has no identity, no keys and nothing of the other
    /// peer yet, and may not send.
    pub fn new(cipher: Cipher) -> (session: Self)
        ensures
            session@ == (SessionData {
                id: None,
                keys: None,
                other_key: None,
                can_type: false,
                cipher,
            }),
    {
        ClientSession { id: None, keys: None, other_key: None, can_type: false, cipher }
    }

    /// The identity that the relay has announced, once it has.
    pub fn id(&self) -> (id: Option<PeerId>)
        ensures
            id == self@.id,
    {
        self.id
    }

    /// The public value of the current round, once a round has begun.
    pub fn public_key(&self) -> (value: Option<u16>)
        ensures
            value == match self@.keys {
                Some(keys) => Some(keys.1),
                None => None,
            },
            self@.keys matches Some(keys) ==> keys.1 == public_of(keys.0),
    {
        proof {
            use_type_invariant(&*self);
        }
        match self.keys {
            Some(keys) => Some(keys.1),
            None => None,
        }
    }

    /// The public value of the other peer, once delivered.
    pub fn other_key(&self) -> (value: Option<u16>)
        ensures
            value == self@.other_key,
    {
        self.other_key
    }

    /// Whether the peer may send a line now.
    pub fn may_type(&self) -> (open: bool)
        ensures
            open == self@.may_type(),
    {
        self.can_type && self.keys.is_some() && self.other_key.is_some()
    }

    /// How far the exchange has come.
    pub fn state(&self) -> (state: ExchangeState)
        ensures
            state == self@.state(),
            self@.keys matches Some(keys) ==> keys.1 == public_of(keys.0),
    {
        proof {
            use_type_invariant(&*self);
        }
        match (self.keys, self.other_key) {
            (None, _) => ExchangeState::Unkeyed,
            (Some(_), None) => ExchangeState::KeySet,
            (Some(_), Some(_)) => ExchangeState::Exchanged,
        }
    }

    /// The secret shared with the other peer, once its public value is
    /// known: that value raised to the own private value, modulo `PRIME`.
    pub fn shared_secret(&self) -> (secret: Option<u16>)
        ensures
            secret == self@.secret(),
    {
        match (self.keys, self.other_key) {
            (Some(keys), Some(other)) => Some(mod_exp(other, keys.0, PRIME)),
            _ => None,
        }
    }

    /// Begins a round with the private value given: derives its public
    /// value, keeps both, and returns the frame that publishes the latter.
    pub fn start_round_with(&mut self, private_value: u16) -> (frame: String)
        ensures
            final(self)@ == old(self)@.with_round(private_value),
            frame@ == set_key_tag() + decimal(public_of(private_value) as nat),
    {
        let keys = keys_for(private_value);
        self.keys = Some(keys);
        set_key_text(keys.1)
    }

    /// Begins a round with a private value drawn at random from
    /// `[1, PRIME)`, and returns the frame that publishes its public value.
    pub fn start_round(&mut self) -> (frame: String)
        ensures
            exists|private_value: u16|
                1 <= private_value < PRIME && final(self)@ == old(self)@.with_round(private_value)
                    && frame@ == set_key_tag() + decimal(public_of(private_value) as nat),
    {
        let private_value: u16 = random_in_range(1, PRIME);
        self.start_round_with(private_value)
    }

    /// Takes in a decoded message from the relay and says what to do.
    ///
    /// An announced identity is kept and answered with a request for the
    /// other peer's key. A delivered key is kept and opens the keyboard.
    /// Chat content is deciphered under the shared secret and shown; before
    /// the exchange is complete it is dropped. A malformed frame is dropped.
    pub fn handle_message(&mut self, decoded: Result<WireMessage, WireError>) -> (reaction:
        ClientReaction)
        ensures
            final(self)@ == old(self)@.after_message(decoded_view(decoded)),
            reaction@ == old(self)@.plan_for_message(decoded_view(decoded)),
    {
        proof {
            use_type_invariant(&*self);
        }
        match decoded {
            Ok(WireMessage::PeerIdAnnounce(id)) => {
                self.id = Some(id);
                ClientReaction::Send(get_key_text())
            },
            Ok(WireMessage::GetPublicKeyResponse(value)) => {
                self.other_key = Some(value);
                self.can_type = true;
                ClientReaction::Ready
            },
            Ok(WireMessage::Payload(text)) => match self.shared_secret() {
                Some(secret) => match self.cipher.decrypt(text.as_str(), &secret) {
                    Ok(plain) => ClientReaction::Show(plain),
                    Err(_) => ClientReaction::Nothing,
                },
                None => ClientReaction::Nothing,
            },
            Ok(WireMessage::Close) => ClientReaction::Stop,
            _ => ClientReaction::Nothing,
        }
    }

    /// Takes in an event on the connection and says what to do: a text
    /// frame is decoded and handled as a message, the close frame and a
    /// failed read end the connection, any other frame is passed over.
    pub fn handle_event(&mut self, incoming: &Incoming) -> (reaction: ClientReaction)
        ensures
            final(self)@ == old(self)@.after_event(*incoming),
            reaction@ == old(self)@.plan_for_event(*incoming),
            incoming matches Incoming::Text(text) ==> (!is_id_length(text@.len()) ==> final(self)@
                == old(self)@.after_message(server_frame(text@, None)) && reaction@ == old(
                self,
            )@.plan_for_message(server_frame(text@, None))),
    {
        match incoming {
            Incoming::Text(text) => self.handle_message(decode_server_text(text.as_str())),
            Incoming::Close => ClientReaction::Stop,
            Incoming::Other => ClientReaction::Nothing,
            Incoming::Failed => ClientReaction::Stop,
        }
    }

    /// The frame for a line from the keyboard: the line without the white
    /// space round it, enciphered under the shared secret, where the
    /// exchange is complete and the keyboard is open; `None` where it is
    /// not.
    pub fn compose(&self, line: &str) -> (frame: Option<String>)
        ensures
            text_view(frame) == self@.frame_for_line(line@),
            frame is Some <==> self@.may_type(),
    {
        match self.shared_secret() {
            Some(secret) => if self.can_type {
                match self.cipher.encrypt(trim(line).as_str(), &secret) {
                    Ok(sealed) => Some(sealed),
                    Err(_) => None,
                }
            } else {
                None
            },
            None => None,
        }
    }

    /// Notes that a line has gone out: the keyboard closes until the next
    /// key arrives, and a round begins with the private value given. Returns
    /// the frame that publishes the new public value.
    pub fn line_sent_with(&mut self, private_value: u16) -> (frame: String)
        ensures
            final(self)@ == (SessionData { can_type: false, ..old(self)@.with_round(private_value) }),
            frame@ == set_key_tag() + decimal(public_of(private_value) as nat),
    {
        proof {
            use_type_invariant(&*self);
        }
        self.can_type = false;
        self.start_round_with(private_value)
    }

    /// Notes that a line has gone out, and begins a round with a private
    /// value drawn at random from `[1, PRIME)`.
    pub fn line_sent(&mut self) -> (frame: String)
        ensures
            exists|private_value: u16|
                1 <= private_value < PRIME && final(self)@ == (SessionData {
                    can_type: false,
                    ..old(self)@.with_round(private_value)
                }) && frame@ == set_key_tag() + decimal(public_of(private_value) as nat),
    {
        let private_value: u16 = random_in_range(1, PRIME);
        self.line_sent_with(private_value)
    }
}

} // verus!
