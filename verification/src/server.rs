//! The relay's side of a connection: what to do with each thing that
//! arrives from a peer.
//!
//! Nothing here touches a socket. A handler reads one event, asks
//! [`handle_event`] for the reaction, and carries it out: it publishes a
//! public value in the directory under exclusive access, or has each
//! delivery put on the outbound channel of the peer it names.
//!
//! The relay never holds a secret. It passes chat content on as it came,
//! keys exchanged or not, which between two peers that share one secret is
//! what opening and sealing it again would give. A sender gets no echo of
//! what it sent.

use crate::decimal::decimal;
use crate::peer::PeerId;
use crate::registry::{
    first_from, first_other, has_peer, lemma_first_from, lemma_without, record_of, unique_ids,
    without, PeerRecord, PeerRegistry,
};
use crate::wire::{
    client_frame, decode_client_text, decoded_view, key_reply_tag, key_reply_text, Frame,
    Incoming, WireError, WireMessage,
};
use vstd::prelude::*;

verus! {

/// A frame on its way to one peer.
#[derive(Debug, PartialEq, Eq)]
pub struct Outgoing {
    pub to: PeerId,
    pub frame: String,
}

impl View for Outgoing {
    type V = (PeerId, Seq<char>);

    open spec fn view(&self) -> (PeerId, Seq<char>) {
        (self.to, self.frame@)
    }
}

/// A list of deliveries as plain values: who gets which text.
pub open spec fn deliveries(out: Seq<Outgoing>) -> Seq<(PeerId, Seq<char>)> {
    Seq::new(out.len(), |at: int| out[at]@)
}

/// What the relay does about an event.
#[derive(Debug, PartialEq, Eq)]
pub enum Reaction {
    /// Record this public value for the sender.
    Publish(u16),
    /// Put each frame on the outbound channel of the peer it names, in
    /// this order. A delivery that fails is skipped.
    Deliver(Vec<Outgoing>),
    /// Carry on; there is nothing to do.
    Nothing,
    /// End the connection and take the sender out of the directory.
    Stop,
}

/// A reaction as plain values.
pub enum Plan {
    Publish(u16),
    Deliver(Seq<(PeerId, Seq<char>)>),
    Nothing,
    Stop,
}

impl View for Reaction {
    type V = Plan;

    open spec fn view(&self) -> Plan {
        match self {
            Reaction::Publish(value) => Plan::Publish(*value),
            Reaction::Deliver(out) => Plan::Deliver(deliveries(out@)),
            Reaction::Nothing => Plan::Nothing,
            Reaction::Stop => Plan::Stop,
        }
    }
}

/// The text that delivers `value` as a public value.
pub open spec fn key_reply(value: u16) -> Seq<char> {
    key_reply_tag() + decimal(value as nat)
}

/// Who gets what when `id` asks for the other peer's public value.
///
/// The other peer is the first one registered that is not `id`. Where it
/// has published a value, `id` gets that value, and the other peer gets
/// the value of `id` if `id` has published one, so that both sides arrive
/// at the secret without both having to ask. Where `id` is not registered,
/// nobody else is, or the other peer has published nothing yet, the request
/// is dropped.
pub open spec fn exchange_plan<H>(records: Seq<PeerRecord<H>>, id: PeerId) -> Seq<
    (PeerId, Seq<char>),
> {
    match (record_of(records, id), first_other(records, id)) {
        (Some(own), Some(other)) => match other.public_value {
            Some(theirs) => {
                let reply = seq![(id, key_reply(theirs))];
                match own.public_value {
                    Some(mine) => reply.push((other.id, key_reply(mine))),
                    None => reply,
                }
            },
            None => Seq::empty(),
        },
        _ => Seq::empty(),
    }
}

/// Who gets what when `sender` sends chat content: every other peer gets
/// the text as it came, in order of registration; the sender gets nothing
/// back.
pub open spec fn broadcast_plan<H>(
    records: Seq<PeerRecord<H>>,
    sender: PeerId,
    text: Seq<char>,
) -> Seq<(PeerId, Seq<char>)> {
    Seq::new(without(records, sender).len(), |at: int| (without(records, sender)[at].id, text))
}

/// What the relay does about a decoded message from `id`.
pub open spec fn message_plan<H>(
    records: Seq<PeerRecord<H>>,
    id: PeerId,
    decoded: Result<Frame, WireError>,
) -> Plan {
    match decoded {
        Ok(Frame::SetPublicKey(value)) => Plan::Publish(value),
        Ok(Frame::GetPublicKeyRequest) => Plan::Deliver(exchange_plan(records, id)),
        Ok(Frame::Payload(text)) => Plan::Deliver(broadcast_plan(records, id, text)),
        Ok(Frame::Close) => Plan::Stop,
        Ok(Frame::PeerIdAnnounce(_)) => Plan::Nothing,
        Ok(Frame::GetPublicKeyResponse(_)) => Plan::Nothing,
        Err(_) => Plan::Nothing,
    }
}

/// What the relay does about an event on the connection of `id`.
pub open spec fn event_plan<H>(records: Seq<PeerRecord<H>>, id: PeerId, incoming: Incoming) -> Plan {
    match incoming {
        Incoming::Text(text) => message_plan(records, id, client_frame(text@)),
        Incoming::Close => Plan::Stop,
        Incoming::Other => Plan::Nothing,
        Incoming::Failed => Plan::Stop,
    }
}

/// Chat content goes to every registered peer but the sender, to each
/// once and as it came, and never back to the sender.
pub proof fn lemma_broadcast_reaches_others<H>(
    records: Seq<PeerRecord<H>>,
    sender: PeerId,
    text: Seq<char>,
)
    ensures
        forall|at: int|
            0 <= at < broadcast_plan(records, sender, text).len() ==> {
                let delivery = #[trigger] broadcast_plan(records, sender, text)[at];
                delivery.0 != sender && has_peer(records, delivery.0) && delivery.1 == text
            },
        forall|other: PeerId|
            other != sender && has_peer(records, other) ==> exists|at: int|
                0 <= at < broadcast_plan(records, sender, text).len() && (#[trigger] broadcast_plan(
                    records,
                    sender,
                    text,
                )[at]).0 == other,
        unique_ids(records) ==> forall|i: int, j: int|
            0 <= i < j < broadcast_plan(records, sender, text).len() ==> broadcast_plan(
                records,
                sender,
                text,
            )[i].0 != broadcast_plan(records, sender, text)[j].0,
{
    let others = without(records, sender);
    let plan = broadcast_plan(records, sender, text);
    lemma_without(records, sender);
    assert forall|at: int| 0 <= at < plan.len() implies {
        let delivery = #[trigger] plan[at];
        delivery.0 != sender && has_peer(records, delivery.0) && delivery.1 == text
    } by {
        assert(others[at].id == plan[at].0);
        assert(has_peer(others, others[at].id));
        if others[at].id == sender {
            assert(has_peer(others, sender));
        }
    }
    assert forall|other: PeerId| other != sender && has_peer(records, other) implies exists|at: int|
        0 <= at < plan.len() && (#[trigger] plan[at]).0 == other by {
        assert(has_peer(others, other));
        let k = choose|k: int| 0 <= k < others.len() && (#[trigger] others[k]).id == other;
        assert(plan[k].0 == other);
    }
    if unique_ids(records) {
        assert forall|i: int, j: int| 0 <= i < j < plan.len() implies plan[i].0 != plan[j].0 by {
            assert(others[i].id != others[j].id);
        }
    }
}

/// A request for a key is answered with at most two frames, the first to
/// the peer that asked, the second to the other peer, both of them
/// registered; and it is answered at all only where the other peer has
/// published a value.
pub proof fn lemma_exchange_recipients<H>(records: Seq<PeerRecord<H>>, id: PeerId)
    ensures
        exchange_plan(records, id).len() <= 2,
        exchange_plan(records, id).len() >= 1 ==> exchange_plan(records, id)[0].0 == id && has_peer(
            records,
            id,
        ),
        exchange_plan(records, id).len() >= 1 ==> (first_other(records, id) matches Some(other)
            && other.public_value matches Some(theirs) && exchange_plan(records, id)[0].1
            == key_reply(theirs)),
        exchange_plan(records, id).len() == 2 ==> exchange_plan(records, id)[1].0 != id && has_peer(
            records,
            exchange_plan(records, id)[1].0,
        ),
{
    lemma_first_from(records, id, true, 0);
    lemma_first_from(records, id, false, 0);
}

/// A peer that asks for a key while nobody else is registered gets no
/// answer, and nothing else happens.
pub proof fn lemma_request_dropped_when_alone<H>(records: Seq<PeerRecord<H>>, id: PeerId)
    requires
        forall|at: int| 0 <= at < records.len() ==> (#[trigger] records[at]).id == id,
    ensures
        exchange_plan(records, id) == Seq::<(PeerId, Seq<char>)>::empty(),
{
    lemma_first_from(records, id, false, 0);
}

/// Of two peers, the one that stays gets no answer to a request for a key
/// once the other has left, whatever the other had published before.
pub proof fn lemma_request_dropped_after_departure<H>(
    records: Seq<PeerRecord<H>>,
    stays: PeerId,
    leaves: PeerId,
)
    requires
        forall|at: int|
            0 <= at < records.len() ==> (#[trigger] records[at]).id == stays || records[at].id
                == leaves,
    ensures
        exchange_plan(without(records, leaves), stays) == Seq::<(PeerId, Seq<char>)>::empty(),
{
    let left = without(records, leaves);
    lemma_without(records, leaves);
    assert forall|at: int| 0 <= at < left.len() implies (#[trigger] left[at]).id == stays by {
        let found = left[at];
        assert(records.contains(found));
        let k = choose|k: int| 0 <= k < records.len() && records[k] == found;
        assert(records[k].id == stays || records[k].id == leaves);
        if found.id == leaves {
            assert(has_peer(left, leaves));
        }
    }
    lemma_request_dropped_when_alone(left, stays);
}

/// Between two peers that have both published, a request from either is
/// answered with the other's value, and the other is sent the value of the
/// one that asked.
pub proof fn lemma_exchange_between_two<H>(first: PeerRecord<H>, second: PeerRecord<H>)
    requires
        first.id != second.id,
        first.public_value is Some,
        second.public_value is Some,
    ensures
        exchange_plan(seq![first, second], first.id) == seq![
            (first.id, key_reply(second.public_value->0)),
            (second.id, key_reply(first.public_value->0)),
        ],
        exchange_plan(seq![first, second], second.id) == seq![
            (second.id, key_reply(first.public_value->0)),
            (first.id, key_reply(second.public_value->0)),
        ],
{
    let records = seq![first, second];
    reveal_with_fuel(first_from, 3);
    assert(records[0] == first && records[1] == second);
    assert(record_of(records, first.id) == Some(first));
    assert(record_of(records, second.id) == Some(second));
    assert(first_other(records, first.id) == Some(second));
    assert(first_other(records, second.id) == Some(first));
    assert(exchange_plan(records, first.id) =~= seq![
        (first.id, key_reply(second.public_value->0)),
        (second.id, key_reply(first.public_value->0)),
    ]);
    assert(exchange_plan(records, second.id) =~= seq![
        (second.id, key_reply(first.public_value->0)),
        (first.id, key_reply(second.public_value->0)),
    ]);
}

/// Answers a request of `client_id` for the other peer's public value.
pub fn exchange_keys<H>(registry: &PeerRegistry<H>, client_id: PeerId) -> (out: Vec<Outgoing>)
    ensures
        deliveries(out@) == exchange_plan(registry@, client_id),
{
    let mut out: Vec<Outgoing> = Vec::new();
    assert(deliveries(out@) =~= Seq::<(PeerId, Seq<char>)>::empty());
    let own = match registry.find(client_id) {
        Some(record) => record,
        None => {
            return out;
        },
    };
    let other = match registry.find_other(client_id) {
        Some(record) => record,
        None => {
            return out;
        },
    };
    let theirs: u16 = match other.public_value {
        Some(value) => value,
        None => {
            return out;
        },
    };
    out.push(Outgoing { to: client_id, frame: key_reply_text(theirs) });
    assert(deliveries(out@) =~= seq![(client_id, key_reply(theirs))]);
    match own.public_value {
        Some(mine) => {
            out.push(Outgoing { to: other.id, frame: key_reply_text(mine) });
            assert(deliveries(out@) =~= seq![(client_id, key_reply(theirs))].push(
                (other.id, key_reply(mine)),
            ));
        },
        None => {},
    }
    out
}

/// Fans chat content from `client_id` out to every other peer, and not
/// back to `client_id`.
pub fn broadcast_message<H>(registry: &PeerRegistry<H>, client_id: PeerId, message: &str) -> (out:
    Vec<Outgoing>)
    ensures
        deliveries(out@) == broadcast_plan(registry@, client_id, message@),
{
    let others = registry.others(client_id);
    let ghost targets = without(registry@, client_id);
    let mut out: Vec<Outgoing> = Vec::new();
    let mut at: usize = 0;
    while at < others.len()
        invariant
            at <= others.len(),
            others@.len() == targets.len(),
            forall|k: int| 0 <= k < targets.len() ==> *others@[k] == #[trigger] targets[k],
            out@.len() == at,
            forall|k: int| 0 <= k < at ==> (#[trigger] out@[k])@ == (targets[k].id, message@),
        decreases others.len() - at,
    {
        out.push(Outgoing { to: others[at].id, frame: message.to_owned() });
        at += 1;
    }
    assert(deliveries(out@) =~= broadcast_plan(registry@, client_id, message@));
    out
}

/// Decides what to do about a decoded message from `client_id`.
pub fn handle_message<H>(
    registry: &PeerRegistry<H>,
    client_id: PeerId,
    decoded: Result<WireMessage, WireError>,
) -> (reaction: Reaction)
    ensures
        reaction@ == message_plan(registry@, client_id, decoded_view(decoded)),
{
    match decoded {
        Ok(WireMessage::SetPublicKey(value)) => Reaction::Publish(value),
        Ok(WireMessage::GetPublicKeyRequest) => Reaction::Deliver(
            exchange_keys(registry, client_id),
        ),
        Ok(WireMessage::Payload(text)) => Reaction::Deliver(
            broadcast_message(registry, client_id, text.as_str()),
        ),
        Ok(WireMessage::Close) => Reaction::Stop,
        Ok(WireMessage::PeerIdAnnounce(_)) => Reaction::Nothing,
        Ok(WireMessage::GetPublicKeyResponse(_)) => Reaction::Nothing,
        Err(_) => Reaction::Nothing,
    }
}

/// Decides what to do about an event on the connection of `client_id`.
///
/// A frame that publishes a key asks for the directory to be updated; a
/// request for a key is answered as [`exchange_plan`] says; chat content
/// goes to every other peer; a control frame with a malformed argument is
/// dropped; the close frame and a failed read end the connection.
pub fn handle_event<H>(registry: &PeerRegistry<H>, client_id: PeerId, incoming: &Incoming) -> (reaction:
    Reaction)
    ensures
        reaction@ == event_plan(registry@, client_id, *incoming),
{
    match incoming {
        Incoming::Text(text) => handle_message(
            registry,
            client_id,
            decode_client_text(text.as_str()),
        ),
        Incoming::Close => Reaction::Stop,
        Incoming::Other => Reaction::Nothing,
        Incoming::Failed => Reaction::Stop,
    }
}

} // verus!
