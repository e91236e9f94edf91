//! Carrying out deliveries: putting each frame on the outbound channel of
//! the peer it is for.
//!
//! Delivery is fire and forget. A frame for a peer that has left, or whose
//! channel is closed, is skipped: it is not tried again, and the sender
//! never hears of it.

use crate::registry::{has_peer, PeerRegistry};
use crate::server::Outgoing;
use vstd::prelude::*;

verus! {

/// `tokio::sync::mpsc::UnboundedSender`, the sending half of a channel
/// without bound. It is carried through and never looked into.
#[verifier::external_type_specification]
#[verifier::external_body]
#[verifier::reject_recursive_types(T)]
pub struct ExUnboundedSender<T>(tokio::sync::mpsc::UnboundedSender<T>);

/// `tungstenite::Message`, what travels on a WebSocket. It is carried
/// through and never looked into.
#[verifier::external_type_specification]
#[verifier::external_body]
pub struct ExMessage(tokio_tungstenite::tungstenite::Message);

/// `tokio::sync::mpsc::UnboundedSender::send` with the text message that
/// `tungstenite::Message::Text` makes of `frame`: the call never waits, and
/// fails where the receiving half of the channel is closed or dropped.
/// Whether it is depends on the other end, so nothing is promised of the
/// answer.
#[verifier::external_body]
fn enqueue_text(
    outbound: &tokio::sync::mpsc::UnboundedSender<tokio_tungstenite::tungstenite::Message>,
    frame: String,
) -> (queued: bool) {
    outbound.send(tokio_tungstenite::tungstenite::Message::Text(frame)).is_ok()
}

/// Puts each frame on the outbound channel of the peer it names, one
/// attempt each, in the order given, and says for each whether it was
/// queued. A frame for a peer that is not registered is never queued.
pub fn deliver(
    registry: &PeerRegistry<
        tokio::sync::mpsc::UnboundedSender<tokio_tungstenite::tungstenite::Message>,
    >,
    out: &Vec<Outgoing>,
) -> (queued: Vec<bool>)
    ensures
        queued@.len() == out@.len(),
        forall|at: int|
            0 <= at < out@.len() && !has_peer(registry@, out@[at].to) ==> !(#[trigger] queued@[at]),
{
    let mut queued: Vec<bool> = Vec::new();
    let mut at: usize = 0;
    while at < out.len()
        invariant
            at <= out.len(),
            queued@.len() == at,
            forall|k: int|
                0 <= k < at && !has_peer(registry@, out@[k].to) ==> !(#[trigger] queued@[k]),
        decreases out.len() - at,
    {
        let sent = match registry.find(out[at].to) {
            Some(record) => enqueue_text(&record.outbound, out[at].frame.clone()),
            None => false,
        };
        queued.push(sent);
        at += 1;
    }
    queued
}

} // verus!
